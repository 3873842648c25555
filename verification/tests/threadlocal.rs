use viridithas::board::Board;
use viridithas::chessmove::Move;
use viridithas::definitions::{Depth, MAX_PLY};
use viridithas::piece::{Colour, Piece};
use viridithas::search::PVariation;
use viridithas::threadlocal::ThreadData;

#[test]
fn new_thread_data_is_blank() {
    let td = ThreadData::new(7);
    assert_eq!(td.thread_id, 7);
    assert_eq!(td.evals.len(), MAX_PLY);
    assert_eq!(td.excluded.len(), MAX_PLY);
    assert_eq!(td.best_moves.len(), MAX_PLY);
    assert_eq!(td.double_extensions.len(), MAX_PLY);
    assert_eq!(td.killer_move_table.len(), MAX_PLY);
    assert_eq!(td.pvs.len(), MAX_PLY);
    assert_eq!(td.banned_nmp, 0);
    assert_eq!(td.completed, 0);
    assert_eq!(td.depth, 0);
    assert!(td.multi_pv_excluded.is_empty());
    assert!(td.evals.iter().all(|e| *e == 0));
    assert!(td.excluded.iter().all(|m| m.is_null()));
    assert!(td.killer_move_table.iter().all(|k| k[0].is_null() && k[1].is_null()));
    assert!(td.pvs.iter().all(|pv| pv.score == 0 && pv.line.is_empty()));
    assert!(td.history_table.table.iter().all(|v| *v == 0));
}

#[test]
fn nmp_ban_flags_are_kept_by_colour() {
    let mut td = ThreadData::new(0);
    assert!(!td.nmp_banned_for(Colour::White));
    assert!(!td.nmp_banned_for(Colour::Black));
    td.ban_nmp_for(Colour::White);
    assert!(td.nmp_banned_for(Colour::White));
    assert!(!td.nmp_banned_for(Colour::Black));
    assert_eq!(td.banned_nmp, 0b01);
    td.ban_nmp_for(Colour::Black);
    assert!(td.nmp_banned_for(Colour::White));
    assert!(td.nmp_banned_for(Colour::Black));
    assert_eq!(td.banned_nmp, 0b11);
    td.unban_nmp_for(Colour::White);
    assert!(!td.nmp_banned_for(Colour::White));
    assert!(td.nmp_banned_for(Colour::Black));
    td.unban_nmp_for(Colour::White);
    assert_eq!(td.banned_nmp, 0b10);
    td.unban_nmp_for(Colour::Black);
    assert_eq!(td.banned_nmp, 0);
}

fn used_thread_data() -> (ThreadData, Board, Move) {
    let board = Board::default();
    let mut td = ThreadData::new(3);
    let m = Move::new(6, 21);
    td.add_history::<true>(&board, m, Depth::new(9));
    *td.followup_history.get_mut(Piece::WP, 28).get_mut(Piece::WN, 21) = -77;
    *td.counter_move_history.get_mut(Piece::BP, 36).get_mut(Piece::WN, 21) = 55;
    td.insert_killer(&board, m);
    td.depth = 5;
    td.update_best_line(&PVariation { score: 31, line: vec![m] });
    td.evals[2] = 99;
    td.ban_nmp_for(Colour::Black);
    (td, board, m)
}

#[test]
fn alloc_tables_clears_everything_learned() {
    let (mut td, board, m) = used_thread_data();
    assert_eq!(td.history_score(&board, m), 288);
    td.alloc_tables();
    assert_eq!(td.history_score(&board, m), 0);
    assert_eq!(td.followup_history.get(Piece::WP, 28).get(Piece::WN, 21), 0);
    assert_eq!(td.counter_move_history.get(Piece::BP, 36).get(Piece::WN, 21), 0);
    assert!(td.killer_move_table.iter().all(|k| k[0].is_null() && k[1].is_null()));
    assert_eq!(td.depth, 0);
    assert_eq!(td.completed, 0);
    assert!(td.pvs.iter().all(|pv| pv.score == 0 && pv.line.is_empty()));
    // What is no table of the search stays.
    assert_eq!(td.evals[2], 99);
    assert_eq!(td.thread_id, 3);
    assert!(td.nmp_banned_for(Colour::Black));
}

#[test]
fn setup_tables_for_search_ages_the_history() {
    let (mut td, board, m) = used_thread_data();
    td.setup_tables_for_search();
    assert_eq!(td.history_score(&board, m), 144);
    assert_eq!(td.followup_history.get(Piece::WP, 28).get(Piece::WN, 21), -38);
    assert_eq!(td.counter_move_history.get(Piece::BP, 36).get(Piece::WN, 21), 27);
    assert!(td.killer_move_table.iter().all(|k| k[0].is_null() && k[1].is_null()));
    assert_eq!(td.depth, 0);
    assert_eq!(td.completed, 0);
    assert!(td.pvs.iter().all(|pv| pv.score == 0 && pv.line.is_empty()));
    assert_eq!(td.evals[2], 99);
    td.setup_tables_for_search();
    assert_eq!(td.history_score(&board, m), 72);
}

#[test]
fn best_line_is_recorded_and_reverted() {
    let mut td = ThreadData::new(0);
    let first = PVariation { score: 10, line: vec![Move::new(12, 28)] };
    let second = PVariation { score: -4, line: vec![Move::new(6, 21), Move::new(57, 42)] };
    td.depth = 1;
    td.update_best_line(&first);
    assert_eq!(td.completed, 1);
    td.depth = 2;
    td.update_best_line(&second);
    assert_eq!(td.completed, 2);
    assert_eq!(td.pvs[1].score, 10);
    assert_eq!(td.pvs[1].line, first.line);
    assert_eq!(td.pvs[2].score, -4);
    assert_eq!(td.pvs[2].line, second.line);
    assert!(td.pvs[3].line.is_empty());
    // The search of depth 3 is given up.
    td.depth = 3;
    td.revert_best_line();
    assert_eq!(td.completed, 2);
    assert_eq!(td.depth, 3);
    assert_eq!(td.pvs[2].line, second.line);
}

#[test]
fn principal_variation_clone_keeps_the_line() {
    let pv = PVariation { score: 42, line: vec![Move::new(1, 2), Move::new(3, 4), Move::null()] };
    let copy = pv.clone();
    assert_eq!(copy.score, 42);
    assert_eq!(copy.line, pv.line);
    let empty = PVariation::default();
    assert_eq!(empty.score, 0);
    assert!(empty.line.is_empty());
}
