use viridithas::board::Board;
use viridithas::chessmove::Move;
use viridithas::definitions::Depth;
use viridithas::historytable::{
    update_history, DoubleHistoryTable, HistoryTable, HISTORY_MAX, HISTORY_SLOTS,
};
use viridithas::piece::Piece;
use viridithas::threadlocal::ThreadData;

fn sq(name: &str) -> u8 {
    let bytes = name.as_bytes();
    (bytes[1] - b'1') * 8 + (bytes[0] - b'a')
}

fn mv(from: &str, to: &str) -> Move {
    Move::new(sq(from), sq(to))
}

fn play(board: &mut Board, from: &str, to: &str) {
    assert!(board.make_move(mv(from, to)), "{from}{to} was not made");
}

#[test]
fn update_history_adds_by_depth() {
    let mut val: i16 = 0;
    update_history::<true>(&mut val, Depth::new(1));
    assert_eq!(val, 32);
    update_history::<true>(&mut val, Depth::new(10));
    assert_eq!(val, 352);
    update_history::<false>(&mut val, Depth::new(12));
    assert_eq!(val, -32);
    update_history::<false>(&mut val, Depth::new(0));
    assert_eq!(val, -32);
    update_history::<true>(&mut val, Depth::new(-7));
    assert_eq!(val, -32);
}

#[test]
fn update_history_caps_the_depth() {
    let mut val: i16 = 0;
    update_history::<true>(&mut val, Depth::new(128));
    assert_eq!(val, 4096);
    let mut val: i16 = 0;
    update_history::<true>(&mut val, Depth::new(100_000));
    assert_eq!(val, 4096);
}

#[test]
fn history_saturates_at_the_bound() {
    let mut val: i16 = 0;
    for _ in 0..1000 {
        update_history::<true>(&mut val, Depth::new(20));
        assert!(val <= HISTORY_MAX);
    }
    assert_eq!(val, HISTORY_MAX);
    for _ in 0..1000 {
        update_history::<false>(&mut val, Depth::new(20));
        assert!(val >= -HISTORY_MAX);
    }
    assert_eq!(val, -HISTORY_MAX);
}

#[test]
fn history_update_brings_a_stray_score_within_the_bounds() {
    let mut val: i16 = i16::MAX;
    update_history::<true>(&mut val, Depth::new(5));
    assert_eq!(val, HISTORY_MAX);
    let mut val: i16 = i16::MIN;
    update_history::<false>(&mut val, Depth::new(5));
    assert_eq!(val, -HISTORY_MAX);
}

#[test]
fn ageing_halves_toward_zero() {
    let mut table = HistoryTable::new();
    *table.get_mut(Piece::WN, 10) = 101;
    *table.get_mut(Piece::BQ, 63) = -101;
    *table.get_mut(Piece::WP, 0) = 1;
    *table.get_mut(Piece::BP, 1) = -1;
    *table.get_mut(Piece::WK, 5) = HISTORY_MAX;
    table.age_entries();
    assert_eq!(table.get(Piece::WN, 10), 50);
    assert_eq!(table.get(Piece::BQ, 63), -50);
    assert_eq!(table.get(Piece::WP, 0), 0);
    assert_eq!(table.get(Piece::BP, 1), 0);
    assert_eq!(table.get(Piece::WK, 5), HISTORY_MAX / 2);
    assert_eq!(table.get(Piece::WK, 6), 0);
}

#[test]
fn ageing_shrinks_every_entry_and_keeps_its_sign() {
    for start in [-16384i16, -4097, -3, -2, -1, 0, 1, 2, 3, 999, 16384] {
        let mut table = HistoryTable::new();
        *table.get_mut(Piece::BR, 33) = start;
        table.age_entries();
        let aged = table.get(Piece::BR, 33);
        if start == 0 {
            assert_eq!(aged, 0);
        } else {
            assert!(aged.abs() < start.abs());
            assert!(aged == 0 || (aged > 0) == (start > 0));
        }
    }
}

#[test]
fn history_table_holds_a_score_for_each_key() {
    let mut table = HistoryTable::new();
    assert_eq!(table.table.len(), HISTORY_SLOTS);
    *table.get_mut(Piece::WP, 63) = 7;
    *table.get_mut(Piece::WN, 0) = 8;
    assert_eq!(table.get(Piece::WP, 63), 7);
    assert_eq!(table.get(Piece::WN, 0), 8);
    table.clear();
    assert_eq!(table.get(Piece::WP, 63), 0);
    assert_eq!(table.get(Piece::WN, 0), 0);
}

#[test]
fn double_history_table_keys_by_two_moves() {
    let mut table = DoubleHistoryTable::new();
    *table.get_mut(Piece::WP, 28).get_mut(Piece::BN, 45) = 300;
    assert_eq!(table.get(Piece::WP, 28).get(Piece::BN, 45), 300);
    assert_eq!(table.get(Piece::WP, 28).get(Piece::BN, 46), 0);
    assert_eq!(table.get(Piece::WP, 29).get(Piece::BN, 45), 0);
    table.age_entries();
    assert_eq!(table.get(Piece::WP, 28).get(Piece::BN, 45), 150);
    table.clear();
    assert_eq!(table.get(Piece::WP, 28).get(Piece::BN, 45), 0);
}

#[test]
fn add_history_scores_piece_and_target() {
    let board = Board::default();
    let mut td = ThreadData::new(0);
    let m = mv("g1", "f3");
    assert_eq!(td.history_score(&board, m), 0);
    td.add_history::<true>(&board, m, Depth::new(4));
    assert_eq!(td.history_score(&board, m), 128);
    assert_eq!(td.history_table.get(Piece::WN, sq("f3")), 128);
    // The other knight going to the same square has the same key.
    assert_eq!(td.history_score(&board, mv("b1", "f3")), 128);
    assert_eq!(td.history_score(&board, mv("g1", "h3")), 0);
    td.add_history::<false>(&board, m, Depth::new(6));
    assert_eq!(td.history_score(&board, m), -64);
}

#[test]
fn followup_history_needs_two_moves() {
    let mut board = Board::default();
    let mut td = ThreadData::new(0);
    let m = mv("g1", "f3");
    td.add_followup_history::<true>(&board, m, Depth::new(3));
    assert_eq!(td.followup_history_score(&board, m), 0);
    assert_eq!(board.followup_history_key(), None);
    play(&mut board, "e2", "e4");
    td.add_followup_history::<true>(&board, mv("g8", "f6"), Depth::new(3));
    assert_eq!(td.followup_history_score(&board, mv("g8", "f6")), 0);
    assert_eq!(board.followup_history_key(), None);
    play(&mut board, "e7", "e5");
    // White follows up its own pawn move to e4.
    assert_eq!(board.followup_history_key(), Some((Piece::WP, sq("e4"))));
    td.add_followup_history::<true>(&board, m, Depth::new(3));
    assert_eq!(td.followup_history_score(&board, m), 96);
    assert_eq!(td.followup_history.get(Piece::WP, sq("e4")).get(Piece::WN, sq("f3")), 96);
    assert_eq!(td.history_score(&board, m), 0);
    assert_eq!(td.countermove_history_score(&board, m), 0);
}

#[test]
fn followup_history_uses_the_captured_piece() {
    let mut board = Board::default();
    let mut td = ThreadData::new(0);
    play(&mut board, "e2", "e4");
    play(&mut board, "d7", "d5");
    play(&mut board, "e4", "d5");
    play(&mut board, "d8", "d5");
    // Two plies ago the white pawn went to d5, where the queen has now
    // captured it: the pawn is the key, not the queen that stands there.
    assert_eq!(board.piece_at(sq("d5")), Piece::BQ);
    assert_eq!(board.followup_history_key(), Some((Piece::WP, sq("d5"))));
    let m = mv("b1", "c3");
    td.add_followup_history::<false>(&board, m, Depth::new(2));
    assert_eq!(td.followup_history_score(&board, m), -64);
    assert_eq!(td.followup_history.get(Piece::WP, sq("d5")).get(Piece::WN, sq("c3")), -64);
    assert_eq!(td.followup_history.get(Piece::BQ, sq("d5")).get(Piece::WN, sq("c3")), 0);
}

#[test]
fn countermove_history_uses_the_last_move() {
    let mut board = Board::default();
    let mut td = ThreadData::new(0);
    let reply = mv("e7", "e5");
    td.add_countermove_history::<true>(&board, reply, Depth::new(5));
    assert_eq!(td.countermove_history_score(&board, reply), 0);
    assert_eq!(board.countermove_history_key(), None);
    play(&mut board, "e2", "e4");
    assert_eq!(board.countermove_history_key(), Some((Piece::WP, sq("e4"))));
    td.add_countermove_history::<true>(&board, reply, Depth::new(5));
    assert_eq!(td.countermove_history_score(&board, reply), 160);
    assert_eq!(td.counter_move_history.get(Piece::WP, sq("e4")).get(Piece::BP, sq("e5")), 160);
    assert_eq!(td.followup_history_score(&board, reply), 0);
}

#[test]
fn history_after_en_passant_is_left_alone() {
    let mut board =
        Board::from_fen("rnbqkbnr/ppp1pppp/8/8/3pP3/8/PPPP1PPP/RNBQKBNR b KQkq e3 0 1").unwrap();
    let mut td = ThreadData::new(0);
    let capture = Move::new_with_flag(sq("d4"), sq("e3"), viridithas::chessmove::MoveFlag::EnPassant);
    assert!(board.make_move(capture));
    assert_eq!(board.piece_at(sq("e4")), Piece::Empty);
    assert_eq!(board.piece_at(sq("e3")), Piece::BP);
    assert_eq!(board.countermove_history_key(), None);
    let m = mv("d2", "e3");
    td.add_countermove_history::<true>(&board, m, Depth::new(5));
    assert_eq!(td.countermove_history_score(&board, m), 0);
    play(&mut board, "d2", "e3");
    // The capture en passant is now the move before the last one, and the
    // pawn that made it was captured on its target square.
    assert_eq!(board.followup_history_key(), Some((Piece::BP, sq("e3"))));
}

#[test]
fn killers_shift_on_insert() {
    let mut board = Board::default();
    let mut td = ThreadData::new(0);
    let first = mv("g1", "f3");
    let second = mv("b1", "c3");
    td.insert_killer(&board, first);
    assert_eq!(td.killer_move_table[0], [first, Move::null()]);
    td.insert_killer(&board, second);
    assert_eq!(td.killer_move_table[0], [second, first]);
    // The same move again is not told apart from a new one.
    td.insert_killer(&board, second);
    assert_eq!(td.killer_move_table[0], [second, second]);
    assert_eq!(td.killer_move_table[1], [Move::null(), Move::null()]);
    play(&mut board, "e2", "e4");
    assert_eq!(board.height, 1);
    td.insert_killer(&board, first);
    assert_eq!(td.killer_move_table[1], [first, Move::null()]);
    assert_eq!(td.killer_move_table[0], [second, second]);
}
