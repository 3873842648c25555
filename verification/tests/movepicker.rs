use viridithas::board::movegen::movepicker::{MovePicker, Stage};
use viridithas::board::movegen::{MoveList, MoveListEntry, TT_MOVE_SCORE};
use viridithas::board::Board;
use viridithas::chessmove::Move;
use viridithas::piece::Piece;

fn sq(name: &str) -> u8 {
    let bytes = name.as_bytes();
    (bytes[1] - b'1') * 8 + (bytes[0] - b'a')
}

fn generated(board: &Board) -> Vec<Move> {
    let mut list = MoveList::new();
    board.generate_moves(&mut list);
    list.moves.iter().map(|e| e.entry).collect()
}

fn drain<const CAPTURES_ONLY: bool>(
    picker: &mut MovePicker<CAPTURES_ONLY>,
    board: &Board,
) -> Vec<MoveListEntry> {
    let mut out = Vec::new();
    while let Some(e) = picker.next(board) {
        out.push(e);
        assert!(out.len() <= 300);
    }
    out
}

fn sorted(mut moves: Vec<Move>) -> Vec<Move> {
    moves.sort_by_key(|m| (m.from(), m.to(), m.is_promo(), m.promotion_type().index(), m.is_ep()));
    moves
}

const KIWIPETE: &str = "r3k2r/p1ppqpb1/bn2pnp1/3PN3/1p2P3/2N2Q1p/PPPBBPPP/R3K2R w KQkq - 0 1";

#[test]
fn new_picker_starts_with_the_tt_move() {
    let tt = Move::new(sq("e2"), sq("e4"));
    let picker = MovePicker::<false>::new(tt);
    assert_eq!(picker.tt_move, tt);
    assert_eq!(picker.index, 0);
    assert_eq!(picker.stage, Stage::TTMove);
    assert!(!picker.skip_ordering);
    assert!(picker.movelist.moves.is_empty());
    assert!(picker.moves_made().is_empty());
}

#[test]
fn picker_yields_every_move_once() {
    for fen in [KIWIPETE, "rnbqkbnr/pppppppp/8/8/8/8/PPPPPPPP/RNBQKBNR w KQkq - 0 1"] {
        let board = Board::from_fen(fen).unwrap();
        let all = generated(&board);
        for tt in [Move::null(), all[0], all[all.len() / 2], all[all.len() - 1]] {
            for skip in [false, true] {
                let mut picker = MovePicker::<false>::new(tt);
                if skip {
                    picker.skip_ordering();
                }
                let yielded: Vec<Move> =
                    drain(&mut picker, &board).iter().map(|e| e.entry).collect();
                assert_eq!(sorted(yielded.clone()), sorted(all.clone()));
                if !tt.is_null() {
                    assert_eq!(yielded[0], tt);
                }
                assert_eq!(picker.next(&board), None);
                assert_eq!(picker.next(&board), None);
            }
        }
    }
}

#[test]
fn picker_yields_the_tt_move_with_its_score() {
    let board = Board::default();
    let tt = Move::new(sq("g1"), sq("f3"));
    let mut picker = MovePicker::<false>::new(tt);
    assert_eq!(picker.next(&board), Some(MoveListEntry { entry: tt, score: TT_MOVE_SCORE }));
    assert_eq!(picker.stage, Stage::GenerateMoves);
    assert!(picker.movelist.moves.is_empty());
    let second = picker.next(&board).unwrap();
    assert_eq!(picker.stage, Stage::YieldMoves);
    assert_eq!(picker.movelist.moves.len(), 20);
    assert_ne!(second.entry, tt);
    assert_eq!(second.score, 0);
}

#[test]
fn picker_passes_over_a_tt_move_that_is_no_move() {
    let board = Board::default();
    let tt = Move::new(sq("e2"), sq("e5"));
    let mut picker = MovePicker::<false>::new(tt);
    let yielded = drain(&mut picker, &board);
    assert_eq!(yielded.len(), 20);
    assert!(yielded.iter().all(|e| e.entry != tt));
}

#[test]
fn picker_without_ordering_keeps_the_order_of_generation() {
    let board = Board::from_fen(KIWIPETE).unwrap();
    let all = generated(&board);
    let mut picker = MovePicker::<false>::new(Move::null());
    picker.skip_ordering();
    let yielded: Vec<Move> = drain(&mut picker, &board).iter().map(|e| e.entry).collect();
    assert_eq!(yielded, all);
    let made: Vec<Move> = picker.moves_made().iter().map(|e| e.entry).collect();
    assert_eq!(made, all);
}

#[test]
fn picker_yields_by_falling_score() {
    let board = Board::default();
    let mut picker = MovePicker::<false>::new(Move::null());
    let first = Move::new(sq("e2"), sq("e4"));
    let second = Move::new(sq("d2"), sq("d4"));
    let third = Move::new(sq("g1"), sq("f3"));
    picker.score_by(&[(first, 0), (second, 0), (third, 0)], &board);
    assert_eq!(picker.stage, Stage::YieldMoves);
    let yielded = drain(&mut picker, &board);
    assert_eq!(yielded.len(), 20);
    assert_eq!(yielded[0], MoveListEntry { entry: first, score: 256 });
    assert_eq!(yielded[1], MoveListEntry { entry: second, score: 255 });
    assert_eq!(yielded[2], MoveListEntry { entry: third, score: 254 });
    assert!(yielded[3..].iter().all(|e| e.score == -1_000_000));
    for pair in yielded.windows(2) {
        assert!(pair[0].score >= pair[1].score);
    }
}

#[test]
fn score_by_forgets_the_tt_move() {
    let board = Board::default();
    let tt = Move::new(sq("e2"), sq("e4"));
    let mut picker = MovePicker::<false>::new(tt);
    picker.score_by(&[], &board);
    assert!(picker.tt_move.is_null());
    let yielded = drain(&mut picker, &board);
    assert_eq!(yielded.len(), 20);
    assert_eq!(yielded.iter().filter(|e| e.entry == tt).count(), 1);
    assert!(yielded.iter().all(|e| e.score == -1_000_000));
}

#[test]
fn score_by_uses_the_first_place_of_a_move() {
    let board = Board::default();
    let m = Move::new(sq("e2"), sq("e4"));
    let other = Move::new(sq("d2"), sq("d4"));
    let mut picker = MovePicker::<false>::new(Move::null());
    picker.score_by(&[(other, 9), (m, 1), (m, 2)], &board);
    let yielded = drain(&mut picker, &board);
    assert_eq!(yielded[0], MoveListEntry { entry: other, score: 256 });
    assert_eq!(yielded[1], MoveListEntry { entry: m, score: 255 });
}

#[test]
fn score_by_leaves_entries_marked_as_tt_move() {
    let board = Board::default();
    let mut picker = MovePicker::<false>::new(Move::null());
    picker.score_by(&[], &board);
    let marked = picker.movelist.moves[5].entry;
    picker.movelist.moves[5].score = TT_MOVE_SCORE;
    picker.score_by(&[(picker.movelist.moves[7].entry, 0)], &board);
    assert_eq!(picker.movelist.moves[5], MoveListEntry { entry: marked, score: TT_MOVE_SCORE });
    assert_eq!(picker.movelist.moves[7].score, 256);
    assert_eq!(picker.movelist.moves.len(), 20);
    let yielded = drain(&mut picker, &board);
    assert_eq!(yielded[0].entry, marked);
}

#[test]
fn captures_only_picker_yields_the_captures() {
    let board = Board::from_fen(KIWIPETE).unwrap();
    let mut list = MoveList::new();
    board.generate_captures(&mut list);
    let captures: Vec<Move> = list.moves.iter().map(|e| e.entry).collect();
    assert_eq!(captures.len(), 8);
    let tt = captures[3];
    let mut picker = MovePicker::<true>::new(tt);
    let yielded: Vec<Move> = drain(&mut picker, &board).iter().map(|e| e.entry).collect();
    assert_eq!(yielded[0], tt);
    assert_eq!(sorted(yielded.clone()), sorted(captures));
    assert!(yielded.iter().all(|m| board.piece_at(m.to()) != Piece::Empty));
}

#[test]
fn captures_only_picker_yields_a_quiet_tt_move_too() {
    let board = Board::from_fen(KIWIPETE).unwrap();
    let tt = Move::new(sq("a2"), sq("a3"));
    let mut picker = MovePicker::<true>::new(tt);
    let yielded: Vec<Move> = drain(&mut picker, &board).iter().map(|e| e.entry).collect();
    assert_eq!(yielded.len(), 9);
    assert_eq!(yielded[0], tt);
}

#[test]
fn picker_of_a_position_without_moves_yields_nothing() {
    // Black's king and pawn cannot move.
    let board = Board::from_fen("k7/P7/K7/8/8/8/8/8 b - - 0 1").unwrap();
    let mut list = MoveList::new();
    board.generate_moves(&mut list);
    let pseudo = list.moves.len();
    let mut picker = MovePicker::<false>::new(Move::null());
    assert_eq!(drain(&mut picker, &board).len(), pseudo);
    let mut picker = MovePicker::<true>::new(Move::null());
    // The king may take the pawn as far as its own moves go.
    let yielded = drain(&mut picker, &board);
    assert!(yielded.len() <= 1);
    assert_eq!(picker.next(&board), None);
}

#[test]
fn moves_made_are_the_entries_handed_out() {
    let board = Board::default();
    let mut picker = MovePicker::<false>::new(Move::null());
    let a = picker.next(&board).unwrap();
    let b = picker.next(&board).unwrap();
    assert_eq!(picker.moves_made().to_vec(), vec![a, b]);
    assert_eq!(picker.index, 2);
}
