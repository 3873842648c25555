use viridithas::board::movegen::{MoveList, MoveListEntry};
use viridithas::board::Board;
use viridithas::chessmove::{Move, MoveFlag};
use viridithas::piece::{Colour, Piece, PieceType};

fn sq(name: &str) -> u8 {
    let bytes = name.as_bytes();
    (bytes[1] - b'1') * 8 + (bytes[0] - b'a')
}

fn moves_of(board: &Board) -> Vec<Move> {
    let mut list = MoveList::new();
    board.generate_moves(&mut list);
    list.moves.iter().map(|e| e.entry).collect()
}

fn captures_of(board: &Board) -> Vec<Move> {
    let mut list = MoveList::new();
    board.generate_captures(&mut list);
    list.moves.iter().map(|e| e.entry).collect()
}

fn copy_of(board: &Board) -> Board {
    let mut copy = Board::from_pieces(
        board.piece_array.clone(),
        board.side,
        board.castle_perm,
        board.ep_sq,
        board.eval_params,
    )
    .unwrap();
    copy.history = board.history.clone();
    copy.height = board.height;
    copy
}

fn perft(board: &Board, depth: u32) -> u64 {
    if depth == 0 {
        return 1;
    }
    let mut nodes = 0;
    for m in moves_of(board) {
        let mut next = copy_of(board);
        if next.make_move(m) {
            nodes += perft(&next, depth - 1);
        }
    }
    nodes
}

#[test]
fn the_initial_position_has_twenty_moves() {
    let board = Board::default();
    let moves = moves_of(&board);
    assert_eq!(moves.len(), 20);
    assert!(moves.contains(&Move::new(sq("e2"), sq("e4"))));
    assert!(moves.contains(&Move::new(sq("g1"), sq("f3"))));
    assert!(!moves.contains(&Move::new(sq("e2"), sq("e5"))));
    assert!(captures_of(&board).is_empty());
    // Moves are listed by the square that they leave, then by target.
    assert_eq!(moves[0], Move::new(sq("b1"), sq("a3")));
    assert_eq!(moves[1], Move::new(sq("b1"), sq("c3")));
    assert_eq!(moves[19], Move::new(sq("h2"), sq("h4")));
}

#[test]
fn generated_entries_have_the_score_zero() {
    let board = Board::default();
    let mut list = MoveList::new();
    board.generate_moves(&mut list);
    assert!(list.moves.iter().all(|e| e.score == 0));
    assert_eq!(list.moves[0], MoveListEntry { entry: Move::new(1, 16), score: 0 });
}

#[test]
fn generation_adds_to_the_list() {
    let board = Board::default();
    let mut list = MoveList::new();
    list.push(Move::null());
    board.generate_moves(&mut list);
    assert_eq!(list.moves.len(), 21);
    assert_eq!(list.moves[0].entry, Move::null());
}

#[test]
fn generated_moves_are_the_pseudo_legal_ones() {
    let fens = [
        "rnbqkbnr/pppppppp/8/8/8/8/PPPPPPPP/RNBQKBNR w KQkq - 0 1",
        "r3k2r/p1ppqpb1/bn2pnp1/3PN3/1p2P3/2N2Q1p/PPPBBPPP/R3K2R w KQkq - 0 1",
        "8/2p5/3p4/KP5r/1R3p1k/8/4P1P1/8 w - - 0 1",
        "rnbq1k1r/pp1Pbppp/2p5/8/2B5/8/PPP1NnPP/RNBQK2R w KQ - 1 8",
    ];
    for fen in fens {
        let board = Board::from_fen(fen).unwrap();
        let moves = moves_of(&board);
        for (i, m) in moves.iter().enumerate() {
            assert!(board.is_pseudo_legal(*m), "{fen}");
            assert!(!moves[..i].contains(m), "{fen}");
        }
        // Every move that is built from two squares and a flag and is
        // pseudo-legal is listed.
        for from in 0..64u8 {
            for to in 0..64u8 {
                let mut candidates = vec![
                    Move::new(from, to),
                    Move::new_with_flag(from, to, MoveFlag::EnPassant),
                    Move::new_with_flag(from, to, MoveFlag::Castle),
                ];
                for kind in
                    [PieceType::Knight, PieceType::Bishop, PieceType::Rook, PieceType::Queen]
                {
                    candidates.push(Move::new_with_promo(from, to, kind));
                }
                for m in candidates {
                    assert_eq!(board.is_pseudo_legal(m), moves.contains(&m), "{fen}");
                }
            }
        }
        for m in captures_of(&board) {
            assert!(moves.contains(&m), "{fen}");
            assert!(board.piece_at(m.to()) != Piece::Empty || m.is_ep(), "{fen}");
        }
        let captures = captures_of(&board);
        for m in &moves {
            let captures_something = board.piece_at(m.to()) != Piece::Empty || m.is_ep();
            assert_eq!(captures.contains(m), captures_something, "{fen}");
        }
    }
}

#[test]
fn perft_of_the_initial_position() {
    let board = Board::default();
    assert_eq!(perft(&board, 1), 20);
    assert_eq!(perft(&board, 2), 400);
}

#[test]
fn perft_of_a_position_with_castling_and_pins() {
    let board = Board::from_fen(
        "r3k2r/p1ppqpb1/bn2pnp1/3PN3/1p2P3/2N2Q1p/PPPBBPPP/R3K2R w KQkq - 0 1",
    )
    .unwrap();
    assert_eq!(perft(&board, 1), 48);
    assert_eq!(perft(&board, 2), 2039);
}

#[test]
fn perft_of_an_endgame_with_en_passant() {
    let board = Board::from_fen("8/2p5/3p4/KP5r/1R3p1k/8/4P1P1/8 w - - 0 1").unwrap();
    assert_eq!(perft(&board, 1), 14);
    assert_eq!(perft(&board, 2), 191);
    assert_eq!(perft(&board, 3), 2812);
}

#[test]
fn perft_of_a_position_with_promotions() {
    let board =
        Board::from_fen("rnbq1k1r/pp1Pbppp/2p5/8/2B5/8/PPP1NnPP/RNBQK2R w KQ - 1 8").unwrap();
    assert_eq!(perft(&board, 1), 44);
    assert_eq!(perft(&board, 2), 1486);
}

#[test]
fn a_promotion_is_listed_four_times() {
    let board = Board::from_fen("4k3/P7/8/8/8/8/8/4K3 w - - 0 1").unwrap();
    let moves = moves_of(&board);
    let promotions: Vec<Move> = moves.iter().copied().filter(|m| m.is_promo()).collect();
    assert_eq!(
        promotions,
        vec![
            Move::new_with_promo(sq("a7"), sq("a8"), PieceType::Queen),
            Move::new_with_promo(sq("a7"), sq("a8"), PieceType::Knight),
            Move::new_with_promo(sq("a7"), sq("a8"), PieceType::Rook),
            Move::new_with_promo(sq("a7"), sq("a8"), PieceType::Bishop),
        ]
    );
    assert!(!moves.contains(&Move::new(sq("a7"), sq("a8"))));
}

#[test]
fn square_attacks_are_found() {
    let board = Board::default();
    assert!(board.sq_attacked(sq("e3"), Colour::White));
    assert!(board.sq_attacked(sq("f3"), Colour::White));
    assert!(!board.sq_attacked(sq("e4"), Colour::White));
    assert!(board.sq_attacked(sq("h6"), Colour::Black));
    assert!(!board.sq_attacked(sq("h5"), Colour::Black));
    let board = Board::from_fen("4k3/8/8/8/4R3/8/8/K7 w - - 0 1").unwrap();
    assert!(board.sq_attacked(sq("e8"), Colour::White));
    assert!(board.sq_attacked(sq("a4"), Colour::White));
    assert!(!board.sq_attacked(sq("d5"), Colour::White));
    assert!(board.sq_attacked(sq("d7"), Colour::Black));
}

#[test]
fn make_move_plays_a_move() {
    let mut board = Board::default();
    assert!(board.make_move(Move::new(sq("e2"), sq("e4"))));
    assert_eq!(board.piece_at(sq("e2")), Piece::Empty);
    assert_eq!(board.piece_at(sq("e4")), Piece::WP);
    assert_eq!(board.turn(), Colour::Black);
    assert_eq!(board.ep_sq, Some(sq("e3")));
    assert_eq!(board.castle_perm, 15);
    assert_eq!(board.height, 1);
    assert_eq!(board.history.len(), 1);
    assert_eq!(board.history[0].m, Move::new(sq("e2"), sq("e4")));
    assert_eq!(board.history[0].capture, Piece::Empty);
    assert_eq!(board.num(Piece::WP), 8);
}

#[test]
fn make_move_refuses_what_is_no_move() {
    let mut board = Board::default();
    let before = board.piece_array.clone();
    assert!(!board.make_move(Move::new(sq("e2"), sq("e5"))));
    assert!(!board.make_move(Move::new(sq("e7"), sq("e5"))));
    assert!(!board.make_move(Move::null()));
    assert_eq!(board.piece_array, before);
    assert_eq!(board.turn(), Colour::White);
    assert_eq!(board.height, 0);
    assert!(board.history.is_empty());
}

#[test]
fn make_move_refuses_to_leave_the_king_attacked() {
    // The knight on e2 is pinned by the rook on e8.
    let mut board = Board::from_fen("4r1k1/8/8/8/8/8/4N3/4K3 w - - 0 1").unwrap();
    assert!(board.is_pseudo_legal(Move::new(sq("e2"), sq("c3"))));
    assert!(!board.make_move(Move::new(sq("e2"), sq("c3"))));
    assert_eq!(board.piece_at(sq("e2")), Piece::WN);
    assert!(board.make_move(Move::new(sq("e1"), sq("d1"))));
}

#[test]
fn make_move_castles() {
    let mut board = Board::from_fen("r3k2r/8/8/8/8/8/8/R3K2R w KQkq - 0 1").unwrap();
    let castle = Move::new_with_flag(sq("e1"), sq("g1"), MoveFlag::Castle);
    assert!(board.make_move(castle));
    assert_eq!(board.piece_at(sq("g1")), Piece::WK);
    assert_eq!(board.piece_at(sq("f1")), Piece::WR);
    assert_eq!(board.piece_at(sq("h1")), Piece::Empty);
    assert_eq!(board.piece_at(sq("e1")), Piece::Empty);
    assert_eq!(board.castle_perm, 4 | 8);
    assert_eq!(board.king_sq(Colour::White), sq("g1"));
    let castle = Move::new_with_flag(sq("e8"), sq("c8"), MoveFlag::Castle);
    assert!(board.make_move(castle));
    assert_eq!(board.piece_at(sq("c8")), Piece::BK);
    assert_eq!(board.piece_at(sq("d8")), Piece::BR);
    assert_eq!(board.piece_at(sq("a8")), Piece::Empty);
    assert_eq!(board.castle_perm, 0);
}

#[test]
fn castling_through_an_attack_is_no_move() {
    // The black rook on f8 attacks f1.
    let board = Board::from_fen("4kr2/8/8/8/8/8/8/R3K2R w KQ - 0 1").unwrap();
    assert!(!board.is_pseudo_legal(Move::new_with_flag(sq("e1"), sq("g1"), MoveFlag::Castle)));
    assert!(board.is_pseudo_legal(Move::new_with_flag(sq("e1"), sq("c1"), MoveFlag::Castle)));
}

#[test]
fn make_move_promotes_and_captures() {
    let mut board = Board::from_fen("1n2k3/P7/8/8/8/8/8/4K3 w - - 0 1").unwrap();
    let m = Move::new_with_promo(sq("a7"), sq("b8"), PieceType::Queen);
    assert_eq!(board.captured_piece(m), Piece::BN);
    assert!(board.make_move(m));
    assert_eq!(board.piece_at(sq("b8")), Piece::WQ);
    assert_eq!(board.piece_at(sq("a7")), Piece::Empty);
    assert_eq!(board.history[0].capture, Piece::BN);
    assert_eq!(board.num(Piece::WP), 0);
    assert_eq!(board.num(Piece::BN), 0);
    assert_eq!(board.material[0], board.eval_params.piece_values[4]);
}
