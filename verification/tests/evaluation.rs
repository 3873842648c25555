use viridithas::board::evaluation::parameters::Parameters;
use viridithas::board::evaluation::score::S;
use viridithas::board::Board;
use viridithas::definitions::{BLACK, WHITE};

#[test]
fn unwinnable() {
    const FEN: &str = "8/8/8/8/2K2k2/2n2P2/8/8 b - - 1 1";
    let board = Board::from_fen(FEN).unwrap();
    let eval = board.evaluate();
    assert!(
        eval.abs() == 0,
        "eval is not a draw score ({eval}cp != 0cp) in a position unwinnable for both sides."
    );
}

#[test]
fn turn_equality() {
    const FEN1: &str = "rnbqkbnr/pppppppp/8/8/8/8/PPPPPPPP/RNBQKBNR w KQkq - 0 1";
    const FEN2: &str = "rnbqkbnr/pppppppp/8/8/8/8/PPPPPPPP/RNBQKBNR b KQkq - 0 1";
    let board1 = Board::from_fen(FEN1).unwrap();
    let board2 = Board::from_fen(FEN2).unwrap();
    let eval1 = board1.evaluate();
    let eval2 = board2.evaluate();
    assert_eq!(eval1, -eval2);
}

#[test]
fn startpos_mobility_equality() {
    let board = Board::default();
    assert_eq!(board.mobility().0, S(0, 0));
}

#[test]
fn startpos_eval_equality() {
    let board = Board::default();
    assert_eq!(board.evaluate(), 0);
}

#[test]
fn startpos_bits_equality() {
    let board = Board::default();

    let material = board.material[WHITE as usize] - board.material[BLACK as usize];
    let pst = board.pst_vals;
    let pawn_val = board.pawn_structure_term();
    let bishop_pair_val = board.bishop_pair_term();
    let mobility_val = board.mobility().0;
    let rook_open_file_val = board.rook_open_file_term();
    let queen_open_file_val = board.queen_open_file_term();

    assert_eq!(material, S(0, 0));
    assert_eq!(pst, S(0, 0));
    assert_eq!(pawn_val, S(0, 0));
    assert_eq!(bishop_pair_val, S(0, 0));
    assert_eq!(mobility_val, S(0, 0));
    assert_eq!(rook_open_file_val, S(0, 0));
    assert_eq!(queen_open_file_val, S(0, 0));
}

#[test]
fn startpos_pawn_structure_equality() {
    let board = Board::default();
    assert_eq!(board.pawn_structure_term(), S(0, 0));
}

#[test]
fn startpos_open_file_equality() {
    let board = Board::default();
    let rook_points = board.rook_open_file_term();
    let queen_points = board.queen_open_file_term();
    assert_eq!(rook_points + queen_points, S(0, 0));
}

#[test]
fn double_pawn_eval() {
    let doubled_pawn_malus = Parameters::default().doubled_pawn_malus;

    let board =
        Board::from_fen("rnbqkbnr/pppppppp/8/8/8/5P2/PPPP1PPP/RNBQKBNR w KQkq - 0 1").unwrap();
    let pawn_eval = board.pawn_structure_term();
    assert_eq!(pawn_eval, -doubled_pawn_malus);
    let board =
        Board::from_fen("rnbqkbnr/pppppppp/8/8/8/2P2P2/PPP2PPP/RNBQKBNR b KQkq - 0 1").unwrap();
    let pawn_eval = board.pawn_structure_term();
    assert_eq!(pawn_eval, -doubled_pawn_malus * 2);
}

#[test]
fn passers_should_be_pushed() {
    let starting_rank_passer = Board::from_fen("8/k7/8/8/8/8/K6P/8 w - - 0 1").unwrap();
    let end_rank_passer = Board::from_fen("8/k6P/8/8/8/8/K7/8 w - - 0 1").unwrap();

    let starting_rank_eval = starting_rank_passer.evaluate();
    let end_rank_eval = end_rank_passer.evaluate();

    // it should be better to have a passer that is more advanced.
    assert!(
        end_rank_eval > starting_rank_eval,
        "end_rank_eval: {end_rank_eval}, starting_rank_eval: {starting_rank_eval}"
    );
}
