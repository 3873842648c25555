use viridithas::board::Board;
use viridithas::errors::FenParseError;
use viridithas::piece::{Colour, Piece};

fn error_of(fen: &str) -> FenParseError {
    match Board::from_fen(fen) {
        Ok(_) => panic!("{fen} was read as a position"),
        Err(e) => e,
    }
}

#[test]
fn fen_of_the_initial_position_is_the_default_board() {
    let board = Board::from_fen("rnbqkbnr/pppppppp/8/8/8/8/PPPPPPPP/RNBQKBNR w KQkq - 0 1").unwrap();
    let start = Board::default();
    assert_eq!(board.piece_array, start.piece_array);
    assert_eq!(board.turn(), Colour::White);
    assert_eq!(board.castle_perm, 15);
    assert_eq!(board.ep_sq, None);
    assert_eq!(board.piece_at(0), Piece::WR);
    assert_eq!(board.piece_at(4), Piece::WK);
    assert_eq!(board.piece_at(59), Piece::BQ);
    assert_eq!(board.piece_at(52), Piece::BP);
    assert_eq!(board.piece_at(27), Piece::Empty);
    assert_eq!(board.king_sq(Colour::White), 4);
    assert_eq!(board.king_sq(Colour::Black), 60);
    assert_eq!(board.num(Piece::WP), 8);
    assert_eq!(board.num(Piece::BN), 2);
}

#[test]
fn fen_fields_are_read() {
    let board =
        Board::from_fen("rnbqkbnr/pppp1ppp/8/4p3/4P3/8/PPPP1PPP/RNBQKBNR w Kq e6 0 2").unwrap();
    assert_eq!(board.turn(), Colour::White);
    assert_eq!(board.castle_perm, 1 | 8);
    assert_eq!(board.ep_sq, Some(44));
    assert_eq!(board.piece_at(28), Piece::WP);
    assert_eq!(board.piece_at(36), Piece::BP);
    let board = Board::from_fen("8/k7/8/8/8/8/K6P/8 b - a3").unwrap();
    assert_eq!(board.turn(), Colour::Black);
    assert_eq!(board.castle_perm, 0);
    assert_eq!(board.ep_sq, Some(16));
}

#[test]
fn fen_with_a_bad_placement_is_refused() {
    assert_eq!(error_of(""), FenParseError::Placement);
    assert_eq!(error_of("8/8/8/8/8/8/8 w - - 0 1"), FenParseError::Placement);
    assert_eq!(error_of("9/8/8/8/8/8/8/8 w - - 0 1"), FenParseError::Placement);
    assert_eq!(error_of("k7/8/8/8/8/8/8/K6x w - - 0 1"), FenParseError::Placement);
    assert_eq!(error_of("k7/8/8/8/8/8/8/K8 w - - 0 1"), FenParseError::Placement);
    assert_eq!(error_of("k7/8/8/8/8/8/8/K7/8 w - - 0 1"), FenParseError::Placement);
}

#[test]
fn fen_with_a_bad_side_is_refused() {
    assert_eq!(error_of("k7/8/8/8/8/8/8/K7"), FenParseError::SideToMove);
    assert_eq!(error_of("k7/8/8/8/8/8/8/K7 x - - 0 1"), FenParseError::SideToMove);
    assert_eq!(error_of("k7/8/8/8/8/8/8/K7 w"), FenParseError::SideToMove);
}

#[test]
fn fen_with_bad_castling_rights_is_refused() {
    assert_eq!(error_of("k7/8/8/8/8/8/8/K7 w x - 0 1"), FenParseError::Castling);
    assert_eq!(error_of("k7/8/8/8/8/8/8/K7 w -K - 0 1"), FenParseError::Castling);
    assert_eq!(error_of("k7/8/8/8/8/8/8/K7 w "), FenParseError::Castling);
}

#[test]
fn fen_with_a_bad_en_passant_square_is_refused() {
    assert_eq!(error_of("k7/8/8/8/8/8/8/K7 w -"), FenParseError::EnPassant);
    assert_eq!(error_of("k7/8/8/8/8/8/8/K7 w - e4 0 1"), FenParseError::EnPassant);
    assert_eq!(error_of("k7/8/8/8/8/8/8/K7 w - i3 0 1"), FenParseError::EnPassant);
    assert_eq!(error_of("k7/8/8/8/8/8/8/K7 w - e33 0 1"), FenParseError::EnPassant);
}

#[test]
fn fen_of_an_impossible_position_is_refused() {
    assert_eq!(error_of("8/8/8/8/8/8/8/K7 w - - 0 1"), FenParseError::Position);
    assert_eq!(error_of("kk6/8/8/8/8/8/8/K7 w - - 0 1"), FenParseError::Position);
    assert_eq!(error_of("k6P/8/8/8/8/8/8/K7 w - - 0 1"), FenParseError::Position);
    assert_eq!(error_of("k7/8/8/8/8/8/8/K6p w - - 0 1"), FenParseError::Position);
}
