use vstd::prelude::*;

verus! {

/// Why a text is no position in Forsyth-Edwards notation.
#[derive(Clone, Copy, PartialEq, Eq, Debug, Structural)]
pub enum FenParseError {
    /// The first field does not place pieces on eight ranks of eight squares.
    Placement,
    /// The second field is neither `w` nor `b`.
    SideToMove,
    /// The third field is neither `-` nor made of the letters `K`, `Q`, `k`
    /// and `q`.
    Castling,
    /// The fourth field is neither `-` nor a square of the third or the sixth
    /// rank.
    EnPassant,
    /// The pieces are placed as in no game: a side has no king or more than
    /// one, or a pawn stands on the first or the last rank.
    Position,
}

} // verus!

verus! {

/// Why a word names no move of a position.
#[derive(Clone, Copy, PartialEq, Eq, Debug, Structural)]
pub enum MoveParseError {
    /// The word has neither four nor five letters.
    InvalidLength,
    /// The first two letters name no square.
    InvalidFromSquare,
    /// The third and the fourth letter name no square.
    InvalidToSquare,
    /// The fifth letter names no piece that a pawn is promoted to.
    InvalidPromotionPiece,
    /// The side to move has no such move.
    IllegalMove,
}

} // verus!
