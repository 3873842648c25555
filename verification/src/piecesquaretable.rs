use crate::board::evaluation::score::{pair_neg, pair_within, S};
use crate::definitions::{file_of, rank_of};
use crate::piece::{Colour, Piece, PieceType};
use vstd::prelude::*;

verus! {

/// The greatest magnitude of either part of a piece-square value.
pub const PST_LIMIT: i32 = 100;

/// How central a rank or a file is: 0 for the two at the edge up to 3 for the
/// two in the middle.
pub open spec fn centrality(x: int) -> int {
    if x < 4 {
        x
    } else {
        7 - x
    }
}

/// What a white piece of kind `kind` is worth for standing on `sq`.
pub open spec fn pst_table(kind: PieceType, sq: int) -> (int, int) {
    let r = rank_of(sq);
    let cf = centrality(file_of(sq));
    let c = centrality(r) + cf;
    match kind {
        PieceType::Pawn => (4 * cf + 3 * (r - 1), 8 * (r - 1)),
        PieceType::Knight => (10 * c - 30, 8 * c - 24),
        PieceType::Bishop => (6 * c - 15, 5 * c - 12),
        PieceType::Rook => (3 * cf + if r == 6 {
            12int
        } else {
            0int
        }, 0),
        PieceType::Queen => (2 * c - 4, 5 * c - 12),
        PieceType::King => (if r == 0 {
            24int
        } else {
            0int
        } - 12 * c, 10 * c - 30),
    }
}

/// The square that mirrors `sq` across the middle of the board: the same file,
/// and the rank counted from the other side.
pub open spec fn flip_rank(sq: int) -> int {
    8 * (7 - rank_of(sq)) + file_of(sq)
}

/// What `piece` on `sq` adds to the piece-square total, which is counted from
/// White's side: a black piece adds the negation of what a white piece of its
/// kind adds on the mirrored square.
pub open spec fn pst_spec(piece: Piece, sq: int) -> (int, int) {
    match (piece.spec_colour(), piece.spec_kind()) {
        (Some(Colour::White), Some(kind)) => pst_table(kind, sq),
        (Some(Colour::Black), Some(kind)) => pair_neg(pst_table(kind, flip_rank(sq))),
        _ => (0, 0),
    }
}

pub proof fn lemma_pst_within(piece: Piece, sq: int)
    requires
        0 <= sq < 64,
    ensures
        pair_within(pst_spec(piece, sq), PST_LIMIT as int),
{
}

fn table_value(kind: PieceType, sq: u8) -> (v: S)
    requires
        sq < 64,
    ensures
        v@ == pst_table(kind, sq as int),
{
    let r = (sq / 8) as i32;
    let f = (sq % 8) as i32;
    let cf = if f < 4 {
        f
    } else {
        7 - f
    };
    let c = cf + if r < 4 {
        r
    } else {
        7 - r
    };
    match kind {
        PieceType::Pawn => S(4 * cf + 3 * (r - 1), 8 * (r - 1)),
        PieceType::Knight => S(10 * c - 30, 8 * c - 24),
        PieceType::Bishop => S(6 * c - 15, 5 * c - 12),
        PieceType::Rook => S(3 * cf + if r == 6 {
            12
        } else {
            0
        }, 0),
        PieceType::Queen => S(2 * c - 4, 5 * c - 12),
        PieceType::King => S(if r == 0 {
            24
        } else {
            0
        } - 12 * c, 10 * c - 30),
    }
}

/// What `piece` on `sq` adds to the piece-square total.
pub fn pst_value(piece: Piece, sq: u8) -> (v: S)
    requires
        sq < 64,
    ensures
        v@ == pst_spec(piece, sq as int),
        v.within(PST_LIMIT as int),
{
    match (piece.colour(), piece.kind()) {
        (Some(Colour::White), Some(kind)) => table_value(kind, sq),
        (Some(Colour::Black), Some(kind)) => {
            let t = table_value(kind, 8 * (7 - sq / 8) + sq % 8);
            S(-t.0, -t.1)
        },
        _ => S(0, 0),
    }
}

} // verus!
