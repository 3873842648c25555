use crate::bits::{is_set, lemma_has_and, lemma_has_empty, lemma_has_or};
use crate::board::movegen::bitboards::{file_bb, ranks_above, ranks_below};
use crate::definitions::{file_of, rank_of};
use crate::piece::Colour;
use vstd::prelude::*;

verus! {

/// Whether `t` lies on a file next to that of `s`.
pub open spec fn on_adjacent_file(s: int, t: int) -> bool {
    file_of(t) == file_of(s) - 1 || file_of(t) == file_of(s) + 1
}

/// Whether `t` lies before a pawn of `colour` on `s`: on its file or on one
/// next to it, and on a rank that the pawn has yet to reach.
pub open spec fn in_front_span(colour: Colour, s: int, t: int) -> bool {
    &&& -1 <= file_of(t) - file_of(s) <= 1
    &&& match colour {
        Colour::White => rank_of(t) > rank_of(s),
        Colour::Black => rank_of(t) < rank_of(s),
    }
}

/// The bitboard of the files next to that of `sq`.
pub fn isolated_bb(sq: u8) -> (r: u64)
    requires
        sq < 64,
    ensures
        forall|t: int| #[trigger] is_set(r, t) <==> 0 <= t < 64 && on_adjacent_file(sq as int, t),
{
    let f = sq % 8;
    let left = if f > 0 {
        file_bb(f - 1)
    } else {
        proof {
            lemma_has_empty();
        }
        0
    };
    let right = if f < 7 {
        file_bb(f + 1)
    } else {
        proof {
            lemma_has_empty();
        }
        0
    };
    proof {
        lemma_has_or(left, right);
    }
    left | right
}

/// The bitboard of the squares before a pawn of `colour` on `sq`.
pub fn passed_bb(colour: Colour, sq: u8) -> (r: u64)
    requires
        sq < 64,
    ensures
        forall|t: int|
            #[trigger] is_set(r, t) <==> 0 <= t < 64 && in_front_span(colour, sq as int, t),
{
    let f = sq % 8;
    let near = isolated_bb(sq);
    let own = file_bb(f);
    let ranks = match colour {
        Colour::White => ranks_above(sq / 8),
        Colour::Black => ranks_below(sq / 8),
    };
    proof {
        lemma_has_or(near, own);
        lemma_has_and(near | own, ranks);
    }
    (near | own) & ranks
}

/// Whether two bitboards share no square.
pub fn disjoint(a: u64, b: u64) -> (r: bool)
    ensures
        r <==> forall|t: int| !(#[trigger] is_set(a, t) && is_set(b, t)),
{
    proof {
        lemma_has_and(a, b);
        crate::bits::lemma_zero_iff_empty(a & b);
        if a & b == 0 {
            assert forall|t: int| !(#[trigger] is_set(a, t) && is_set(b, t)) by {
                assert(!is_set(a & b, t));
            }
        } else {
            let t = choose|t: int| is_set(a & b, t);
            assert(is_set(a, t) && is_set(b, t));
        }
    }
    a & b == 0
}

} // verus!
