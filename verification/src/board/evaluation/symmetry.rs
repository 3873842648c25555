use crate::bits::{count_squares, is_set, lemma_count_below_is_count_squares};
use crate::board::evaluation::score::{
    lemma_sum_pairs_eq, lerp_spec, pair_neg, sum_ints, sum_pairs,
};
use crate::board::evaluation::{in_king_area, kingdanger_spec};
use crate::board::movegen::bitboards::{
    bishop_reach, is_direction, king_reach, knight_reach, pawn_attacked, piece_reach, ray_reach,
    ray_room, rook_reach,
};
use crate::board::{material_of, material_sum, Board};
use crate::definitions::{file_of, on_board, rank_of, square_at};
use crate::lookups::{in_front_span, on_adjacent_file};
use crate::piece::{Colour, Piece, PieceType};
use crate::piecesquaretable::{flip_rank, pst_spec};
use vstd::prelude::*;

verus! {

/// The sum of `f` over the eight squares from `n` on.
pub open spec fn row_sum(f: spec_fn(int) -> int, n: int) -> int {
    f(n) + f(n + 1) + f(n + 2) + f(n + 3) + f(n + 4) + f(n + 5) + f(n + 6) + f(n + 7)
}

proof fn lemma_sum_row(f: spec_fn(int) -> int, n: int)
    requires
        0 <= n,
    ensures
        sum_ints(f, n + 8) == sum_ints(f, n) + row_sum(f, n),
{
    reveal_with_fuel(sum_ints, 9);
}

proof fn lemma_sum_by_rows(f: spec_fn(int) -> int)
    ensures
        sum_ints(f, 64) == row_sum(f, 0) + row_sum(f, 8) + row_sum(f, 16) + row_sum(f, 24) + row_sum(
            f,
            32,
        ) + row_sum(f, 40) + row_sum(f, 48) + row_sum(f, 56),
{
    lemma_sum_row(f, 0);
    lemma_sum_row(f, 8);
    lemma_sum_row(f, 16);
    lemma_sum_row(f, 24);
    lemma_sum_row(f, 32);
    lemma_sum_row(f, 40);
    lemma_sum_row(f, 48);
    lemma_sum_row(f, 56);
}

proof fn lemma_row_flipped(f: spec_fn(int) -> int, g: spec_fn(int) -> int, n: int)
    requires
        n == 0 || n == 8 || n == 16 || n == 24 || n == 32 || n == 40 || n == 48 || n == 56,
        forall|s: int| 0 <= s < 64 ==> #[trigger] g(s) == f(flip_rank(s)),
    ensures
        row_sum(g, n) == row_sum(f, 56 - n),
{
    assert(g(n) == f(56 - n));
    assert(g(n + 1) == f(56 - n + 1));
    assert(g(n + 2) == f(56 - n + 2));
    assert(g(n + 3) == f(56 - n + 3));
    assert(g(n + 4) == f(56 - n + 4));
    assert(g(n + 5) == f(56 - n + 5));
    assert(g(n + 6) == f(56 - n + 6));
    assert(g(n + 7) == f(56 - n + 7));
}

/// A sum over the squares is the same when each square is taken for the one
/// that mirrors it.
pub proof fn lemma_sum_ints_flipped(f: spec_fn(int) -> int, g: spec_fn(int) -> int)
    requires
        forall|s: int| 0 <= s < 64 ==> #[trigger] g(s) == f(flip_rank(s)),
    ensures
        sum_ints(g, 64) == sum_ints(f, 64),
{
    lemma_sum_by_rows(f);
    lemma_sum_by_rows(g);
    lemma_row_flipped(f, g, 0);
    lemma_row_flipped(f, g, 8);
    lemma_row_flipped(f, g, 16);
    lemma_row_flipped(f, g, 24);
    lemma_row_flipped(f, g, 32);
    lemma_row_flipped(f, g, 40);
    lemma_row_flipped(f, g, 48);
    lemma_row_flipped(f, g, 56);
}

proof fn lemma_sum_pairs_parts(f: spec_fn(int) -> (int, int), n: int)
    ensures
        sum_pairs(f, n).0 == sum_ints(|s: int| f(s).0, n),
        sum_pairs(f, n).1 == sum_ints(|s: int| f(s).1, n),
    decreases n,
{
    if n > 0 {
        lemma_sum_pairs_parts(f, n - 1);
    }
}

proof fn lemma_sum_ints_negated(f: spec_fn(int) -> int, g: spec_fn(int) -> int, n: int)
    requires
        forall|s: int| 0 <= s < n ==> #[trigger] g(s) == -f(s),
    ensures
        sum_ints(g, n) == -sum_ints(f, n),
    decreases n,
{
    if n > 0 {
        lemma_sum_ints_negated(f, g, n - 1);
    }
}

/// A sum of pairs over the squares is the same when each square is taken for
/// the one that mirrors it.
pub proof fn lemma_sum_pairs_flipped(f: spec_fn(int) -> (int, int), g: spec_fn(int) -> (int, int))
    requires
        forall|s: int| 0 <= s < 64 ==> #[trigger] g(s) == f(flip_rank(s)),
    ensures
        sum_pairs(g, 64) == sum_pairs(f, 64),
{
    lemma_sum_pairs_parts(f, 64);
    lemma_sum_pairs_parts(g, 64);
    let f0 = |s: int| f(s).0;
    let g0 = |s: int| g(s).0;
    let f1 = |s: int| f(s).1;
    let g1 = |s: int| g(s).1;
    assert forall|s: int| 0 <= s < 64 implies #[trigger] g0(s) == f0(flip_rank(s)) by {
        assert(g(s) == f(flip_rank(s)));
    }
    assert forall|s: int| 0 <= s < 64 implies #[trigger] g1(s) == f1(flip_rank(s)) by {
        assert(g(s) == f(flip_rank(s)));
    }
    lemma_sum_ints_flipped(f0, g0);
    lemma_sum_ints_flipped(f1, g1);
}

/// A sum of pairs over the squares is negated when each square is taken for
/// the one that mirrors it and each pair for its negation.
pub proof fn lemma_sum_pairs_mirrored(f: spec_fn(int) -> (int, int), g: spec_fn(int) -> (int, int))
    requires
        forall|s: int| 0 <= s < 64 ==> #[trigger] g(s) == pair_neg(f(flip_rank(s))),
    ensures
        sum_pairs(g, 64) == pair_neg(sum_pairs(f, 64)),
{
    let h = |s: int| f(flip_rank(s));
    lemma_sum_pairs_flipped(f, h);
    lemma_sum_pairs_parts(h, 64);
    lemma_sum_pairs_parts(g, 64);
    let h0 = |s: int| h(s).0;
    let g0 = |s: int| g(s).0;
    let h1 = |s: int| h(s).1;
    let g1 = |s: int| g(s).1;
    assert forall|s: int| 0 <= s < 64 implies #[trigger] g0(s) == -h0(s) by {
        assert(g(s) == pair_neg(f(flip_rank(s))));
    }
    assert forall|s: int| 0 <= s < 64 implies #[trigger] g1(s) == -h1(s) by {
        assert(g(s) == pair_neg(f(flip_rank(s))));
    }
    lemma_sum_ints_negated(h0, g0, 64);
    lemma_sum_ints_negated(h1, g1, 64);
}

proof fn lemma_count_is_sum(p: spec_fn(int) -> bool, n: int)
    ensures
        count_squares(p, n) == sum_ints(
            |s: int|
                if p(s) {
                    1int
                } else {
                    0int
                },
            n,
        ),
    decreases n,
{
    if n > 0 {
        lemma_count_is_sum(p, n - 1);
    }
}

/// As many squares meet a condition as meet the condition on the squares that
/// mirror them.
pub proof fn lemma_count_flipped(p: spec_fn(int) -> bool, q: spec_fn(int) -> bool)
    requires
        forall|s: int| 0 <= s < 64 ==> #[trigger] q(s) == p(flip_rank(s)),
    ensures
        count_squares(q, 64) == count_squares(p, 64),
{
    lemma_count_is_sum(p, 64);
    lemma_count_is_sum(q, 64);
    let f = |s: int|
        if p(s) {
            1int
        } else {
            0int
        };
    let g = |s: int|
        if q(s) {
            1int
        } else {
            0int
        };
    assert forall|s: int| 0 <= s < 64 implies #[trigger] g(s) == f(flip_rank(s)) by {
        assert(q(s) == p(flip_rank(s)));
    }
    lemma_sum_ints_flipped(f, g);
}

/// The piece of the same kind and of the other side.
pub open spec fn swap_colour(p: Piece) -> Piece {
    match p {
        Piece::Empty => Piece::Empty,
        Piece::WP => Piece::BP,
        Piece::WN => Piece::BN,
        Piece::WB => Piece::BB,
        Piece::WR => Piece::BR,
        Piece::WQ => Piece::BQ,
        Piece::WK => Piece::BK,
        Piece::BP => Piece::WP,
        Piece::BN => Piece::WN,
        Piece::BB => Piece::WB,
        Piece::BR => Piece::WR,
        Piece::BQ => Piece::WQ,
        Piece::BK => Piece::WK,
    }
}

/// The pieces as they stand when the board is turned over and the colours are
/// exchanged: on each square stands the piece of the other side that stood on
/// the square across the middle of the board.
pub open spec fn mirrored(pieces: Seq<Piece>) -> Seq<Piece> {
    Seq::new(64, |s: int| swap_colour(pieces[flip_rank(s)]))
}

/// Whether two bitboards hold the squares that mirror each other.
#[verifier::opaque]
pub open spec fn flipped_bb(a: u64, b: u64) -> bool {
    forall|s: int| 0 <= s < 64 ==> #[trigger] is_set(b, s) == is_set(a, flip_rank(s))
}

/// The square that mirrors the one on rank `r` and file `f` is the one on
/// rank `7 - r` and file `f`.
pub proof fn lemma_flip_square(r: int, f: int)
    requires
        on_board(r, f),
    ensures
        flip_rank(square_at(r, f)) == square_at(7 - r, f),
        rank_of(square_at(r, f)) == r,
        file_of(square_at(r, f)) == f,
        0 <= square_at(r, f) < 64,
{
}

/// A square is the one on its rank and file, and the mirror of its mirror.
pub proof fn lemma_square_parts(s: int)
    requires
        0 <= s < 64,
    ensures
        s == square_at(rank_of(s), file_of(s)),
        on_board(rank_of(s), file_of(s)),
        0 <= flip_rank(s) < 64,
        flip_rank(flip_rank(s)) == s,
        rank_of(flip_rank(s)) == 7 - rank_of(s),
        file_of(flip_rank(s)) == file_of(s),
{
}

/// Two squares of the board are the same just when they are on the same rank
/// and file.
proof fn lemma_square_eq(r1: int, f1: int, r2: int, f2: int)
    requires
        on_board(r1, f1),
        on_board(r2, f2),
    ensures
        (square_at(r1, f1) == square_at(r2, f2)) == (r1 == r2 && f1 == f2),
{
}

/// Mirrored bitboards hold the square on rank `7 - r` and file `f` of the
/// one just when they hold the square on rank `r` and file `f` of the other.
proof fn lemma_flipped_at(occ_a: u64, occ_b: u64, r: int, f: int)
    requires
        flipped_bb(occ_a, occ_b),
        on_board(r, f),
    ensures
        is_set(occ_b, square_at(7 - r, f)) == is_set(occ_a, square_at(r, f)),
{
    reveal(flipped_bb);
    lemma_flip_square(7 - r, f);
    let s = square_at(7 - r, f);
    assert(is_set(occ_b, s) == is_set(occ_a, flip_rank(s)));
}

/// A ray reaches the mirror of what the mirrored ray reaches on the mirrored
/// board.
pub proof fn lemma_ray_flipped(
    occ_a: u64,
    occ_b: u64,
    r: int,
    f: int,
    dr: int,
    df: int,
    tr: int,
    tf: int,
)
    requires
        flipped_bb(occ_a, occ_b),
        on_board(tr, tf),
    ensures
        ray_reach(occ_b, 7 - r, f, -dr, df, square_at(7 - tr, tf)) == ray_reach(
            occ_a,
            r,
            f,
            dr,
            df,
            square_at(tr, tf),
        ),
    decreases ray_room(r, f, dr, df),
{
    let t = square_at(tr, tf);
    let u = square_at(7 - tr, tf);
    let here = ray_reach(occ_a, r, f, dr, df, t);
    let there = ray_reach(occ_b, 7 - r, f, -dr, df, u);
    if is_direction(dr, df) && on_board(r, f) && on_board(r + dr, f + df) {
        let next = square_at(r + dr, f + df);
        let mirrored = square_at(7 - r - dr, f + df);
        lemma_flipped_at(occ_a, occ_b, r + dr, f + df);
        lemma_ray_flipped(occ_a, occ_b, r + dr, f + df, dr, df, tr, tf);
        let further = ray_reach(occ_a, r + dr, f + df, dr, df, t);
        let further_there = ray_reach(occ_b, 7 - r - dr, f + df, -dr, df, u);
        assert(further == further_there);
        lemma_square_eq(tr, tf, r + dr, f + df);
        lemma_square_eq(7 - tr, tf, 7 - r - dr, f + df);
        assert((u == mirrored) == (t == next));
        assert(is_set(occ_b, mirrored) == is_set(occ_a, next));
        assert(here == (t == next || (!is_set(occ_a, next) && further)));
        assert(is_direction(-dr, df) && on_board(7 - r, f) && on_board(7 - r + (-dr), f + df));
        assert(there == (u == mirrored || (!is_set(occ_b, mirrored) && further_there)));
    } else {
        assert(!here);
        assert(!there);
    }
}

/// A piece attacks the mirror of what it attacks from the mirrored square on
/// the mirrored board.
pub proof fn lemma_reach_flipped(kind: PieceType, occ_a: u64, occ_b: u64, s: int, t: int)
    requires
        flipped_bb(occ_a, occ_b),
        0 <= s < 64,
        0 <= t < 64,
    ensures
        piece_reach(kind, occ_b, flip_rank(s), flip_rank(t)) == piece_reach(kind, occ_a, s, t),
{
    let r = rank_of(s);
    let f = file_of(s);
    let tr = rank_of(t);
    let tf = file_of(t);
    lemma_square_parts(s);
    lemma_square_parts(t);
    lemma_flip_square(tr, tf);
    lemma_ray_flipped(occ_a, occ_b, r, f, 1, 0, tr, tf);
    lemma_ray_flipped(occ_a, occ_b, r, f, -1, 0, tr, tf);
    lemma_ray_flipped(occ_a, occ_b, r, f, 0, 1, tr, tf);
    lemma_ray_flipped(occ_a, occ_b, r, f, 0, -1, tr, tf);
    lemma_ray_flipped(occ_a, occ_b, r, f, 1, 1, tr, tf);
    lemma_ray_flipped(occ_a, occ_b, r, f, 1, -1, tr, tf);
    lemma_ray_flipped(occ_a, occ_b, r, f, -1, 1, tr, tf);
    lemma_ray_flipped(occ_a, occ_b, r, f, -1, -1, tr, tf);
    assert(rook_reach(occ_b, flip_rank(s), flip_rank(t)) == rook_reach(occ_a, s, t));
    assert(bishop_reach(occ_b, flip_rank(s), flip_rank(t)) == bishop_reach(occ_a, s, t));
    assert(knight_reach(flip_rank(s), flip_rank(t)) == knight_reach(s, t));
    assert(king_reach(flip_rank(s), flip_rank(t)) == king_reach(s, t));
}

/// The squares one rank away and one file aside from a square mirror those
/// on the other side of the mirrored square.
proof fn lemma_flip_diagonals(t: int)
    requires
        0 <= t < 64,
    ensures
        file_of(flip_rank(t)) == file_of(t),
        0 <= flip_rank(t) < 64,
        0 <= t - 9 ==> flip_rank(flip_rank(t) + 7) == t - 9 || file_of(t) == 0,
        0 <= t - 7 ==> flip_rank(flip_rank(t) + 9) == t - 7 || file_of(t) == 7,
        t + 7 < 64 ==> flip_rank(flip_rank(t) - 9) == t + 7 || file_of(t) == 0,
        t + 9 < 64 ==> flip_rank(flip_rank(t) - 7) == t + 9 || file_of(t) == 7,
{
}

/// The pawns of one side attack the mirror of what the pawns of the other
/// side attack on the mirrored board.
pub proof fn lemma_pawn_attacked_flipped(pawns_a: u64, pawns_b: u64, c: Colour, t: int)
    requires
        flipped_bb(pawns_a, pawns_b),
        0 <= t < 64,
    ensures
        pawn_attacked(pawns_b, c.spec_flip(), flip_rank(t)) == pawn_attacked(pawns_a, c, t),
{
    reveal(flipped_bb);
    let u = flip_rank(t);
    lemma_flip_diagonals(t);
    lemma_square_parts(t);
    match c {
        Colour::White => {
            // On the mirrored board the black pawns stand at u + 7 and u + 9.
            if file_of(t) > 0 {
                if 0 <= t - 9 {
                    assert(0 <= u + 7 < 64);
                    assert(is_set(pawns_b, u + 7) == is_set(pawns_a, flip_rank(u + 7)));
                } else {
                    assert(u + 7 >= 64);
                }
            }
            if file_of(t) < 7 {
                if 0 <= t - 7 {
                    assert(0 <= u + 9 < 64);
                    assert(is_set(pawns_b, u + 9) == is_set(pawns_a, flip_rank(u + 9)));
                } else {
                    assert(u + 9 >= 64);
                }
            }
        },
        Colour::Black => {
            if file_of(t) > 0 {
                if t + 7 < 64 {
                    assert(0 <= u - 9 < 64);
                    assert(is_set(pawns_b, u - 9) == is_set(pawns_a, flip_rank(u - 9)));
                } else {
                    assert(u - 9 < 0);
                }
            }
            if file_of(t) < 7 {
                if t + 9 < 64 {
                    assert(0 <= u - 7 < 64);
                    assert(is_set(pawns_b, u - 7) == is_set(pawns_a, flip_rank(u - 7)));
                } else {
                    assert(u - 7 < 0);
                }
            }
        },
    }
}

/// A king attacks the mirror of what it attacks from the mirrored square.
pub proof fn lemma_king_reach_flipped(k: int, t: int)
    requires
        0 <= k < 64,
        0 <= t < 64,
    ensures
        king_reach(flip_rank(k), flip_rank(t)) == king_reach(k, t),
{
    lemma_square_parts(k);
    lemma_square_parts(t);
}

/// The area of danger of a king is the mirror of that of the other side's
/// king on the mirrored square.
pub proof fn lemma_king_area_flipped(white: bool, king_sq: int, t: int)
    requires
        0 <= king_sq < 64,
        0 <= t < 64,
    ensures
        in_king_area(!white, flip_rank(king_sq), flip_rank(t)) == in_king_area(white, king_sq, t),
{
    let u = flip_rank(t);
    let k = flip_rank(king_sq);
    lemma_square_parts(t);
    lemma_square_parts(king_sq);
    lemma_king_reach_flipped(king_sq, t);
    if white {
        if t - 8 >= 0 {
            lemma_square_parts(t - 8);
            assert(flip_rank(t - 8) == u + 8);
            lemma_king_reach_flipped(king_sq, t - 8);
        } else {
            assert(u + 8 >= 64);
        }
    } else {
        if t + 8 < 64 {
            lemma_square_parts(t + 8);
            assert(flip_rank(t + 8) == u - 8);
            lemma_king_reach_flipped(king_sq, t + 8);
        } else {
            assert(u - 8 < 0);
        }
    }
}

/// Whether `b` is `a` with the board turned over and the colours exchanged:
/// the pieces stand mirrored, and the same side is to move with the same
/// constants of the evaluation.
pub open spec fn is_mirror(a: &Board, b: &Board) -> bool {
    &&& b.piece_array@ == mirrored(a.piece_array@)
    &&& b.eval_params == a.eval_params
    &&& b.side == a.side
}

/// The number of squares on which a piece stands, counted over the squares.
proof fn lemma_count_by_squares(a: &Board, p: Piece)
    requires
        a.wf(),
    ensures
        a.count(p) == count_squares(|s: int| a.piece_on(s) == p, 64),
{
    let here = |s: int| a.piece_on(s) == p;
    assert forall|s: int| 0 <= s < 64 implies is_set(a.bb_of(p), s) == #[trigger] here(s) by {}
    lemma_count_below_is_count_squares(a.bb_of(p), here, 64);
}

/// The pieces of a mirrored position.
pub proof fn lemma_mirror_pieces(a: &Board, b: &Board)
    requires
        is_mirror(a, b),
    ensures
        forall|s: int|
            0 <= s < 64 ==> #[trigger] b.piece_on(s) == swap_colour(a.piece_on(flip_rank(s))),
{
}

/// The piece on a square of a position, by the mirrored position.
pub proof fn lemma_mirror_piece_back(a: &Board, b: &Board, s: int)
    requires
        is_mirror(a, b),
        0 <= s < 64,
    ensures
        a.piece_on(s) == swap_colour(b.piece_on(flip_rank(s))),
        0 <= flip_rank(s) < 64,
{
    lemma_square_parts(s);
    assert(b.piece_on(flip_rank(s)) == swap_colour(a.piece_on(flip_rank(flip_rank(s)))));
}

/// The bitboards of a mirrored position.
pub proof fn lemma_mirror_bitboards(a: &Board, b: &Board)
    requires
        a.wf(),
        b.wf(),
        is_mirror(a, b),
    ensures
        flipped_bb(a.occupied, b.occupied),
        forall|p: Piece| flipped_bb(a.bb_of(swap_colour(p)), #[trigger] b.bb_of(p)),
{
    reveal(flipped_bb);
    lemma_mirror_pieces(a, b);
    assert forall|s: int| 0 <= s < 64 implies #[trigger] is_set(b.occupied, s) == is_set(
        a.occupied,
        flip_rank(s),
    ) by {
        lemma_square_parts(s);
        assert(b.piece_on(s) == swap_colour(a.piece_on(flip_rank(s))));
    }
    assert forall|p: Piece| flipped_bb(a.bb_of(swap_colour(p)), #[trigger] b.bb_of(p)) by {
        assert forall|s: int| 0 <= s < 64 implies #[trigger] is_set(b.bb_of(p), s) == is_set(
            a.bb_of(swap_colour(p)),
            flip_rank(s),
        ) by {
            lemma_square_parts(s);
            assert(b.piece_on(s) == swap_colour(a.piece_on(flip_rank(s))));
        }
    }
}

/// The squares of the kings of a mirrored position.
pub proof fn lemma_mirror_kings(a: &Board, b: &Board)
    requires
        a.wf(),
        b.wf(),
        is_mirror(a, b),
    ensures
        b.king_sq[0] == flip_rank(a.king_sq[1] as int),
        b.king_sq[1] == flip_rank(a.king_sq[0] as int),
{
    let wk = a.king_sq[0] as int;
    let bk = a.king_sq[1] as int;
    lemma_square_parts(wk);
    lemma_square_parts(bk);
    assert(b.piece_array@[flip_rank(bk)] == swap_colour(a.piece_array@[flip_rank(flip_rank(bk))]));
    assert(b.piece_array@[flip_rank(wk)] == swap_colour(a.piece_array@[flip_rank(flip_rank(wk))]));
    assert(b.piece_array@[flip_rank(bk)] == Piece::WK);
    assert(b.piece_array@[flip_rank(wk)] == Piece::BK);
}

/// The numbers of the pieces of a mirrored position.
pub proof fn lemma_mirror_counts(a: &Board, b: &Board)
    requires
        a.wf(),
        b.wf(),
        is_mirror(a, b),
    ensures
        forall|p: Piece| #[trigger] b.count(p) == a.count(swap_colour(p)),
{
    lemma_mirror_pieces(a, b);
    assert forall|p: Piece| #[trigger] b.count(p) == a.count(swap_colour(p)) by {
        lemma_count_by_squares(a, swap_colour(p));
        lemma_count_by_squares(b, p);
        let f = |s: int| a.piece_on(s) == swap_colour(p);
        let g = |s: int| b.piece_on(s) == p;
        assert forall|s: int| 0 <= s < 64 implies #[trigger] g(s) == f(flip_rank(s)) by {
            assert(b.piece_on(s) == swap_colour(a.piece_on(flip_rank(s))));
        }
        lemma_count_flipped(f, g);
    }
}

/// The material and the piece-square total of a mirrored position.
pub proof fn lemma_mirror_totals(a: &Board, b: &Board)
    requires
        a.wf(),
        b.wf(),
        is_mirror(a, b),
    ensures
        b.material[0]@ == a.material[1]@,
        b.material[1]@ == a.material[0]@,
        b.pst_vals@ == pair_neg(a.pst_vals@),
{
    lemma_mirror_material(a, b, Colour::White);
    lemma_mirror_material(a, b, Colour::Black);
    let f = |s: int| pst_spec(a.piece_array@[s], s);
    let g = |s: int| pst_spec(b.piece_array@[s], s);
    assert forall|s: int| 0 <= s < 64 implies #[trigger] g(s) == pair_neg(f(flip_rank(s))) by {
        lemma_pst_mirrored(a.piece_array@[flip_rank(s)], s);
        assert(b.piece_array@[s] == swap_colour(a.piece_array@[flip_rank(s)]));
    }
    lemma_sum_pairs_mirrored(f, g);
}

/// What a piece adds to the piece-square total is the negation of what the
/// piece of the other side adds on the mirrored square.
proof fn lemma_pst_mirrored(p: Piece, s: int)
    requires
        0 <= s < 64,
    ensures
        pst_spec(swap_colour(p), s) == pair_neg(pst_spec(p, flip_rank(s))),
{
    lemma_square_parts(s);
}

/// The material of a side in a mirrored position is that of the other side
/// in the position itself.
proof fn lemma_mirror_material(a: &Board, b: &Board, c: Colour)
    requires
        a.wf(),
        b.wf(),
        is_mirror(a, b),
    ensures
        material_sum(b.piece_array@, b.eval_params, c) == material_sum(
            a.piece_array@,
            a.eval_params,
            c.spec_flip(),
        ),
{
    let f = |s: int| material_of(a.eval_params, c.spec_flip(), a.piece_array@[s]);
    let g = |s: int| material_of(b.eval_params, c, b.piece_array@[s]);
    assert forall|s: int| 0 <= s < 64 implies #[trigger] g(s) == f(flip_rank(s)) by {
        lemma_square_parts(s);
        assert(b.piece_array@[s] == swap_colour(a.piece_array@[flip_rank(s)]));
    }
    lemma_sum_pairs_flipped(f, g);
}

/// A pawn is isolated in a mirrored position just when the pawn of the other
/// side on the mirrored square is isolated in the position itself; and so for
/// a passed pawn.
proof fn lemma_mirror_pawn(a: &Board, b: &Board, c: Colour, s: int)
    requires
        is_mirror(a, b),
        0 <= s < 64,
    ensures
        b.isolated(c, s) == a.isolated(c.spec_flip(), flip_rank(s)),
        b.passed(c, s) == a.passed(c.spec_flip(), flip_rank(s)),
        Board::advance(c, s) == Board::advance(c.spec_flip(), flip_rank(s)),
        (b.piece_on(s) == Piece::spec_new(c, PieceType::Pawn)) == (a.piece_on(flip_rank(s))
            == Piece::spec_new(c.spec_flip(), PieceType::Pawn)),
{
    let u = flip_rank(s);
    let own = Piece::spec_new(c, PieceType::Pawn);
    let other = Piece::spec_new(c.spec_flip(), PieceType::Pawn);
    lemma_square_parts(s);
    lemma_mirror_pieces(a, b);
    assert(b.piece_on(s) == swap_colour(a.piece_on(u)));
    if a.isolated(c.spec_flip(), u) {
        assert forall|t: int| 0 <= t < 64 && on_adjacent_file(s, t) implies #[trigger] b.piece_on(t)
            != own by {
            lemma_square_parts(t);
            assert(a.piece_on(flip_rank(t)) != other);
        }
    }
    if b.isolated(c, s) {
        assert forall|t: int| 0 <= t < 64 && on_adjacent_file(u, t) implies #[trigger] a.piece_on(t)
            != other by {
            lemma_mirror_piece_back(a, b, t);
            lemma_square_parts(t);
            assert(b.piece_on(flip_rank(t)) != own);
        }
    }
    if a.passed(c.spec_flip(), u) {
        assert forall|t: int| 0 <= t < 64 && in_front_span(c, s, t) implies #[trigger] b.piece_on(t)
            != other by {
            lemma_square_parts(t);
            assert(a.piece_on(flip_rank(t)) != own);
        }
    }
    if b.passed(c, s) {
        assert forall|t: int|
            0 <= t < 64 && in_front_span(c.spec_flip(), u, t) implies #[trigger] a.piece_on(t)
            != own by {
            lemma_mirror_piece_back(a, b, t);
            lemma_square_parts(t);
            assert(b.piece_on(flip_rank(t)) != other);
        }
    }
}

/// The pawns of a side are worth in a mirrored position what the pawns of the
/// other side are worth in the position itself.
pub proof fn lemma_mirror_pawn_structure(a: &Board, b: &Board, c: Colour)
    requires
        a.wf(),
        b.wf(),
        is_mirror(a, b),
    ensures
        b.pawn_structure(c) == a.pawn_structure(c.spec_flip()),
{
    let f = |s: int| a.pawn_score(c.spec_flip(), s);
    let g = |s: int| b.pawn_score(c, s);
    assert forall|s: int| 0 <= s < 64 implies #[trigger] g(s) == f(flip_rank(s)) by {
        lemma_mirror_pawn(a, b, c, s);
    }
    lemma_sum_pairs_flipped(f, g);
    let df = |k: int| a.doubled_score(c.spec_flip(), k);
    let dg = |k: int| b.doubled_score(c, k);
    lemma_mirror_pieces(a, b);
    assert forall|k: int| 0 <= k < 8 implies #[trigger] df(k) == dg(k) by {
        let p = |t: int|
            a.piece_on(t) == Piece::spec_new(c.spec_flip(), PieceType::Pawn) && file_of(t) == k;
        let q = |t: int| b.piece_on(t) == Piece::spec_new(c, PieceType::Pawn) && file_of(t) == k;
        assert forall|t: int| 0 <= t < 64 implies #[trigger] q(t) == p(flip_rank(t)) by {
            lemma_square_parts(t);
            assert(b.piece_on(t) == swap_colour(a.piece_on(flip_rank(t))));
        }
        lemma_count_flipped(p, q);
    }
    lemma_sum_pairs_eq(df, dg, 8);
}

/// A file is open in a mirrored position just when it is open in the position
/// itself, and free of the pawns of a side just when it is free there of
/// those of the other side.
proof fn lemma_mirror_file(a: &Board, b: &Board, c: Colour, f: int)
    requires
        is_mirror(a, b),
    ensures
        b.file_open(f) == a.file_open(f),
        b.file_free_of(c, f) == a.file_free_of(c.spec_flip(), f),
{
    let own = Piece::spec_new(c, PieceType::Pawn);
    let other = Piece::spec_new(c.spec_flip(), PieceType::Pawn);
    lemma_mirror_pieces(a, b);
    if a.file_open(f) {
        assert forall|t: int| 0 <= t < 64 && file_of(t) == f implies #[trigger] b.piece_on(t)
            != Piece::WP && b.piece_on(t) != Piece::BP by {
            lemma_square_parts(t);
            assert(a.piece_on(flip_rank(t)) != Piece::WP);
        }
    }
    if b.file_open(f) {
        assert forall|t: int| 0 <= t < 64 && file_of(t) == f implies #[trigger] a.piece_on(t)
            != Piece::WP && a.piece_on(t) != Piece::BP by {
            lemma_mirror_piece_back(a, b, t);
            lemma_square_parts(t);
            assert(b.piece_on(flip_rank(t)) != Piece::WP);
        }
    }
    if a.file_free_of(c.spec_flip(), f) {
        assert forall|t: int| 0 <= t < 64 && file_of(t) == f implies #[trigger] b.piece_on(t)
            != own by {
            lemma_square_parts(t);
            assert(a.piece_on(flip_rank(t)) != other);
        }
    }
    if b.file_free_of(c, f) {
        assert forall|t: int| 0 <= t < 64 && file_of(t) == f implies #[trigger] a.piece_on(t)
            != other by {
            lemma_mirror_piece_back(a, b, t);
            lemma_square_parts(t);
            assert(b.piece_on(flip_rank(t)) != own);
        }
    }
}

/// The pieces of a kind are worth by their files in a mirrored position the
/// negation of what they are worth in the position itself.
pub proof fn lemma_mirror_file_term(
    a: &Board,
    b: &Board,
    kind: PieceType,
    open: (int, int),
    half: (int, int),
)
    requires
        is_mirror(a, b),
    ensures
        sum_pairs(|s: int| b.file_score(kind, open, half, s), 64) == pair_neg(
            sum_pairs(|s: int| a.file_score(kind, open, half, s), 64),
        ),
{
    let f = |s: int| a.file_score(kind, open, half, s);
    let g = |s: int| b.file_score(kind, open, half, s);
    lemma_mirror_pieces(a, b);
    assert forall|s: int| 0 <= s < 64 implies #[trigger] g(s) == pair_neg(f(flip_rank(s))) by {
        lemma_square_parts(s);
        lemma_mirror_file(a, b, Colour::White, file_of(s));
        lemma_mirror_file(a, b, Colour::Black, file_of(s));
        assert(b.piece_on(s) == swap_colour(a.piece_on(flip_rank(s))));
    }
    lemma_sum_pairs_mirrored(f, g);
}

/// A piece attacks as many safe squares, and as many squares of a king's
/// area of danger, in a mirrored position as the piece of the other side on
/// the mirrored square does in the position itself.
proof fn lemma_mirror_reach_counts(a: &Board, b: &Board, c: Colour, kind: PieceType, s: int)
    requires
        a.wf(),
        b.wf(),
        is_mirror(a, b),
        0 <= s < 64,
    ensures
        count_squares(b.safe_reach(c, kind, s), 64) == count_squares(
            a.safe_reach(c.spec_flip(), kind, flip_rank(s)),
            64,
        ),
        count_squares(b.area_reach(kind, s, Colour::White), 64) == count_squares(
            a.area_reach(kind, flip_rank(s), Colour::Black),
            64,
        ),
        count_squares(b.area_reach(kind, s, Colour::Black), 64) == count_squares(
            a.area_reach(kind, flip_rank(s), Colour::White),
            64,
        ),
{
    let u = flip_rank(s);
    lemma_square_parts(s);
    lemma_mirror_bitboards(a, b);
    lemma_mirror_kings(a, b);
    let pawns_a = a.bb_of(Piece::spec_new(c, PieceType::Pawn));
    let pawns_b = b.bb_of(Piece::spec_new(c.spec_flip(), PieceType::Pawn));
    assert(flipped_bb(pawns_a, pawns_b)) by {
        assert(swap_colour(Piece::spec_new(c.spec_flip(), PieceType::Pawn)) == Piece::spec_new(
            c,
            PieceType::Pawn,
        ));
    }
    let safe_a = a.safe_reach(c.spec_flip(), kind, u);
    let safe_b = b.safe_reach(c, kind, s);
    assert forall|t: int| 0 <= t < 64 implies #[trigger] safe_b(t) == safe_a(flip_rank(t)) by {
        let v = flip_rank(t);
        lemma_square_parts(t);
        lemma_reach_flipped(kind, a.occupied, b.occupied, u, v);
        lemma_pawn_attacked_flipped(pawns_a, pawns_b, c, v);
    }
    lemma_count_flipped(safe_a, safe_b);
    let white_a = a.area_reach(kind, u, Colour::White);
    let black_a = a.area_reach(kind, u, Colour::Black);
    let white_b = b.area_reach(kind, s, Colour::White);
    let black_b = b.area_reach(kind, s, Colour::Black);
    assert forall|t: int| 0 <= t < 64 implies #[trigger] white_b(t) == black_a(flip_rank(t)) by {
        let v = flip_rank(t);
        lemma_square_parts(t);
        lemma_reach_flipped(kind, a.occupied, b.occupied, u, v);
        lemma_king_area_flipped(false, a.king_sq[1] as int, v);
    }
    lemma_count_flipped(black_a, white_b);
    assert forall|t: int| 0 <= t < 64 implies #[trigger] black_b(t) == white_a(flip_rank(t)) by {
        let v = flip_rank(t);
        lemma_square_parts(t);
        lemma_reach_flipped(kind, a.occupied, b.occupied, u, v);
        lemma_king_area_flipped(true, a.king_sq[0] as int, v);
    }
    lemma_count_flipped(white_a, black_b);
}

/// The mobility in a mirrored position is the negation of that in the
/// position itself, and the attack on a king is that on the other king.
pub proof fn lemma_mirror_mobility(a: &Board, b: &Board)
    requires
        a.wf(),
        b.wf(),
        is_mirror(a, b),
    ensures
        b.mobility_spec() == pair_neg(a.mobility_spec()),
        b.attack_units_on(Colour::White) == a.attack_units_on(Colour::Black),
        b.attack_units_on(Colour::Black) == a.attack_units_on(Colour::White),
{
    lemma_mirror_pieces(a, b);
    let f = |s: int| a.mobility_at(s);
    let g = |s: int| b.mobility_at(s);
    assert forall|s: int| 0 <= s < 64 implies #[trigger] g(s) == pair_neg(f(flip_rank(s))) by {
        lemma_square_parts(s);
        assert(b.piece_on(s) == swap_colour(a.piece_on(flip_rank(s))));
        match (b.piece_on(s).spec_colour(), b.piece_on(s).spec_kind()) {
            (Some(c), Some(kind)) => {
                lemma_mirror_reach_counts(a, b, c, kind, s);
            },
            _ => {},
        }
    }
    lemma_sum_pairs_mirrored(f, g);
    let wa = |s: int| a.attack_units_at(Colour::White, s);
    let ba = |s: int| a.attack_units_at(Colour::Black, s);
    let wb = |s: int| b.attack_units_at(Colour::White, s);
    let bb = |s: int| b.attack_units_at(Colour::Black, s);
    assert forall|s: int| 0 <= s < 64 implies #[trigger] wb(s) == ba(flip_rank(s)) by {
        lemma_square_parts(s);
        assert(b.piece_on(s) == swap_colour(a.piece_on(flip_rank(s))));
        match (b.piece_on(s).spec_colour(), b.piece_on(s).spec_kind()) {
            (Some(c), Some(kind)) => {
                lemma_mirror_reach_counts(a, b, c, kind, s);
            },
            _ => {},
        }
    }
    lemma_sum_ints_flipped(ba, wb);
    assert forall|s: int| 0 <= s < 64 implies #[trigger] bb(s) == wa(flip_rank(s)) by {
        lemma_square_parts(s);
        assert(b.piece_on(s) == swap_colour(a.piece_on(flip_rank(s))));
        match (b.piece_on(s).spec_colour(), b.piece_on(s).spec_kind()) {
            (Some(c), Some(kind)) => {
                lemma_mirror_reach_counts(a, b, c, kind, s);
            },
            _ => {},
        }
    }
    lemma_sum_ints_flipped(wa, bb);
}

/// The blend of two negated parts is the negated blend.
pub proof fn lemma_lerp_odd(mg: int, eg: int, t: int)
    ensures
        lerp_spec(-mg, -eg, t) == -lerp_spec(mg, eg, t),
{
    let tt = if t > 256 {
        256
    } else {
        t
    };
    assert((-mg) * (256 - tt) == -(mg * (256 - tt))) by (nonlinear_arith);
    assert((-eg) * tt == -(eg * tt)) by (nonlinear_arith);
}

/// Turn the board over and exchange the colours, and the position is worth to
/// the side to move the negation of what it was worth: every term of the
/// evaluation is negated, the phase stays, and what is a draw by material
/// stays one.
pub proof fn lemma_evaluate_antisymmetric(a: &Board, b: &Board)
    requires
        a.wf(),
        b.wf(),
        is_mirror(a, b),
    ensures
        b.total_score() == pair_neg(a.total_score()),
        b.phase_spec() == a.phase_spec(),
        b.material_draw() == a.material_draw(),
        b.white_score() == -a.white_score(),
        b.evaluate_spec() == -a.evaluate_spec(),
{
    lemma_mirror_counts(a, b);
    lemma_mirror_totals(a, b);
    lemma_mirror_pawn_structure(a, b, Colour::White);
    lemma_mirror_pawn_structure(a, b, Colour::Black);
    lemma_mirror_file_term(
        a,
        b,
        PieceType::Rook,
        a.eval_params.rook_open_file_bonus@,
        a.eval_params.rook_half_open_file_bonus@,
    );
    lemma_mirror_file_term(
        a,
        b,
        PieceType::Queen,
        a.eval_params.queen_open_file_bonus@,
        a.eval_params.queen_half_open_file_bonus@,
    );
    lemma_mirror_mobility(a, b);
    assert(b.count(Piece::WP) == a.count(Piece::BP));
    assert(b.count(Piece::WN) == a.count(Piece::BN));
    assert(b.count(Piece::WB) == a.count(Piece::BB));
    assert(b.count(Piece::WR) == a.count(Piece::BR));
    assert(b.count(Piece::WQ) == a.count(Piece::BQ));
    assert(b.count(Piece::BP) == a.count(Piece::WP));
    assert(b.count(Piece::BN) == a.count(Piece::WN));
    assert(b.count(Piece::BB) == a.count(Piece::WB));
    assert(b.count(Piece::BR) == a.count(Piece::WR));
    assert(b.count(Piece::BQ) == a.count(Piece::WQ));
    a.lemma_count_bounds(Piece::WN);
    a.lemma_count_bounds(Piece::WB);
    a.lemma_count_bounds(Piece::WR);
    a.lemma_count_bounds(Piece::WQ);
    a.lemma_count_bounds(Piece::BN);
    a.lemma_count_bounds(Piece::BB);
    a.lemma_count_bounds(Piece::BR);
    a.lemma_count_bounds(Piece::BQ);
    assert(b.bishop_pair_spec() == pair_neg(a.bishop_pair_spec()));
    assert(b.rook_open_file_spec() == pair_neg(a.rook_open_file_spec()));
    assert(b.queen_open_file_spec() == pair_neg(a.queen_open_file_spec()));
    assert(b.pawn_structure_spec() == pair_neg(a.pawn_structure_spec()));
    let coeffs = a.eval_params.king_danger_coeffs;
    let kd_a = kingdanger_spec(
        coeffs,
        a.attack_units_on(Colour::White),
        a.attack_units_on(Colour::Black),
    );
    let kd_b = kingdanger_spec(
        coeffs,
        b.attack_units_on(Colour::White),
        b.attack_units_on(Colour::Black),
    );
    assert(kd_b == pair_neg(kd_a));
    assert(b.total_score() == pair_neg(a.total_score()));
    assert(b.phase_spec() == a.phase_spec());
    lemma_lerp_odd(a.total_score().0, a.total_score().1, a.phase_spec());
    assert(b.unwinnable(Colour::White) == a.unwinnable(Colour::Black));
    assert(b.unwinnable(Colour::Black) == a.unwinnable(Colour::White));
    assert(b.material_draw() == a.material_draw());
}

} // verus!
