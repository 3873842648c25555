use crate::bits::{
    count_squares, is_set, lemma_count_squares_insert, lemma_has_empty, lemma_has_or,
    lemma_popcount_is_count, popcount, square_bb, squares_of, test_bit,
};
use crate::definitions::{file_of, on_board, rank_of, square_at};
use crate::piece::{Colour, PieceType};
use vstd::prelude::*;

verus! {

/// The bitboard that holds no square.
pub const BB_NONE: u64 = 0;

/// The bitboard of the a-file.
pub const BB_FILE_A: u64 = 0x0101_0101_0101_0101;

/// The bitboard of the h-file.
pub const BB_FILE_H: u64 = 0x8080_8080_8080_8080;

/// The bitboard of the squares of `bb`, each moved one rank up the board; what
/// leaves the board is dropped.
pub fn north_one(bb: u64) -> (r: u64)
    ensures
        forall|s: int| is_set(r, s) <==> s < 64 && is_set(bb, s - 8),
{
    let r = bb << 8;
    proof {
        assert forall|s: int| is_set(r, s) <==> s < 64 && is_set(bb, s - 8) by {
            if 0 <= s < 64 {
                let t = s as u64;
                if s >= 8 {
                    let u = (s - 8) as u64;
                    assert(8 <= t < 64 && u == t - 8 ==> ((((bb << 8) >> t) & 1 == 1) <==> ((bb >> u)
                        & 1 == 1))) by (bit_vector);
                } else {
                    assert(t < 8 ==> ((bb << 8) >> t) & 1 == 0) by (bit_vector);
                }
            }
        }
    }
    r
}

/// The bitboard of the squares of `bb`, each moved one rank down the board; what
/// leaves the board is dropped.
pub fn south_one(bb: u64) -> (r: u64)
    ensures
        forall|s: int| is_set(r, s) <==> 0 <= s && is_set(bb, s + 8),
{
    let r = bb >> 8;
    proof {
        assert forall|s: int| is_set(r, s) <==> 0 <= s && is_set(bb, s + 8) by {
            if 0 <= s < 64 {
                let t = s as u64;
                if s < 56 {
                    let u = (s + 8) as u64;
                    assert(t < 56 && u == t + 8 ==> ((((bb >> 8) >> t) & 1 == 1) <==> ((bb >> u) & 1
                        == 1))) by (bit_vector);
                } else {
                    assert(56 <= t < 64 ==> ((bb >> 8) >> t) & 1 == 0) by (bit_vector);
                }
            }
        }
    }
    r
}

/// The bitboard of a file.
pub fn file_bb(file: u8) -> (r: u64)
    requires
        file < 8,
    ensures
        forall|s: int| is_set(r, s) <==> 0 <= s < 64 && file_of(s) == file,
{
    let r = BB_FILE_A << file;
    proof {
        assert forall|s: int| is_set(r, s) <==> 0 <= s < 64 && file_of(s) == file by {
            if 0 <= s < 64 {
                let t = s as u64;
                assert(file < 8 && t < 64 ==> ((((0x0101_0101_0101_0101u64 << file) >> t) & 1 == 1)
                    <==> t % 8 == file as u64)) by (bit_vector);
            }
        }
    }
    r
}

/// The bitboard of the ranks above rank `rank`.
pub fn ranks_above(rank: u8) -> (r: u64)
    requires
        rank < 8,
    ensures
        forall|s: int| is_set(r, s) <==> 0 <= s < 64 && rank_of(s) > rank,
{
    if rank == 7 {
        proof {
            lemma_has_empty();
        }
        0
    } else {
        let k: u8 = 8 * (rank + 1);
        let r = 0xffff_ffff_ffff_ffffu64 << k;
        proof {
            assert forall|s: int| is_set(r, s) <==> 0 <= s < 64 && rank_of(s) > rank by {
                if 0 <= s < 64 {
                    let t = s as u64;
                    assert(k < 64 && t < 64 ==> ((((0xffff_ffff_ffff_ffffu64 << k) >> t) & 1 == 1)
                        <==> t >= k as u64)) by (bit_vector);
                }
            }
        }
        r
    }
}

/// The bitboard of the ranks below rank `rank`.
pub fn ranks_below(rank: u8) -> (r: u64)
    requires
        rank < 8,
    ensures
        forall|s: int| is_set(r, s) <==> 0 <= s < 64 && rank_of(s) < rank,
{
    let k: u8 = 8 * rank;
    let r = !(0xffff_ffff_ffff_ffffu64 << k);
    proof {
        assert forall|s: int| is_set(r, s) <==> 0 <= s < 64 && rank_of(s) < rank by {
            if 0 <= s < 64 {
                let t = s as u64;
                assert(k < 64 && t < 64 ==> ((((!(0xffff_ffff_ffff_ffffu64 << k)) >> t) & 1 == 1)
                    <==> t < k as u64)) by (bit_vector);
            }
        }
    }
    r
}

/// Whether a pawn of `colour` among `pawns` attacks the square `sq`: whether one
/// stands on a neighbouring file, one rank nearer to its own side.
pub open spec fn pawn_attacked(pawns: u64, colour: Colour, sq: int) -> bool {
    match colour {
        Colour::White => 0 <= sq < 64 && ((file_of(sq) > 0 && is_set(pawns, sq - 9)) || (file_of(sq)
            < 7 && is_set(pawns, sq - 7))),
        Colour::Black => 0 <= sq < 64 && ((file_of(sq) > 0 && is_set(pawns, sq + 7)) || (file_of(sq)
            < 7 && is_set(pawns, sq + 9))),
    }
}

/// The bitboard of the squares that the pawns of `colour` among `pawns` attack.
pub fn pawn_attacks(pawns: u64, colour: Colour) -> (r: u64)
    ensures
        forall|s: int| is_set(r, s) <==> pawn_attacked(pawns, colour, s),
{
    match colour {
        Colour::White => {
            let r = ((pawns << 9) & !BB_FILE_A) | ((pawns << 7) & !BB_FILE_H);
            proof {
                assert forall|s: int| is_set(r, s) <==> pawn_attacked(pawns, colour, s) by {
                    if 0 <= s < 64 {
                        let t = s as u64;
                        let a = if s >= 9 { (s - 9) as u64 } else { 0 };
                        let b = if s >= 7 { (s - 7) as u64 } else { 0 };
                        assert(t < 64 && (t >= 9 ==> a == t - 9) && (t >= 7 ==> b == t - 7) ==> ((((((
                        pawns << 9) & !0x0101_0101_0101_0101u64) | ((pawns << 7)
                            & !0x8080_8080_8080_8080u64)) >> t) & 1 == 1) <==> ((t % 8 > 0 && t >= 9 && (
                        pawns >> a) & 1 == 1) || (t % 8 < 7 && t >= 7 && (pawns >> b) & 1 == 1))))
                            by (bit_vector);
                    }
                }
            }
            r
        },
        Colour::Black => {
            let r = ((pawns >> 7) & !BB_FILE_A) | ((pawns >> 9) & !BB_FILE_H);
            proof {
                assert forall|s: int| is_set(r, s) <==> pawn_attacked(pawns, colour, s) by {
                    if 0 <= s < 64 {
                        let t = s as u64;
                        let a = if s + 7 < 64 { (s + 7) as u64 } else { 0 };
                        let b = if s + 9 < 64 { (s + 9) as u64 } else { 0 };
                        assert(t < 64 && (t + 7 < 64 ==> a == t + 7) && (t + 9 < 64 ==> b == t + 9)
                            ==> ((((((pawns >> 7) & !0x0101_0101_0101_0101u64) | ((pawns >> 9)
                            & !0x8080_8080_8080_8080u64)) >> t) & 1 == 1) <==> ((t % 8 > 0 && t + 7
                            < 64 && (pawns >> a) & 1 == 1) || (t % 8 < 7 && t + 9 < 64 && (pawns >> b)
                            & 1 == 1)))) by (bit_vector);
                    }
                }
            }
            r
        },
    }
}

/// Whether a knight on `a` attacks `b`.
pub open spec fn knight_reach(a: int, b: int) -> bool {
    let dr = rank_of(b) - rank_of(a);
    let df = file_of(b) - file_of(a);
    0 <= a < 64 && 0 <= b < 64 && ((dr == 2 || dr == -2) && (df == 1 || df == -1) || (dr == 1 || dr
        == -1) && (df == 2 || df == -2))
}

/// Whether a king on `a` attacks `b`.
pub open spec fn king_reach(a: int, b: int) -> bool {
    let dr = rank_of(b) - rank_of(a);
    let df = file_of(b) - file_of(a);
    0 <= a < 64 && 0 <= b < 64 && a != b && -1 <= dr <= 1 && -1 <= df <= 1
}

/// Whether `(dr, df)` is one of the eight directions in which a piece slides.
pub open spec fn is_direction(dr: int, df: int) -> bool {
    -1 <= dr <= 1 && -1 <= df <= 1 && !(dr == 0 && df == 0)
}

/// The number of steps from `(r, f)` in the direction `(dr, df)` that stay on
/// the board.
pub open spec fn ray_room(r: int, f: int, dr: int, df: int) -> int {
    let by_rank = if dr > 0 {
        7 - r
    } else if dr < 0 {
        r
    } else {
        7
    };
    let by_file = if df > 0 {
        7 - f
    } else if df < 0 {
        f
    } else {
        7
    };
    if by_rank < by_file {
        by_rank
    } else {
        by_file
    }
}

/// Whether a piece that slides from `(r, f)` in the direction `(dr, df)` over a
/// board on which the squares of `occ` are taken reaches the square `b`: it
/// reaches each square up to the first taken one, that one included.
pub open spec fn ray_reach(occ: u64, r: int, f: int, dr: int, df: int, b: int) -> bool
    decreases ray_room(r, f, dr, df),
{
    if !is_direction(dr, df) || !on_board(r, f) || !on_board(r + dr, f + df) {
        false
    } else {
        let next = square_at(r + dr, f + df);
        b == next || (!is_set(occ, next) && ray_reach(occ, r + dr, f + df, dr, df, b))
    }
}

/// Whether a rook on `a` attacks `b` where the squares of `occ` are taken.
pub open spec fn rook_reach(occ: u64, a: int, b: int) -> bool {
    let r = rank_of(a);
    let f = file_of(a);
    0 <= a < 64 && (ray_reach(occ, r, f, 1, 0, b) || ray_reach(occ, r, f, -1, 0, b) || ray_reach(
        occ,
        r,
        f,
        0,
        1,
        b,
    ) || ray_reach(occ, r, f, 0, -1, b))
}

/// Whether a bishop on `a` attacks `b` where the squares of `occ` are taken.
pub open spec fn bishop_reach(occ: u64, a: int, b: int) -> bool {
    let r = rank_of(a);
    let f = file_of(a);
    0 <= a < 64 && (ray_reach(occ, r, f, 1, 1, b) || ray_reach(occ, r, f, 1, -1, b) || ray_reach(
        occ,
        r,
        f,
        -1,
        1,
        b,
    ) || ray_reach(occ, r, f, -1, -1, b))
}

/// Whether a piece of kind `kind` on `a`, other than a pawn, attacks `b` where
/// the squares of `occ` are taken. A pawn's attacks depend on its side: see
/// `pawn_attacked`.
pub open spec fn piece_reach(kind: PieceType, occ: u64, a: int, b: int) -> bool {
    match kind {
        PieceType::Pawn => false,
        PieceType::Knight => knight_reach(a, b),
        PieceType::Bishop => bishop_reach(occ, a, b),
        PieceType::Rook => rook_reach(occ, a, b),
        PieceType::Queen => rook_reach(occ, a, b) || bishop_reach(occ, a, b),
        PieceType::King => king_reach(a, b),
    }
}

/// The predicate "a piece of kind `kind` on `a` attacks the square".
pub open spec fn reach_of(kind: PieceType, occ: u64, a: int) -> spec_fn(int) -> bool {
    |b: int| piece_reach(kind, occ, a, b)
}

/// `bb` with the square on rank `r` and file `f` added, where that is a square
/// of the board.
fn with_square(bb: u64, r: i8, f: i8) -> (res: u64)
    requires
        -2 <= r <= 9,
        -2 <= f <= 9,
    ensures
        forall|s: int|
            is_set(res, s) <==> is_set(bb, s) || (on_board(r as int, f as int) && s == square_at(
                r as int,
                f as int,
            )),
        popcount(res) <= popcount(bb) + 1,
{
    if 0 <= r && r < 8 && 0 <= f && f < 8 {
        let sq = (8 * r + f) as u8;
        let one = square_bb(sq);
        let res = bb | one;
        proof {
            lemma_has_or(bb, one);
            lemma_popcount_is_count(bb);
            lemma_popcount_is_count(res);
            lemma_count_squares_insert(squares_of(bb), squares_of(res), sq as int, 64);
        }
        res
    } else {
        bb
    }
}

/// The bitboard of the squares that a knight on `sq` attacks.
pub fn knight_attacks(sq: u8) -> (res: u64)
    requires
        sq < 64,
    ensures
        forall|b: int| is_set(res, b) <==> knight_reach(sq as int, b),
        popcount(res) <= 8,
{
    let r = (sq / 8) as i8;
    let f = (sq % 8) as i8;
    proof {
        lemma_has_empty();
        lemma_popcount_is_count(0);
        assert(popcount(0) == 0) by {
            crate::bits::lemma_count_squares_zero(squares_of(0), 64);
        }
    }
    let bb = with_square(0, r + 2, f + 1);
    let bb = with_square(bb, r + 2, f - 1);
    let bb = with_square(bb, r - 2, f + 1);
    let bb = with_square(bb, r - 2, f - 1);
    let bb = with_square(bb, r + 1, f + 2);
    let bb = with_square(bb, r + 1, f - 2);
    let bb = with_square(bb, r - 1, f + 2);
    let bb = with_square(bb, r - 1, f - 2);
    proof {
        assert forall|b: int| is_set(bb, b) <==> knight_reach(sq as int, b) by {
            if 0 <= b < 64 {
                let br = rank_of(b);
                let bf = file_of(b);
                assert(b == 8 * br + bf && 0 <= bf < 8 && 0 <= br < 8);
                assert(sq == 8 * r + f && 0 <= f < 8 && 0 <= r < 8);
            }
        }
    }
    bb
}

/// The bitboard of the squares that a king on `sq` attacks.
pub fn king_attacks(sq: u8) -> (res: u64)
    requires
        sq < 64,
    ensures
        forall|b: int| is_set(res, b) <==> king_reach(sq as int, b),
        popcount(res) <= 8,
{
    let r = (sq / 8) as i8;
    let f = (sq % 8) as i8;
    proof {
        lemma_has_empty();
        lemma_popcount_is_count(0);
        assert(popcount(0) == 0) by {
            crate::bits::lemma_count_squares_zero(squares_of(0), 64);
        }
    }
    let bb = with_square(0, r + 1, f + 1);
    let bb = with_square(bb, r + 1, f);
    let bb = with_square(bb, r + 1, f - 1);
    let bb = with_square(bb, r, f + 1);
    let bb = with_square(bb, r, f - 1);
    let bb = with_square(bb, r - 1, f + 1);
    let bb = with_square(bb, r - 1, f);
    let bb = with_square(bb, r - 1, f - 1);
    proof {
        assert forall|b: int| is_set(bb, b) <==> king_reach(sq as int, b) by {
            if 0 <= b < 64 {
                let br = rank_of(b);
                let bf = file_of(b);
                assert(b == 8 * br + bf && 0 <= bf < 8 && 0 <= br < 8);
                assert(sq == 8 * r + f && 0 <= f < 8 && 0 <= r < 8);
            }
        }
    }
    bb
}

/// `acc` with the squares added that a piece reaches when it slides from `sq`
/// in the direction `(dr, df)` over a board on which the squares of `blockers`
/// are taken.
fn with_ray(acc: u64, sq: u8, blockers: u64, dr: i8, df: i8) -> (res: u64)
    requires
        sq < 64,
        is_direction(dr as int, df as int),
    ensures
        forall|b: int|
            is_set(res, b) <==> is_set(acc, b) || ray_reach(
                blockers,
                rank_of(sq as int),
                file_of(sq as int),
                dr as int,
                df as int,
                b,
            ),
        popcount(res) <= popcount(acc) + ray_room(
            rank_of(sq as int),
            file_of(sq as int),
            dr as int,
            df as int,
        ),
{
    let ghost r0 = rank_of(sq as int);
    let ghost f0 = file_of(sq as int);
    let mut r: i8 = (sq / 8) as i8;
    let mut f: i8 = (sq % 8) as i8;
    let mut bb = acc;
    let mut done = false;
    while !done
        invariant
            is_direction(dr as int, df as int),
            on_board(r as int, f as int),
            on_board(r0, f0),
            forall|b: int|
                is_set(acc, b) || ray_reach(blockers, r0, f0, dr as int, df as int, b) <==> is_set(
                    bb,
                    b,
                ) || (!done && ray_reach(blockers, r as int, f as int, dr as int, df as int, b)),
            popcount(bb) + (if done {
                0
            } else {
                ray_room(r as int, f as int, dr as int, df as int)
            }) <= popcount(acc) + ray_room(r0, f0, dr as int, df as int),
            0 <= ray_room(r as int, f as int, dr as int, df as int),
        decreases
                if done {
                    0
                } else {
                    1 + ray_room(r as int, f as int, dr as int, df as int)
                },
    {
        let nr = r + dr;
        let nf = f + df;
        if nr < 0 || nr > 7 || nf < 0 || nf > 7 {
            done = true;
        } else {
            let next = (8 * nr + nf) as u8;
            let ghost before = bb;
            bb = with_square(bb, nr, nf);
            if test_bit(blockers, next) {
                done = true;
            } else {
                r = nr;
                f = nf;
            }
        }
    }
    bb
}

/// The bitboard of the squares that a rook on `sq` attacks.
pub fn rook_attacks(sq: u8, blockers: u64) -> (res: u64)
    requires
        sq < 64,
    ensures
        forall|b: int| is_set(res, b) <==> rook_reach(blockers, sq as int, b),
        popcount(res) <= 14,
{
    proof {
        lemma_has_empty();
        lemma_popcount_is_count(0);
        assert(popcount(0) == 0) by {
            crate::bits::lemma_count_squares_zero(squares_of(0), 64);
        }
    }
    let bb = with_ray(0, sq, blockers, 1, 0);
    let bb = with_ray(bb, sq, blockers, -1, 0);
    let bb = with_ray(bb, sq, blockers, 0, 1);
    let bb = with_ray(bb, sq, blockers, 0, -1);
    bb
}

/// The bitboard of the squares that a bishop on `sq` attacks.
pub fn bishop_attacks(sq: u8, blockers: u64) -> (res: u64)
    requires
        sq < 64,
    ensures
        forall|b: int| is_set(res, b) <==> bishop_reach(blockers, sq as int, b),
        popcount(res) <= 13,
{
    proof {
        lemma_has_empty();
        lemma_popcount_is_count(0);
        assert(popcount(0) == 0) by {
            crate::bits::lemma_count_squares_zero(squares_of(0), 64);
        }
    }
    let bb = with_ray(0, sq, blockers, 1, 1);
    let bb = with_ray(bb, sq, blockers, 1, -1);
    let bb = with_ray(bb, sq, blockers, -1, 1);
    let bb = with_ray(bb, sq, blockers, -1, -1);
    bb
}

/// The bitboard of the squares that a queen on `sq` attacks.
pub fn queen_attacks(sq: u8, blockers: u64) -> (res: u64)
    requires
        sq < 64,
    ensures
        forall|b: int|
            is_set(res, b) <==> rook_reach(blockers, sq as int, b) || bishop_reach(
                blockers,
                sq as int,
                b,
            ),
        popcount(res) <= 27,
{
    let a = rook_attacks(sq, blockers);
    let b = bishop_attacks(sq, blockers);
    proof {
        lemma_has_or(a, b);
        lemma_popcount_is_count(a);
        lemma_popcount_is_count(b);
        lemma_popcount_is_count(a | b);
        crate::bits::lemma_count_squares_union(squares_of(a), squares_of(b), squares_of(a | b), 64);
    }
    a | b
}

/// The bitboard of the squares that a piece of kind `kind` on `sq`, other than
/// a pawn, attacks where the squares of `blockers` are taken; for a pawn, the
/// empty bitboard.
pub fn attacks(kind: PieceType, sq: u8, blockers: u64) -> (res: u64)
    requires
        sq < 64,
    ensures
        forall|b: int| is_set(res, b) <==> piece_reach(kind, blockers, sq as int, b),
        popcount(res) == count_squares(reach_of(kind, blockers, sq as int), 64),
        popcount(res) <= max_attacks(kind),
{
    let res = match kind {
        PieceType::Pawn => 0,
        PieceType::Knight => knight_attacks(sq),
        PieceType::Bishop => bishop_attacks(sq, blockers),
        PieceType::Rook => rook_attacks(sq, blockers),
        PieceType::Queen => queen_attacks(sq, blockers),
        PieceType::King => king_attacks(sq),
    };
    proof {
        lemma_has_empty();
        let p = reach_of(kind, blockers, sq as int);
        assert forall|b: int| is_set(res, b) <==> piece_reach(kind, blockers, sq as int, b) by {
            if kind == PieceType::Pawn {
                assert(res == 0);
            }
        }
        assert forall|b: int| 0 <= b < 64 implies is_set(res, b) == #[trigger] p(b) by {}
        crate::bits::lemma_count_below_is_count_squares(res, p, 64);
        if kind == PieceType::Pawn {
            crate::bits::lemma_count_squares_zero(p, 64);
        }
    }
    res
}

/// The greatest number of squares that a piece of kind `kind` can attack.
pub open spec fn max_attacks(kind: PieceType) -> int {
    match kind {
        PieceType::Pawn => 0,
        PieceType::Knight => 8,
        PieceType::Bishop => 13,
        PieceType::Rook => 14,
        PieceType::Queen => 27,
        PieceType::King => 8,
    }
}

} // verus!
