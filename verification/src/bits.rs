use vstd::prelude::*;

verus! {

/// A bitboard holds square `sq` when bit `sq` of it is set. Squares are numbered
/// 0..64, a1 = 0, h1 = 7, a8 = 56.
pub open spec fn is_set(bb: u64, sq: int) -> bool {
    0 <= sq < 64 && (bb >> (sq as u64)) & 1 == 1
}

/// The number of squares below `n` that `bb` holds.
pub open spec fn count_below(bb: u64, n: int) -> int
    decreases n,
{
    if n <= 0 {
        0
    } else {
        count_below(bb, n - 1) + if is_set(bb, n - 1) {
            1int
        } else {
            0int
        }
    }
}

/// The number of squares that `bb` holds.
pub open spec fn popcount(bb: u64) -> int {
    count_below(bb, 64)
}

/// The bitboard that holds `sq` and nothing else.
pub open spec fn bit(sq: int) -> u64 {
    1u64 << (sq as u64)
}

pub proof fn lemma_has_empty()
    ensures
        forall|s: int| !is_set(0, s),
{
    assert forall|s: int| !is_set(0, s) by {
        if 0 <= s < 64 {
            let t = s as u64;
            assert((0u64 >> t) & 1 == 0) by (bit_vector);
        }
    }
}

pub proof fn lemma_has_bit(sq: int)
    requires
        0 <= sq < 64,
    ensures
        forall|s: int| is_set(bit(sq), s) <==> s == sq,
{
    assert forall|s: int| is_set(bit(sq), s) <==> s == sq by {
        if 0 <= s < 64 {
            let t = s as u64;
            let k = sq as u64;
            assert(k < 64 && t < 64 ==> ((((1u64 << k) >> t) & 1 == 1) <==> t == k)) by (bit_vector);
        }
    }
}

pub proof fn lemma_has_or(a: u64, b: u64)
    ensures
        forall|s: int| #[trigger] is_set(a | b, s) <==> is_set(a, s) || is_set(b, s),
{
    assert forall|s: int| #[trigger] is_set(a | b, s) <==> is_set(a, s) || is_set(b, s) by {
        if 0 <= s < 64 {
            let t = s as u64;
            assert((((a | b) >> t) & 1 == 1) <==> ((a >> t) & 1 == 1 || (b >> t) & 1 == 1))
                by (bit_vector);
        }
    }
}

pub proof fn lemma_has_and(a: u64, b: u64)
    ensures
        forall|s: int| #[trigger] is_set(a & b, s) <==> is_set(a, s) && is_set(b, s),
{
    assert forall|s: int| #[trigger] is_set(a & b, s) <==> is_set(a, s) && is_set(b, s) by {
        if 0 <= s < 64 {
            let t = s as u64;
            assert((((a & b) >> t) & 1 == 1) <==> ((a >> t) & 1 == 1 && (b >> t) & 1 == 1))
                by (bit_vector);
        }
    }
}

pub proof fn lemma_has_not(a: u64)
    ensures
        forall|s: int| 0 <= s < 64 ==> (#[trigger] is_set(!a, s) <==> !is_set(a, s)),
{
    assert forall|s: int| 0 <= s < 64 implies (#[trigger] is_set(!a, s) <==> !is_set(a, s)) by {
        let t = s as u64;
        assert(t < 64 ==> ((((!a) >> t) & 1 == 1) <==> !((a >> t) & 1 == 1))) by (bit_vector);
    }
}

/// The low `n` bits of `x`.
spec fn low(x: u64, n: int) -> u64 {
    x & (((1u64 << (n as u64)) - 1) as u64)
}

proof fn lemma_low_step(x: u64, y: u64, n: int)
    requires
        0 <= n < 63,
        low(x, n) == low(y, n),
        is_set(x, n) == is_set(y, n),
    ensures
        low(x, n + 1) == low(y, n + 1),
{
    let t = n as u64;
    assert(t < 63 && (x & (((1u64 << t) - 1) as u64)) == (y & (((1u64 << t) - 1) as u64)) && (((x
        >> t) & 1 == 1) <==> ((y >> t) & 1 == 1)) ==> (x & (((1u64 << ((t + 1) as u64)) - 1) as u64))
        == (y & (((1u64 << ((t + 1) as u64)) - 1) as u64))) by (bit_vector);
}

proof fn lemma_low_all(x: u64, y: u64, n: int)
    requires
        0 <= n <= 63,
        forall|s: int| 0 <= s < 64 ==> is_set(x, s) == is_set(y, s),
    ensures
        low(x, n) == low(y, n),
    decreases n,
{
    if n == 0 {
        assert((x & (((1u64 << 0u64) - 1) as u64)) == (y & (((1u64 << 0u64) - 1) as u64)))
            by (bit_vector);
    } else {
        lemma_low_all(x, y, n - 1);
        lemma_low_step(x, y, n - 1);
    }
}

/// Two bitboards that hold the same squares are equal.
pub proof fn lemma_bitboard_ext(x: u64, y: u64)
    requires
        forall|s: int| 0 <= s < 64 ==> is_set(x, s) == is_set(y, s),
    ensures
        x == y,
{
    lemma_low_all(x, y, 63);
    assert(is_set(x, 63) == is_set(y, 63));
    assert((x & (((1u64 << 63u64) - 1) as u64)) == (y & (((1u64 << 63u64) - 1) as u64)) && (((x
        >> 63u64) & 1 == 1) <==> ((y >> 63u64) & 1 == 1)) ==> x == y) by (bit_vector);
}

/// A bitboard is zero exactly when it holds no square.
pub proof fn lemma_zero_iff_empty(x: u64)
    ensures
        x == 0 <==> forall|s: int| !is_set(x, s),
{
    lemma_has_empty();
    if forall|s: int| !is_set(x, s) {
        lemma_bitboard_ext(x, 0);
    }
}

/// The number of squares below `n` of which `p` holds.
pub open spec fn count_squares(p: spec_fn(int) -> bool, n: int) -> int
    decreases n,
{
    if n <= 0 {
        0
    } else {
        count_squares(p, n - 1) + if p(n - 1) {
            1int
        } else {
            0int
        }
    }
}

pub proof fn lemma_count_squares_bounds(p: spec_fn(int) -> bool, n: int)
    requires
        0 <= n,
    ensures
        0 <= count_squares(p, n) <= n,
    decreases n,
{
    if n > 0 {
        lemma_count_squares_bounds(p, n - 1);
    }
}

/// A predicate that holds of fewer squares counts less.
pub proof fn lemma_count_squares_mono(p: spec_fn(int) -> bool, q: spec_fn(int) -> bool, n: int)
    requires
        forall|s: int| 0 <= s < n && #[trigger] p(s) ==> q(s),
    ensures
        count_squares(p, n) <= count_squares(q, n),
    decreases n,
{
    if n > 0 {
        lemma_count_squares_mono(p, q, n - 1);
    }
}

/// Predicates that agree below `n` count the same.
pub proof fn lemma_count_squares_eq(p: spec_fn(int) -> bool, q: spec_fn(int) -> bool, n: int)
    requires
        forall|s: int| 0 <= s < n ==> #[trigger] p(s) == q(s),
    ensures
        count_squares(p, n) == count_squares(q, n),
    decreases n,
{
    if n > 0 {
        lemma_count_squares_eq(p, q, n - 1);
    }
}

/// A union counts at most what its two parts count together.
pub proof fn lemma_count_squares_union(
    p: spec_fn(int) -> bool,
    q: spec_fn(int) -> bool,
    u: spec_fn(int) -> bool,
    n: int,
)
    requires
        forall|s: int| 0 <= s < n && #[trigger] u(s) ==> p(s) || q(s),
    ensures
        count_squares(u, n) <= count_squares(p, n) + count_squares(q, n),
    decreases n,
{
    if n > 0 {
        lemma_count_squares_union(p, q, u, n - 1);
    }
}

/// Adding one square to a predicate adds at most one to its count.
pub proof fn lemma_count_squares_insert(
    p: spec_fn(int) -> bool,
    q: spec_fn(int) -> bool,
    sq: int,
    n: int,
)
    requires
        forall|s: int| 0 <= s < n && #[trigger] q(s) ==> p(s) || s == sq,
    ensures
        count_squares(q, n) <= count_squares(p, n) + 1,
        !(0 <= sq < n) ==> count_squares(q, n) <= count_squares(p, n),
    decreases n,
{
    if n > 0 {
        lemma_count_squares_insert(p, q, sq, n - 1);
        if sq == n - 1 {
            lemma_count_squares_mono(q, p, n - 1);
        }
    }
}

/// A predicate that holds of no square below `n` counts zero, and the other way round.
pub proof fn lemma_count_squares_zero(p: spec_fn(int) -> bool, n: int)
    requires
        0 <= n,
    ensures
        count_squares(p, n) == 0 <==> forall|s: int| 0 <= s < n ==> !#[trigger] p(s),
    decreases n,
{
    if n > 0 {
        lemma_count_squares_zero(p, n - 1);
        lemma_count_squares_bounds(p, n - 1);
        if count_squares(p, n) == 0 {
            assert forall|s: int| 0 <= s < n implies !#[trigger] p(s) by {
                if s < n - 1 {
                }
            }
        }
    }
}

/// What a bitboard counts is what the predicate of its squares counts.
pub proof fn lemma_count_below_is_count_squares(bb: u64, p: spec_fn(int) -> bool, n: int)
    requires
        forall|s: int| 0 <= s < n ==> is_set(bb, s) == #[trigger] p(s),
    ensures
        count_below(bb, n) == count_squares(p, n),
    decreases n,
{
    if n > 0 {
        lemma_count_below_is_count_squares(bb, p, n - 1);
    }
}

/// The bitboard of the squares below `n` of which `p` holds.
pub open spec fn bitboard_where(p: spec_fn(int) -> bool, n: int) -> u64
    decreases n,
{
    if n <= 0 {
        0
    } else if p(n - 1) {
        bitboard_where(p, n - 1) | bit(n - 1)
    } else {
        bitboard_where(p, n - 1)
    }
}

/// `bitboard_where` holds just the squares that it is said to hold.
pub proof fn lemma_bitboard_where(p: spec_fn(int) -> bool, n: int)
    requires
        0 <= n <= 64,
    ensures
        forall|s: int| #[trigger] is_set(bitboard_where(p, n), s) <==> 0 <= s < n && p(s),
    decreases n,
{
    if n <= 0 {
        lemma_has_empty();
    } else {
        lemma_bitboard_where(p, n - 1);
        lemma_has_bit(n - 1);
        lemma_has_or(bitboard_where(p, n - 1), bit(n - 1));
    }
}

/// A bitboard that holds just the squares of which `p` holds is
/// `bitboard_where(p, 64)`.
pub proof fn lemma_bitboard_is_where(bb: u64, p: spec_fn(int) -> bool)
    requires
        forall|s: int| #[trigger] is_set(bb, s) <==> 0 <= s < 64 && p(s),
    ensures
        bb == bitboard_where(p, 64),
{
    lemma_bitboard_where(p, 64);
    lemma_bitboard_ext(bb, bitboard_where(p, 64));
}

/// The predicate "the bitboard holds the square".
pub open spec fn squares_of(bb: u64) -> spec_fn(int) -> bool {
    |s: int| is_set(bb, s)
}

pub proof fn lemma_popcount_is_count(bb: u64)
    ensures
        popcount(bb) == count_squares(squares_of(bb), 64),
        0 <= popcount(bb) <= 64,
{
    lemma_count_below_is_count_squares(bb, squares_of(bb), 64);
    lemma_count_squares_bounds(squares_of(bb), 64);
}

/// `u64::count_ones` returns the number of bits set in its argument, which is the
/// number of squares that the bitboard holds.
pub assume_specification[ u64::count_ones ](x: u64) -> (r: u32)
    ensures
        r == popcount(x),
;

/// Whether `bb` holds `sq`.
pub fn test_bit(bb: u64, sq: u8) -> (r: bool)
    requires
        sq < 64,
    ensures
        r == is_set(bb, sq as int),
{
    (bb >> sq) & 1 == 1
}

/// The bitboard of the single square `sq`.
pub fn square_bb(sq: u8) -> (r: u64)
    requires
        sq < 64,
    ensures
        r == bit(sq as int),
        forall|s: int| is_set(r, s) <==> s == sq,
{
    proof {
        lemma_has_bit(sq as int);
    }
    1u64 << sq
}

} // verus!
