use super::lerp;
use vstd::prelude::*;
use vstd::std_specs::convert::FromSpecImpl;
use vstd::std_specs::ops::{AddSpecImpl, MulSpecImpl, NegSpecImpl, SubSpecImpl};

verus! {

/// The quotient of `a` by a positive `b`, rounded toward zero.
pub open spec fn trunc_div(a: int, b: int) -> int {
    if a >= 0 {
        a / b
    } else {
        -((-a) / b)
    }
}

/// The blend of a midgame value and an endgame value at phase `t`, where 0 is
/// the opening and 256 the endgame; a phase above 256 counts as 256.
pub open spec fn lerp_spec(mg: int, eg: int, t: int) -> int {
    let t = if t > 256 {
        256
    } else {
        t
    };
    trunc_div(mg * (256 - t), 256) + trunc_div(eg * t, 256)
}

/// The sum of two pairs, part by part.
pub open spec fn pair_add(a: (int, int), b: (int, int)) -> (int, int) {
    (a.0 + b.0, a.1 + b.1)
}

/// The difference of two pairs, part by part.
pub open spec fn pair_sub(a: (int, int), b: (int, int)) -> (int, int) {
    (a.0 - b.0, a.1 - b.1)
}

/// A pair with both parts negated.
pub open spec fn pair_neg(a: (int, int)) -> (int, int) {
    (-a.0, -a.1)
}

/// A pair with both parts multiplied by `k`.
pub open spec fn pair_scale(a: (int, int), k: int) -> (int, int) {
    (a.0 * k, a.1 * k)
}

/// Whether both parts of a pair lie between `-limit` and `limit`.
pub open spec fn pair_within(a: (int, int), limit: int) -> bool {
    -limit <= a.0 <= limit && -limit <= a.1 <= limit
}

/// The sum of `f` over the integers from 0 up to `n`, `n` left out.
pub open spec fn sum_ints(f: spec_fn(int) -> int, n: int) -> int
    decreases n,
{
    if n <= 0 {
        0
    } else {
        sum_ints(f, n - 1) + f(n - 1)
    }
}

/// The sum of `f` over the squares below `n`.
pub open spec fn sum_pairs(f: spec_fn(int) -> (int, int), n: int) -> (int, int)
    decreases n,
{
    if n <= 0 {
        (0, 0)
    } else {
        pair_add(sum_pairs(f, n - 1), f(n - 1))
    }
}

/// A sum of `n` pairs within a limit is within `n` times that limit.
pub proof fn lemma_sum_pairs_within(f: spec_fn(int) -> (int, int), n: int, limit: int)
    requires
        0 <= n,
        0 <= limit,
        forall|s: int| 0 <= s < n ==> pair_within(#[trigger] f(s), limit),
    ensures
        pair_within(sum_pairs(f, n), n * limit),
    decreases n,
{
    if n > 0 {
        lemma_sum_pairs_within(f, n - 1, limit);
        assert((n - 1) * limit + limit == n * limit) by (nonlinear_arith);
    } else {
        assert(0 * limit == 0);
    }
}

/// Sums of functions that agree below `n` are equal.
pub proof fn lemma_sum_pairs_eq(f: spec_fn(int) -> (int, int), g: spec_fn(int) -> (int, int), n: int)
    requires
        forall|s: int| 0 <= s < n ==> #[trigger] f(s) == g(s),
    ensures
        sum_pairs(f, n) == sum_pairs(g, n),
    decreases n,
{
    if n > 0 {
        lemma_sum_pairs_eq(f, g, n - 1);
    }
}

/// A score in two parts: what a feature is worth in the midgame and what it is
/// worth in the endgame, both in centipawns.
#[derive(Copy, Clone, PartialEq, Eq, Debug, Structural)]
pub struct S(pub i32, pub i32);

impl View for S {
    type V = (int, int);

    open spec fn view(&self) -> (int, int) {
        (self.0 as int, self.1 as int)
    }
}

/// Whether a pair of integers can be held in an `S`.
pub open spec fn pair_fits(a: (int, int)) -> bool {
    i32::MIN <= a.0 <= i32::MAX && i32::MIN <= a.1 <= i32::MAX
}

impl core::ops::Add for S {
    type Output = S;

    fn add(self, rhs: S) -> (r: S) {
        S(self.0 + rhs.0, self.1 + rhs.1)
    }
}

impl AddSpecImpl for S {
    open spec fn obeys_add_spec() -> bool {
        true
    }

    open spec fn add_req(self, rhs: S) -> bool {
        pair_fits(pair_add(self@, rhs@))
    }

    open spec fn add_spec(self, rhs: S) -> S {
        S((self.0 + rhs.0) as i32, (self.1 + rhs.1) as i32)
    }
}

impl core::ops::Sub for S {
    type Output = S;

    fn sub(self, rhs: S) -> (r: S) {
        S(self.0 - rhs.0, self.1 - rhs.1)
    }
}

impl SubSpecImpl for S {
    open spec fn obeys_sub_spec() -> bool {
        true
    }

    open spec fn sub_req(self, rhs: S) -> bool {
        pair_fits(pair_sub(self@, rhs@))
    }

    open spec fn sub_spec(self, rhs: S) -> S {
        S((self.0 - rhs.0) as i32, (self.1 - rhs.1) as i32)
    }
}

impl core::ops::AddAssign for S {
    fn add_assign(&mut self, rhs: S)
        requires
            pair_fits(pair_add(old(self)@, rhs@)),
        ensures
            final(self)@ == pair_add(old(self)@, rhs@),
    {
        self.0 += rhs.0;
        self.1 += rhs.1;
    }
}

impl core::ops::SubAssign for S {
    fn sub_assign(&mut self, rhs: S)
        requires
            pair_fits(pair_sub(old(self)@, rhs@)),
        ensures
            final(self)@ == pair_sub(old(self)@, rhs@),
    {
        self.0 -= rhs.0;
        self.1 -= rhs.1;
    }
}

impl core::ops::Neg for S {
    type Output = S;

    fn neg(self) -> (r: S) {
        S(-self.0, -self.1)
    }
}

impl NegSpecImpl for S {
    open spec fn obeys_neg_spec() -> bool {
        true
    }

    open spec fn neg_req(self) -> bool {
        pair_fits(pair_neg(self@))
    }

    open spec fn neg_spec(self) -> S {
        S((-self.0) as i32, (-self.1) as i32)
    }
}

impl core::ops::Mul<i32> for S {
    type Output = S;

    fn mul(self, rhs: i32) -> (r: S) {
        S(self.0 * rhs, self.1 * rhs)
    }
}

impl MulSpecImpl<i32> for S {
    open spec fn obeys_mul_spec() -> bool {
        true
    }

    open spec fn mul_req(self, rhs: i32) -> bool {
        pair_fits(pair_scale(self@, rhs as int))
    }

    open spec fn mul_spec(self, rhs: i32) -> S {
        S((self.0 * rhs) as i32, (self.1 * rhs) as i32)
    }
}

impl core::convert::From<i32> for S {
    fn from(i: i32) -> (r: S) {
        S(i, i)
    }
}

impl FromSpecImpl<i32> for S {
    open spec fn obeys_from_spec() -> bool {
        true
    }

    open spec fn from_spec(i: i32) -> S {
        S(i, i)
    }
}

/// For a phase from 0 to 256 the blend lies between its two ends, so it is
/// again an `i32`.
pub proof fn lemma_lerp_fits(mg: i32, eg: i32, t: i32)
    requires
        0 <= t,
    ensures
        i32::MIN <= lerp_spec(mg as int, eg as int, t as int) <= i32::MAX,
{
    let tt: int = if t > 256 {
        256
    } else {
        t as int
    };
    let a = mg as int * (256 - tt);
    let b = eg as int * tt;
    assert(-0x8000_0000 * (256 - tt) <= a <= 0x7fff_ffff * (256 - tt)) by (nonlinear_arith)
        requires
            a == mg as int * (256 - tt),
            -0x8000_0000 <= mg <= 0x7fff_ffff,
            0 <= 256 - tt,
    ;
    assert(-0x8000_0000 * tt <= b <= 0x7fff_ffff * tt) by (nonlinear_arith)
        requires
            b == eg as int * tt,
            -0x8000_0000 <= eg <= 0x7fff_ffff,
            0 <= tt,
    ;
}

impl S {
    /// The score that is zero in both parts.
    pub open spec fn spec_null() -> S {
        S(0, 0)
    }

    #[verifier::when_used_as_spec(spec_null)]
    pub fn null() -> (r: S)
        ensures
            r == S(0, 0),
    {
        S(0, 0)
    }

    /// Whether both parts lie between `-limit` and `limit`.
    pub open spec fn within(self, limit: int) -> bool {
        pair_within(self@, limit)
    }

    /// The blend of the two parts at the given phase.
    pub fn value(self, phase: i32) -> (r: i32)
        requires
            i32::MIN <= lerp_spec(self.0 as int, self.1 as int, phase as int) <= i32::MAX,
        ensures
            r == lerp_spec(self.0 as int, self.1 as int, phase as int),
    {
        lerp(self.0, self.1, phase)
    }
}

} // verus!
