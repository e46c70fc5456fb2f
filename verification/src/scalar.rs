//! Fixed-point real numbers.
//!
//! Every quantity of the renderer (coordinates, distances, colour channels) is a
//! [`Scalar`]: a signed 64-bit count of units of 2^-32. Arithmetic rounds down to
//! the next representable number and saturates at the ends of the range, so each
//! operation is a total function with an exact integer meaning.

use vstd::prelude::*;
use vstd::arithmetic::div_mod::lemma_fundamental_div_mod;
use vstd::arithmetic::div_mod::lemma_fundamental_div_mod_converse;

verus! {

/// The raw count that stands for the number 1.
pub const ONE_RAW: i64 = 0x1_0000_0000;

/// The nearest raw count to `x` that a [`Scalar`] can hold.
pub open spec fn sat(x: int) -> int {
    if x < i64::MIN {
        i64::MIN as int
    } else if x > i64::MAX {
        i64::MAX as int
    } else {
        x
    }
}

/// Raw count of the product of the numbers with raw counts `a` and `b`:
/// the exact product rounded down, then saturated.
pub open spec fn fx_mul(a: int, b: int) -> int {
    sat((a * b) / 0x1_0000_0000)
}

/// Raw count of the quotient of the numbers with raw counts `a` and `b`:
/// the exact quotient rounded down, then saturated.
pub open spec fn fx_div(a: int, b: int) -> int
    recommends
        b != 0,
{
    if b > 0 {
        sat((a * 0x1_0000_0000) / b)
    } else {
        sat((-(a * 0x1_0000_0000)) / (-b))
    }
}

/// `r` is the integer square root of `n`.
pub open spec fn is_sqrt(n: int, r: int) -> bool {
    0 <= r && r * r <= n < (r + 1) * (r + 1)
}

/// The integer square root of `n`: the largest `r` with `r * r <= n`.
pub open spec fn int_sqrt(n: int) -> int {
    choose|r: int| is_sqrt(n, r)
}

/// Every number from 0 on has an integer square root.
pub proof fn lemma_sqrt_exists(n: int)
    requires
        n >= 0,
    ensures
        is_sqrt(n, int_sqrt(n)),
    decreases n,
{
    if n == 0 {
        assert(is_sqrt(0, 0));
    } else {
        lemma_sqrt_exists(n - 1);
        let r = int_sqrt(n - 1);
        if (r + 1) * (r + 1) <= n {
            assert((r + 1) * (r + 1) == n);
            assert(n < (r + 2) * (r + 2)) by (nonlinear_arith)
                requires
                    n == (r + 1) * (r + 1),
                    r >= 0,
            ;
            assert(is_sqrt(n, r + 1));
        } else {
            assert(is_sqrt(n, r));
        }
    }
}

/// A number has at most one integer square root.
pub proof fn lemma_sqrt_unique(n: int, r: int)
    requires
        is_sqrt(n, r),
    ensures
        int_sqrt(n) == r,
{
    let c = int_sqrt(n);
    assert(is_sqrt(n, c));
    if c < r {
        assert((c + 1) * (c + 1) <= r * r) by (nonlinear_arith)
            requires
                0 <= c + 1 <= r,
        ;
    } else if r < c {
        assert((r + 1) * (r + 1) <= c * c) by (nonlinear_arith)
            requires
                0 <= r + 1 <= c,
        ;
    }
}

/// The integer square root of a number below 2^126 lies below 2^63.
pub proof fn lemma_sqrt_bound(n: int)
    requires
        0 <= n < 0x4000_0000_0000_0000_0000_0000_0000_0000,
    ensures
        0 <= int_sqrt(n) < 0x8000_0000_0000_0000,
        is_sqrt(n, int_sqrt(n)),
{
    lemma_sqrt_exists(n);
    let r = int_sqrt(n);
    if r >= 0x8000_0000_0000_0000 {
        assert(r * r >= 0x8000_0000_0000_0000 * 0x8000_0000_0000_0000) by (nonlinear_arith)
            requires
                r >= 0x8000_0000_0000_0000,
        ;
    }
}

/// A fixed-point number: `raw` units of 2^-32.
#[derive(Clone, Copy, PartialEq, Eq, Structural, Debug)]
pub struct Scalar {
    pub raw: i64,
}

impl View for Scalar {
    type V = int;

    /// The raw count as a mathematical integer.
    open spec fn view(&self) -> int {
        self.raw as int
    }
}

/// Saturates a wide integer into the 64-bit range.
pub fn saturate(x: i128) -> (r: i64)
    ensures
        r == sat(x as int),
{
    if x < i64::MIN as i128 {
        i64::MIN
    } else if x > i64::MAX as i128 {
        i64::MAX
    } else {
        x as i64
    }
}

/// Division that rounds towards negative infinity.
pub fn floor_div(n: i128, d: i128) -> (q: i128)
    requires
        d > 0,
        n > i128::MIN,
    ensures
        q == n as int / d as int,
{
    if n >= 0 {
        n / d
    } else {
        let m: i128 = -n;
        let k: i128 = (m - 1) / d;
        proof {
            let rem = (m - 1) as int % d as int;
            lemma_fundamental_div_mod((m - 1) as int, d as int);
            assert((m - 1) as int == d * k + rem);
            assert(d * k == k * d) by (nonlinear_arith);
            assert((-k - 1) * d == -(k * d) - d) by (nonlinear_arith);
            lemma_fundamental_div_mod_converse(n as int, d as int, -k - 1, d - rem - 1);
        }
        -k - 1
    }
}

/// The integer square root: the largest `r` with `r * r <= n`.
pub fn isqrt(n: u128) -> (r: u64)
    ensures
        r == int_sqrt(n as int),
        is_sqrt(n as int, r as int),
{
    let mut lo: u128 = 0;
    let mut hi: u128 = 0x1_0000_0000_0000_0000;
    assert(n < hi * hi) by (nonlinear_arith)
        requires
            hi == 0x1_0000_0000_0000_0000,
            n <= u128::MAX,
    ;
    while hi - lo > 1
        invariant
            lo < hi <= 0x1_0000_0000_0000_0000,
            lo * lo <= n < hi * hi,
        decreases hi - lo,
    {
        let mid: u128 = lo + (hi - lo) / 2;
        assert(mid * mid <= 0xffff_ffff_ffff_ffff * 0xffff_ffff_ffff_ffff)
            by (nonlinear_arith)
            requires
                0 <= mid <= 0xffff_ffff_ffff_ffff,
        ;
        if mid * mid <= n {
            lo = mid;
        } else {
            hi = mid;
        }
    }
    proof {
        lemma_sqrt_unique(n as int, lo as int);
    }
    lo as u64
}

impl Scalar {
    /// The number with the given raw count.
    pub fn from_raw(raw: i64) -> (s: Self)
        ensures
            s@ == raw,
    {
        Scalar { raw }
    }

    /// The whole number `n`.
    pub open spec fn spec_from_int(n: i32) -> Scalar {
        Scalar { raw: (n * 0x1_0000_0000) as i64 }
    }

    /// The whole number `n`.
    #[verifier::when_used_as_spec(spec_from_int)]
    pub fn from_int(n: i32) -> (s: Self)
        ensures
            s == Self::spec_from_int(n),
            s@ == n * 0x1_0000_0000,
    {
        assert(-0x8000_0000 * 0x1_0000_0000 <= n * 0x1_0000_0000 <= 0x7fff_ffff
            * 0x1_0000_0000) by (nonlinear_arith)
            requires
                -0x8000_0000 <= n <= 0x7fff_ffff,
        ;
        Scalar { raw: (n as i64) * ONE_RAW }
    }

    /// The whole number `n`, saturated.
    pub open spec fn spec_from_count(n: usize) -> Scalar {
        Scalar { raw: sat(n * 0x1_0000_0000) as i64 }
    }

    /// The whole number `n`, saturated.
    #[verifier::when_used_as_spec(spec_from_count)]
    pub fn from_count(n: usize) -> (s: Self)
        ensures
            s == Self::spec_from_count(n),
    {
        if n > 0x7fff_ffff {
            Scalar { raw: i64::MAX }
        } else {
            Scalar { raw: (n as i64) * 0x1_0000_0000i64 }
        }
    }

    /// The number 0.
    pub open spec fn spec_zero() -> Scalar {
        Scalar { raw: 0 }
    }

    /// The number 0.
    #[verifier::when_used_as_spec(spec_zero)]
    pub fn zero() -> (s: Self)
        ensures
            s == Self::spec_zero(),
    {
        Scalar { raw: 0 }
    }

    /// The number 1.
    pub open spec fn spec_one() -> Scalar {
        Scalar { raw: 0x1_0000_0000 }
    }

    /// The number 1.
    #[verifier::when_used_as_spec(spec_one)]
    pub fn one() -> (s: Self)
        ensures
            s == Self::spec_one(),
    {
        Scalar { raw: ONE_RAW }
    }

    /// The number 1/2.
    pub open spec fn spec_half() -> Scalar {
        Scalar { raw: 0x8000_0000 }
    }

    /// The number 1/2.
    #[verifier::when_used_as_spec(spec_half)]
    pub fn half() -> (s: Self)
        ensures
            s == Self::spec_half(),
    {
        Scalar { raw: 0x8000_0000 }
    }

    /// The largest number, which bounds every distance from above.
    pub open spec fn spec_infinity() -> Scalar {
        Scalar { raw: i64::MAX }
    }

    /// The largest number, which bounds every distance from above.
    #[verifier::when_used_as_spec(spec_infinity)]
    pub fn infinity() -> (s: Self)
        ensures
            s == Self::spec_infinity(),
    {
        Scalar { raw: i64::MAX }
    }

    /// Saturating sum.
    pub open spec fn spec_plus(self, other: Scalar) -> Scalar {
        Scalar { raw: sat(self@ + other@) as i64 }
    }

    /// Saturating sum.
    #[verifier::when_used_as_spec(spec_plus)]
    pub fn plus(self, other: Scalar) -> (s: Self)
        ensures
            s == self.spec_plus(other),
    {
        Scalar { raw: saturate(self.raw as i128 + other.raw as i128) }
    }

    /// Saturating difference.
    pub open spec fn spec_minus(self, other: Scalar) -> Scalar {
        Scalar { raw: sat(self@ - other@) as i64 }
    }

    /// Saturating difference.
    #[verifier::when_used_as_spec(spec_minus)]
    pub fn minus(self, other: Scalar) -> (s: Self)
        ensures
            s == self.spec_minus(other),
    {
        Scalar { raw: saturate(self.raw as i128 - other.raw as i128) }
    }

    /// Saturating negation.
    pub open spec fn spec_negated(self) -> Scalar {
        Scalar { raw: sat(-self@) as i64 }
    }

    /// Saturating negation.
    #[verifier::when_used_as_spec(spec_negated)]
    pub fn negated(self) -> (s: Self)
        ensures
            s == self.spec_negated(),
    {
        Scalar { raw: saturate(-(self.raw as i128)) }
    }

    /// Product, rounded down and saturated.
    pub open spec fn spec_times(self, other: Scalar) -> Scalar {
        Scalar { raw: fx_mul(self@, other@) as i64 }
    }

    /// Product, rounded down and saturated.
    #[verifier::when_used_as_spec(spec_times)]
    pub fn times(self, other: Scalar) -> (s: Self)
        ensures
            s == self.spec_times(other),
    {
        Scalar { raw: saturate(wide_product(self.raw, other.raw, ONE_RAW)) }
    }

    /// Quotient, rounded down and saturated.
    pub open spec fn spec_over(self, other: Scalar) -> Scalar
        recommends
            other@ != 0,
    {
        Scalar { raw: fx_div(self@, other@) as i64 }
    }

    /// Quotient, rounded down and saturated.
    #[verifier::when_used_as_spec(spec_over)]
    pub fn over(self, other: Scalar) -> (s: Self)
        requires
            other@ != 0,
        ensures
            s == self.spec_over(other),
    {
        let n: i128 = (self.raw as i128) * 0x1_0000_0000i128;
        if other.raw > 0 {
            Scalar { raw: saturate(floor_div(n, other.raw as i128)) }
        } else {
            Scalar { raw: saturate(floor_div(-n, -(other.raw as i128))) }
        }
    }

    /// The square root, rounded down.
    pub open spec fn spec_sqrt(self) -> Scalar
        recommends
            self@ >= 0,
    {
        Scalar { raw: int_sqrt(self@ * 0x1_0000_0000) as i64 }
    }

    /// The square root, rounded down.
    #[verifier::when_used_as_spec(spec_sqrt)]
    pub fn sqrt(self) -> (s: Self)
        requires
            self@ >= 0,
        ensures
            s == self.spec_sqrt(),
            is_sqrt(self@ * 0x1_0000_0000, s@),
    {
        let r: u64 = isqrt((self.raw as u128) * 0x1_0000_0000u128);
        proof {
            if r >= 0x8000_0000_0000_0000 {
                assert(r * r >= 0x8000_0000_0000_0000 * 0x8000_0000_0000_0000)
                    by (nonlinear_arith)
                    requires
                        r >= 0x8000_0000_0000_0000,
                ;
            }
        }
        Scalar { raw: r as i64 }
    }

    /// The largest whole number that is not above this one.
    pub open spec fn spec_floor(self) -> i64 {
        (self@ / 0x1_0000_0000) as i64
    }

    /// The largest whole number that is not above this one.
    #[verifier::when_used_as_spec(spec_floor)]
    pub fn floor(self) -> (n: i64)
        ensures
            n == self.spec_floor(),
            n == self@ / 0x1_0000_0000,
            -0x8000_0000 <= n <= 0x7fff_ffff,
    {
        floor_div(self.raw as i128, ONE_RAW as i128) as i64
    }
}

/// The exact product of two raw counts, divided by `d` and rounded down.
pub fn wide_product(a: i64, b: i64, d: i64) -> (q: i128)
    requires
        d > 0,
    ensures
        q == (a * b) / (d as int),
        d == 0x1_0000_0000 ==> -0x4000_0000_0000_0000_0000_0000 <= q
            <= 0x4000_0000_0000_0000_0000_0000,
{
    assert(-0x8000_0000_0000_0000 * 0x8000_0000_0000_0000 <= a * b <= 0x8000_0000_0000_0000
        * 0x8000_0000_0000_0000) by (nonlinear_arith)
        requires
            -0x8000_0000_0000_0000 <= a <= 0x8000_0000_0000_0000,
            -0x8000_0000_0000_0000 <= b <= 0x8000_0000_0000_0000,
    ;
    floor_div((a as i128) * (b as i128), d as i128)
}

} // verus!
