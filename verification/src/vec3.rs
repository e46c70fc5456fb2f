//! Triples of fixed-point numbers, used as points, directions and colours.

use vstd::prelude::*;
use vstd::arithmetic::div_mod::lemma_div_is_ordered;
use vstd::arithmetic::div_mod::lemma_div_is_ordered_by_denominator;
use vstd::arithmetic::div_mod::lemma_fundamental_div_mod;
use vstd::arithmetic::div_mod::lemma_fundamental_div_mod_converse;
use crate::scalar::Scalar;
use crate::scalar::floor_div;
use crate::scalar::int_sqrt;
use crate::scalar::is_sqrt;
use crate::scalar::isqrt;
use crate::scalar::lemma_sqrt_exists;
use crate::scalar::sat;
use crate::scalar::saturate;
use crate::scalar::wide_product;

verus! {

/// A point, a direction or a colour: three fixed-point components.
#[derive(Clone, Copy, PartialEq, Eq, Structural, Debug)]
pub struct Vec3 {
    pub x: Scalar,
    pub y: Scalar,
    pub z: Scalar,
}

/// Raw count of one component of a unit vector: the component `c` of a vector
/// of raw length `len`, divided by that length and rounded down.
pub open spec fn unit_component(c: int, len: int) -> int {
    (c * 0x1_0000_0000) / len
}

/// The square of a raw count, computed without overflow.
fn square(a: i64) -> (r: u128)
    ensures
        r == a * a,
        r <= 0x4000_0000_0000_0000_0000_0000_0000_0000,
{
    let w: i128 = a as i128;
    let m: u128 = if w >= 0 {
        w as u128
    } else {
        (-w) as u128
    };
    assert(m * m == a * a) by (nonlinear_arith)
        requires
            m == a || m == -a,
    ;
    assert(m * m <= 0x8000_0000_0000_0000 * 0x8000_0000_0000_0000) by (nonlinear_arith)
        requires
            0 <= m <= 0x8000_0000_0000_0000,
    ;
    m * m
}

/// The exact product of two raw counts.
fn exact_product(a: i64, b: i64) -> (p: i128)
    ensures
        p == a * b,
        -0x4000_0000_0000_0000_0000_0000_0000_0000 <= p
            <= 0x4000_0000_0000_0000_0000_0000_0000_0000,
{
    assert(-0x8000_0000_0000_0000 * 0x8000_0000_0000_0000 <= a * b <= 0x8000_0000_0000_0000
        * 0x8000_0000_0000_0000) by (nonlinear_arith)
        requires
            -0x8000_0000_0000_0000 <= a <= 0x8000_0000_0000_0000,
            -0x8000_0000_0000_0000 <= b <= 0x8000_0000_0000_0000,
    ;
    (a as i128) * (b as i128)
}

/// The number `s`, or the opposite of the highest number where `s` is the
/// lowest.
pub open spec fn balanced_scalar(s: Scalar) -> Scalar {
    if s@ == i64::MIN {
        Scalar { raw: (-0x7fff_ffff_ffff_ffff) as i64 }
    } else {
        s
    }
}

/// Computes `balanced_scalar`.
fn balance(s: Scalar) -> (b: Scalar)
    ensures
        b == balanced_scalar(s),
{
    if s.raw == i64::MIN {
        Scalar { raw: -0x7fff_ffff_ffff_ffffi64 }
    } else {
        s
    }
}

/// A component is never longer than the vector it belongs to.
proof fn lemma_component_within_length(c: int, rest: int, len: int)
    requires
        0 <= rest,
        is_sqrt(c * c + rest, len),
    ensures
        -len <= c <= len,
{
    if c > len {
        assert(c * c >= (len + 1) * (len + 1)) by (nonlinear_arith)
            requires
                c >= len + 1,
                len >= 0,
        ;
    }
    if c < -len {
        assert(c * c >= (len + 1) * (len + 1)) by (nonlinear_arith)
            requires
                -c >= len + 1,
                len >= 0,
        ;
    }
}

/// A component divided by the length of its vector lies between -1 and 1.
proof fn lemma_unit_component_bounds(c: int, len: int)
    requires
        0 < len,
        -len <= c <= len,
    ensures
        -0x1_0000_0000 <= unit_component(c, len) <= 0x1_0000_0000,
{
    assert(len * 0x1_0000_0000 == 0x1_0000_0000 * len + 0);
    lemma_fundamental_div_mod_converse(len * 0x1_0000_0000, len, 0x1_0000_0000, 0);
    assert(-len * 0x1_0000_0000 == -0x1_0000_0000 * len + 0);
    lemma_fundamental_div_mod_converse(-len * 0x1_0000_0000, len, -0x1_0000_0000, 0);
    lemma_div_is_ordered(c * 0x1_0000_0000, len * 0x1_0000_0000, len);
    lemma_div_is_ordered(-len * 0x1_0000_0000, c * 0x1_0000_0000, len);
}

/// A component below 0 stays below 0 when it is divided by the length.
proof fn lemma_unit_component_negative(c: int, len: int)
    requires
        0 < len,
        c < 0,
    ensures
        unit_component(c, len) < 0,
{
    let q = unit_component(c, len);
    lemma_fundamental_div_mod(c * 0x1_0000_0000, len);
    if q >= 0 {
        assert(len * q >= 0) by (nonlinear_arith)
            requires
                len > 0,
                q >= 0,
        ;
    }
}

/// The largest component of a vector without components below 0 is at least
/// half as long as the vector, so that it is at least 1/2 after the division
/// by the length.
proof fn lemma_unit_component_largest(c: int, a: int, b: int, len: int)
    requires
        0 <= a <= c,
        0 <= b <= c,
        0 < c,
        is_sqrt(c * c + a * a + b * b, len),
    ensures
        unit_component(c, len) >= 0x8000_0000,
{
    assert(a * a <= c * c && b * b <= c * c) by (nonlinear_arith)
        requires
            0 <= a <= c,
            0 <= b <= c,
    ;
    if len >= 2 * c {
        assert(len * len >= 4 * (c * c)) by (nonlinear_arith)
            requires
                len >= 2 * c,
                c > 0,
        ;
        assert(c * c > 0) by (nonlinear_arith)
            requires
                c > 0,
        ;
    }
    assert(c * c >= 1 && a * a >= 0 && b * b >= 0) by (nonlinear_arith)
        requires
            c >= 1,
    ;
    assert(len > 0);
    assert(c * 0x1_0000_0000 == 0x8000_0000 * (2 * c) + 0);
    lemma_fundamental_div_mod_converse(c * 0x1_0000_0000, 2 * c, 0x8000_0000, 0);
    lemma_div_is_ordered_by_denominator(c * 0x1_0000_0000, len, 2 * c);
}

/// A vector that is not zero has a unit vector that is not zero.
pub proof fn lemma_unit_is_not_zero(v: Vec3)
    requires
        !v.is_zero(),
    ensures
        unit_component(v.x@, v.norm()) != 0 || unit_component(v.y@, v.norm()) != 0
            || unit_component(v.z@, v.norm()) != 0,
{
    let (x, y, z) = (v.x@, v.y@, v.z@);
    assert(x * x >= 0 && y * y >= 0 && z * z >= 0) by (nonlinear_arith);
    assert(x != 0 ==> x * x > 0) by (nonlinear_arith);
    assert(y != 0 ==> y * y > 0) by (nonlinear_arith);
    assert(z != 0 ==> z * z > 0) by (nonlinear_arith);
    lemma_sqrt_exists(v.norm_sq());
    let len = v.norm();
    assert(v.norm_sq() >= 1);
    if len == 0 {
        assert((len + 1) * (len + 1) == 1) by (nonlinear_arith)
            requires
                len == 0,
        ;
    }
    assert(len > 0);
    if x < 0 {
        lemma_unit_component_negative(x, len);
    } else if y < 0 {
        lemma_unit_component_negative(y, len);
    } else if z < 0 {
        lemma_unit_component_negative(z, len);
    } else if x >= y && x >= z {
        lemma_unit_component_largest(x, y, z, len);
    } else if y >= x && y >= z {
        assert(y * y + x * x + z * z == v.norm_sq());
        lemma_unit_component_largest(y, x, z, len);
    } else {
        assert(z * z + x * x + y * y == v.norm_sq());
        lemma_unit_component_largest(z, x, y, len);
    }
}

/// The unit vector of a vector that is not zero has every component between
/// -1 and 1, and is not zero itself.
pub proof fn lemma_unit_in_box(v: Vec3)
    requires
        !v.is_zero(),
    ensures
        v.spec_unit().within_unit_box(),
        !v.spec_unit().is_zero(),
{
    let (x, y, z) = (v.x@, v.y@, v.z@);
    assert(x * x >= 0 && y * y >= 0 && z * z >= 0) by (nonlinear_arith);
    assert(x != 0 ==> x * x > 0) by (nonlinear_arith);
    assert(y != 0 ==> y * y > 0) by (nonlinear_arith);
    assert(z != 0 ==> z * z > 0) by (nonlinear_arith);
    lemma_sqrt_exists(v.norm_sq());
    let len = v.norm();
    if len == 0 {
        assert((len + 1) * (len + 1) == 1) by (nonlinear_arith)
            requires
                len == 0,
        ;
    }
    lemma_component_within_length(x, y * y + z * z, len);
    lemma_component_within_length(y, x * x + z * z, len);
    lemma_component_within_length(z, x * x + y * y, len);
    lemma_unit_component_bounds(x, len);
    lemma_unit_component_bounds(y, len);
    lemma_unit_component_bounds(z, len);
    lemma_unit_is_not_zero(v);
}

impl Vec3 {
    /// The triple with the given components.
    pub open spec fn spec_new(x: Scalar, y: Scalar, z: Scalar) -> Vec3 {
        Vec3 { x, y, z }
    }

    /// The triple with the given components.
    #[verifier::when_used_as_spec(spec_new)]
    pub fn new(x: Scalar, y: Scalar, z: Scalar) -> (v: Self)
        ensures
            v == Self::spec_new(x, y, z),
    {
        Vec3 { x, y, z }
    }

    /// The origin, the null direction, the colour black.
    pub open spec fn spec_zero() -> Vec3 {
        Vec3 { x: Scalar::zero(), y: Scalar::zero(), z: Scalar::zero() }
    }

    /// The origin, the null direction, the colour black.
    #[verifier::when_used_as_spec(spec_zero)]
    pub fn zero() -> (v: Self)
        ensures
            v == Self::spec_zero(),
    {
        Vec3 { x: Scalar::zero(), y: Scalar::zero(), z: Scalar::zero() }
    }

    /// Whether all three components are 0.
    pub open spec fn spec_is_zero(self) -> bool {
        self.x@ == 0 && self.y@ == 0 && self.z@ == 0
    }

    /// Whether all three components are 0.
    #[verifier::when_used_as_spec(spec_is_zero)]
    pub fn is_zero(self) -> (b: bool)
        ensures
            b == self.spec_is_zero(),
    {
        self.x.raw == 0 && self.y.raw == 0 && self.z.raw == 0
    }

    /// Component-wise sum.
    pub open spec fn spec_plus(self, other: Vec3) -> Vec3 {
        Vec3 { x: self.x.plus(other.x), y: self.y.plus(other.y), z: self.z.plus(other.z) }
    }

    /// Component-wise sum.
    #[verifier::when_used_as_spec(spec_plus)]
    pub fn plus(self, other: Vec3) -> (v: Self)
        ensures
            v == self.spec_plus(other),
    {
        Vec3 { x: self.x.plus(other.x), y: self.y.plus(other.y), z: self.z.plus(other.z) }
    }

    /// Component-wise difference.
    pub open spec fn spec_minus(self, other: Vec3) -> Vec3 {
        Vec3 { x: self.x.minus(other.x), y: self.y.minus(other.y), z: self.z.minus(other.z) }
    }

    /// Component-wise difference.
    #[verifier::when_used_as_spec(spec_minus)]
    pub fn minus(self, other: Vec3) -> (v: Self)
        ensures
            v == self.spec_minus(other),
    {
        Vec3 { x: self.x.minus(other.x), y: self.y.minus(other.y), z: self.z.minus(other.z) }
    }

    /// The opposite direction.
    pub open spec fn spec_negated(self) -> Vec3 {
        Vec3 { x: self.x.negated(), y: self.y.negated(), z: self.z.negated() }
    }

    /// The opposite direction.
    #[verifier::when_used_as_spec(spec_negated)]
    pub fn negated(self) -> (v: Self)
        ensures
            v == self.spec_negated(),
    {
        Vec3 { x: self.x.negated(), y: self.y.negated(), z: self.z.negated() }
    }

    /// Each component multiplied by `k`.
    pub open spec fn spec_scaled(self, k: Scalar) -> Vec3 {
        Vec3 { x: self.x.times(k), y: self.y.times(k), z: self.z.times(k) }
    }

    /// Each component multiplied by `k`.
    #[verifier::when_used_as_spec(spec_scaled)]
    pub fn scaled(self, k: Scalar) -> (v: Self)
        ensures
            v == self.spec_scaled(k),
    {
        Vec3 { x: self.x.times(k), y: self.y.times(k), z: self.z.times(k) }
    }

    /// Each component divided by `k`.
    pub open spec fn spec_divided(self, k: Scalar) -> Vec3
        recommends
            k@ != 0,
    {
        Vec3 { x: self.x.over(k), y: self.y.over(k), z: self.z.over(k) }
    }

    /// Each component divided by `k`.
    #[verifier::when_used_as_spec(spec_divided)]
    pub fn divided(self, k: Scalar) -> (v: Self)
        requires
            k@ != 0,
        ensures
            v == self.spec_divided(k),
    {
        Vec3 { x: self.x.over(k), y: self.y.over(k), z: self.z.over(k) }
    }

    /// Component-wise product, which attenuates one colour by another.
    pub open spec fn spec_times(self, other: Vec3) -> Vec3 {
        Vec3 { x: self.x.times(other.x), y: self.y.times(other.y), z: self.z.times(other.z) }
    }

    /// Component-wise product, which attenuates one colour by another.
    #[verifier::when_used_as_spec(spec_times)]
    pub fn times(self, other: Vec3) -> (v: Self)
        ensures
            v == self.spec_times(other),
    {
        Vec3 { x: self.x.times(other.x), y: self.y.times(other.y), z: self.z.times(other.z) }
    }

    /// Raw count of the dot product: the three products, each rounded down,
    /// summed and saturated.
    pub open spec fn dot_raw(self, other: Vec3) -> int {
        sat(
            (self.x@ * other.x@) / 0x1_0000_0000 + (self.y@ * other.y@) / 0x1_0000_0000 + (self.z@
                * other.z@) / 0x1_0000_0000,
        )
    }

    /// The dot product.
    pub open spec fn spec_dot(self, other: Vec3) -> Scalar {
        Scalar { raw: self.dot_raw(other) as i64 }
    }

    /// The dot product.
    #[verifier::when_used_as_spec(spec_dot)]
    pub fn dot(self, other: Vec3) -> (d: Scalar)
        ensures
            d == self.spec_dot(other),
    {
        let px: i128 = wide_product(self.x.raw, other.x.raw, 0x1_0000_0000);
        let py: i128 = wide_product(self.y.raw, other.y.raw, 0x1_0000_0000);
        let pz: i128 = wide_product(self.z.raw, other.z.raw, 0x1_0000_0000);
        Scalar { raw: saturate(px + py + pz) }
    }

    /// The exact dot product, in units of 2^-64: the sum of the three
    /// products of the raw counts, with nothing rounded.
    pub open spec fn dot_exact(self, other: Vec3) -> int {
        self.x@ * other.x@ + self.y@ * other.y@ + self.z@ * other.z@
    }

    /// Whether the exact dot product is above 0.
    pub fn dot_is_positive(self, other: Vec3) -> (b: bool)
        ensures
            b == (self.dot_exact(other) > 0),
    {
        let px: i128 = exact_product(self.x.raw, other.x.raw);
        let py: i128 = exact_product(self.y.raw, other.y.raw);
        let pz: i128 = exact_product(self.z.raw, other.z.raw);
        // The parts above 0 and the parts below 0, summed apart: neither sum
        // leaves the range of its type.
        let mut above: u128 = 0;
        let mut below: u128 = 0;
        if px >= 0 {
            above = above + px as u128;
        } else {
            below = below + (-px) as u128;
        }
        if py >= 0 {
            above = above + py as u128;
        } else {
            below = below + (-py) as u128;
        }
        if pz >= 0 {
            above = above + pz as u128;
        } else {
            below = below + (-pz) as u128;
        }
        assert(above - below == px + py + pz);
        above > below
    }

    /// This vector with each component within the range in which every
    /// number has an opposite: the lowest number becomes the opposite of the
    /// highest.
    pub open spec fn spec_balanced(self) -> Vec3 {
        Vec3 { x: balanced_scalar(self.x), y: balanced_scalar(self.y), z: balanced_scalar(self.z) }
    }

    /// This vector with each component within the range in which every
    /// number has an opposite: the lowest number becomes the opposite of the
    /// highest.
    #[verifier::when_used_as_spec(spec_balanced)]
    pub fn balanced(self) -> (v: Self)
        ensures
            v == self.spec_balanced(),
    {
        Vec3 { x: balance(self.x), y: balance(self.y), z: balance(self.z) }
    }

    /// The sum of the squares of the raw counts of the components.
    pub open spec fn norm_sq(self) -> int {
        self.x@ * self.x@ + self.y@ * self.y@ + self.z@ * self.z@
    }

    /// The raw count of the Euclidean length, rounded down.
    pub open spec fn norm(self) -> int {
        int_sqrt(self.norm_sq())
    }

    /// The raw length as an unsigned integer.
    fn raw_length(self) -> (len: u64)
        ensures
            len == self.norm(),
            is_sqrt(self.norm_sq(), len as int),
    {
        isqrt(square(self.x.raw) + square(self.y.raw) + square(self.z.raw))
    }

    /// The Euclidean length, rounded down and saturated.
    pub open spec fn spec_length(self) -> Scalar {
        Scalar { raw: sat(self.norm()) as i64 }
    }

    /// The Euclidean length, rounded down and saturated.
    #[verifier::when_used_as_spec(spec_length)]
    pub fn length(self) -> (l: Scalar)
        ensures
            l == self.spec_length(),
    {
        Scalar { raw: saturate(self.raw_length() as i128) }
    }

    /// The vector of length 1 in the same direction: each component divided by
    /// the length and rounded down. Every component of the result lies between
    /// -1 and 1.
    pub open spec fn spec_unit(self) -> Vec3
        recommends
            !self.is_zero(),
    {
        Vec3 {
            x: Scalar { raw: unit_component(self.x@, self.norm()) as i64 },
            y: Scalar { raw: unit_component(self.y@, self.norm()) as i64 },
            z: Scalar { raw: unit_component(self.z@, self.norm()) as i64 },
        }
    }

    /// The vector of length 1 in the same direction: each component divided by
    /// the length and rounded down. Every component of the result lies between
    /// -1 and 1, and not all of them are 0.
    #[verifier::when_used_as_spec(spec_unit)]
    pub fn unit(self) -> (u: Self)
        requires
            !self.is_zero(),
        ensures
            u == self.spec_unit(),
            u.x@ == unit_component(self.x@, self.norm()),
            u.y@ == unit_component(self.y@, self.norm()),
            u.z@ == unit_component(self.z@, self.norm()),
            u.within_unit_box(),
            !u.is_zero(),
    {
        let len: u64 = self.raw_length();
        proof {
            let (x, y, z) = (self.x@, self.y@, self.z@);
            assert(x * x >= 0 && y * y >= 0 && z * z >= 0) by (nonlinear_arith);
            assert(x != 0 ==> x * x > 0) by (nonlinear_arith);
            assert(y != 0 ==> y * y > 0) by (nonlinear_arith);
            assert(z != 0 ==> z * z > 0) by (nonlinear_arith);
            assert(len > 0);
            lemma_component_within_length(x, y * y + z * z, len as int);
            lemma_component_within_length(y, x * x + z * z, len as int);
            lemma_component_within_length(z, x * x + y * y, len as int);
            lemma_unit_component_bounds(x, len as int);
            lemma_unit_component_bounds(y, len as int);
            lemma_unit_component_bounds(z, len as int);
            lemma_unit_is_not_zero(self);
        }
        let d: i128 = len as i128;
        let ux: i128 = floor_div((self.x.raw as i128) * 0x1_0000_0000i128, d);
        let uy: i128 = floor_div((self.y.raw as i128) * 0x1_0000_0000i128, d);
        let uz: i128 = floor_div((self.z.raw as i128) * 0x1_0000_0000i128, d);
        Vec3 {
            x: Scalar { raw: ux as i64 },
            y: Scalar { raw: uy as i64 },
            z: Scalar { raw: uz as i64 },
        }
    }

    /// Whether every component lies between -1 and 1.
    pub open spec fn within_unit_box(self) -> bool {
        &&& -0x1_0000_0000 <= self.x@ <= 0x1_0000_0000
        &&& -0x1_0000_0000 <= self.y@ <= 0x1_0000_0000
        &&& -0x1_0000_0000 <= self.z@ <= 0x1_0000_0000
    }
}

} // verus!
