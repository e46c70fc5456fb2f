//! Ranges of fixed-point numbers.

use vstd::prelude::*;
use crate::scalar::Scalar;

verus! {

/// The numbers from `min` to `max`. Nothing forces `min <= max`: a range with
/// `min > max` holds no number.
#[derive(Clone, Copy, PartialEq, Eq, Structural, Debug)]
pub struct Interval {
    pub min: Scalar,
    pub max: Scalar,
}

impl Interval {
    /// The range from `min` to `max`.
    pub open spec fn spec_new(min: Scalar, max: Scalar) -> Interval {
        Interval { min, max }
    }

    /// The range from `min` to `max`.
    #[verifier::when_used_as_spec(spec_new)]
    pub fn new(min: Scalar, max: Scalar) -> (i: Self)
        ensures
            i == Self::spec_new(min, max),
    {
        Interval { min, max }
    }

    /// The range that holds no number.
    pub open spec fn spec_empty() -> Interval {
        Interval { min: Scalar { raw: i64::MAX }, max: Scalar { raw: i64::MIN } }
    }

    /// The range that holds no number.
    #[verifier::when_used_as_spec(spec_empty)]
    pub fn empty() -> (i: Self)
        ensures
            i == Self::spec_empty(),
    {
        Interval { min: Scalar { raw: i64::MAX }, max: Scalar { raw: i64::MIN } }
    }

    /// Whether `x` lies in the range, ends included.
    pub open spec fn spec_contains(self, x: Scalar) -> bool {
        self.min@ <= x@ <= self.max@
    }

    /// Whether `x` lies in the range, ends included.
    #[verifier::when_used_as_spec(spec_contains)]
    pub fn contains(self, x: Scalar) -> (b: bool)
        ensures
            b == self.spec_contains(x),
    {
        self.min.raw <= x.raw && x.raw <= self.max.raw
    }

    /// Whether `x` lies strictly inside the range.
    pub open spec fn spec_surrounds(self, x: Scalar) -> bool {
        self.min@ < x@ < self.max@
    }

    /// Whether `x` lies strictly inside the range.
    #[verifier::when_used_as_spec(spec_surrounds)]
    pub fn surrounds(self, x: Scalar) -> (b: bool)
        ensures
            b == self.spec_surrounds(x),
    {
        self.min.raw < x.raw && x.raw < self.max.raw
    }

    /// The number of the range that is nearest to `x`.
    pub open spec fn spec_clamp(self, x: Scalar) -> Scalar {
        if x@ < self.min@ {
            self.min
        } else if x@ > self.max@ {
            self.max
        } else {
            x
        }
    }

    /// The number of the range that is nearest to `x`.
    #[verifier::when_used_as_spec(spec_clamp)]
    pub fn clamp(self, x: Scalar) -> (c: Scalar)
        ensures
            c == self.spec_clamp(x),
    {
        if x.raw < self.min.raw {
            self.min
        } else if x.raw > self.max.raw {
            self.max
        } else {
            x
        }
    }

    /// The smallest range that holds both ranges.
    pub open spec fn spec_enclose(self, other: Interval) -> Interval {
        Interval {
            min: if self.min@ <= other.min@ {
                self.min
            } else {
                other.min
            },
            max: if self.max@ >= other.max@ {
                self.max
            } else {
                other.max
            },
        }
    }

    /// The smallest range that holds both ranges.
    #[verifier::when_used_as_spec(spec_enclose)]
    pub fn enclose(self, other: Interval) -> (i: Self)
        ensures
            i == self.spec_enclose(other),
    {
        Interval {
            min: if self.min.raw <= other.min.raw {
                self.min
            } else {
                other.min
            },
            max: if self.max.raw >= other.max.raw {
                self.max
            } else {
                other.max
            },
        }
    }
}

} // verus!
