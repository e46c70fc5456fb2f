//! Axis-aligned bounding boxes.

use vstd::prelude::*;
use crate::interval::Interval;

verus! {

/// A box with sides parallel to the axes: one range per axis.
#[allow(non_camel_case_types)]
#[derive(Clone, Copy, PartialEq, Eq, Structural, Debug)]
pub struct aabb {
    pub x: Interval,
    pub y: Interval,
    pub z: Interval,
}

impl aabb {
    /// The box with the given extent along each axis.
    pub open spec fn spec_new(x: Interval, y: Interval, z: Interval) -> aabb {
        aabb { x, y, z }
    }

    /// The box with the given extent along each axis.
    #[verifier::when_used_as_spec(spec_new)]
    pub fn new(x: Interval, y: Interval, z: Interval) -> (b: Self)
        ensures
            b == Self::spec_new(x, y, z),
    {
        aabb { x, y, z }
    }

    /// The box that holds no point.
    pub open spec fn spec_empty() -> aabb {
        aabb { x: Interval::empty(), y: Interval::empty(), z: Interval::empty() }
    }

    /// The box that holds no point.
    #[verifier::when_used_as_spec(spec_empty)]
    pub fn empty() -> (b: Self)
        ensures
            b == Self::spec_empty(),
    {
        aabb { x: Interval::empty(), y: Interval::empty(), z: Interval::empty() }
    }

    /// The smallest box that holds both boxes.
    pub open spec fn spec_enclose(self, other: aabb) -> aabb {
        aabb {
            x: self.x.enclose(other.x),
            y: self.y.enclose(other.y),
            z: self.z.enclose(other.z),
        }
    }

    /// The smallest box that holds both boxes.
    #[verifier::when_used_as_spec(spec_enclose)]
    pub fn enclose(self, other: aabb) -> (b: Self)
        ensures
            b == self.spec_enclose(other),
    {
        aabb {
            x: self.x.enclose(other.x),
            y: self.y.enclose(other.y),
            z: self.z.enclose(other.z),
        }
    }

    /// Whether this box holds all of `other`, axis by axis.
    pub open spec fn covers(self, other: aabb) -> bool {
        &&& self.x.min@ <= other.x.min@ && other.x.max@ <= self.x.max@
        &&& self.y.min@ <= other.y.min@ && other.y.max@ <= self.y.max@
        &&& self.z.min@ <= other.z.min@ && other.z.max@ <= self.z.max@
    }
}

} // verus!
