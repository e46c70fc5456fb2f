//! Rays: half-lines from an origin along a direction.

use vstd::prelude::*;
use crate::scalar::Scalar;
use crate::vec3::Vec3;

verus! {

/// A ray from `orig` along `dir`, cast at time `tm`. The direction need not
/// have length 1.
#[derive(Clone, Copy, PartialEq, Eq, Structural, Debug)]
pub struct Ray {
    pub orig: Vec3,
    pub dir: Vec3,
    pub tm: Scalar,
}

impl Ray {
    /// The ray from `orig` along `dir` at time 0.
    pub open spec fn spec_new(orig: Vec3, dir: Vec3) -> Ray {
        Ray { orig, dir, tm: Scalar::zero() }
    }

    /// The ray from `orig` along `dir` at time 0.
    #[verifier::when_used_as_spec(spec_new)]
    pub fn new(orig: Vec3, dir: Vec3) -> (r: Self)
        ensures
            r == Self::spec_new(orig, dir),
    {
        Self { orig, dir, tm: Scalar::zero() }
    }

    /// The ray from `orig` along `dir` at time `tm`.
    pub fn new_with_time(orig: Vec3, dir: Vec3, tm: Scalar) -> (r: Self)
        ensures
            r == (Ray { orig, dir, tm }),
    {
        Self { orig, dir, tm }
    }

    /// Where the ray starts.
    pub fn origin(&self) -> (o: Vec3)
        ensures
            o == self.orig,
    {
        self.orig
    }

    /// Where the ray points.
    pub fn direction(&self) -> (d: Vec3)
        ensures
            d == self.dir,
    {
        self.dir
    }

    /// When the ray was cast.
    pub fn time(&self) -> (t: Scalar)
        ensures
            t == self.tm,
    {
        self.tm
    }

    /// The point at parameter `t`: the origin plus `t` times the direction.
    pub open spec fn spec_at(&self, t: Scalar) -> Vec3 {
        self.dir.scaled(t).plus(self.orig)
    }

    /// The point at parameter `t`: the origin plus `t` times the direction.
    #[verifier::when_used_as_spec(spec_at)]
    pub fn at(&self, t: Scalar) -> (p: Vec3)
        ensures
            p == self.spec_at(t),
    {
        let res = Vec3::new(self.dir.x.times(t), self.dir.y.times(t), self.dir.z.times(t));
        res.plus(self.orig)
    }
}

} // verus!
