//! The sphere: the one shape that the library brings along.

use vstd::prelude::*;
use vstd::arithmetic::div_mod::lemma_div_is_ordered;
use std::rc::Rc;
use crate::aabb::aabb;
use crate::hittable::faces_front;
use crate::hittable::facing_normal;
use crate::hittable::hit_record;
use crate::hittable::Hittable;
use crate::interval::Interval;
use crate::material::Material;
use crate::ray::Ray;
use crate::scalar::lemma_sqrt_bound;
use crate::scalar::Scalar;
use crate::vec3::Vec3;

verus! {

/// A sphere around `center`. One with a radius of 0 or less is struck by no
/// ray.
pub struct Sphere {
    pub center: Vec3,
    pub radius: Scalar,
    pub mat: Option<Rc<dyn Material>>,
}

/// Calls `Rc::clone` of std, which hands out another pointer to the same
/// value.
#[verifier::external_body]
fn share<T: ?Sized>(pointer: &Rc<T>) -> (other: Rc<T>)
    ensures
        other == *pointer,
{
    Rc::clone(pointer)
}

/// Division by a positive number keeps the order.
proof fn lemma_over_is_ordered(x: Scalar, y: Scalar, a: Scalar)
    requires
        x@ <= y@,
        a@ > 0,
    ensures
        x.over(a)@ <= y.over(a)@,
{
    lemma_div_is_ordered(x@ * 0x1_0000_0000, y@ * 0x1_0000_0000, a@);
}

impl Sphere {
    /// The sphere with the given centre, radius and material.
    pub fn new(center: Vec3, radius: Scalar, mat: Option<Rc<dyn Material>>) -> (s: Self)
        ensures
            s.center == center,
            s.radius == radius,
            s.mat == mat,
    {
        Sphere { center, radius, mat }
    }

    /// The two distances along the ray at which it crosses the surface, the
    /// nearer first: the roots of `a t^2 - 2 h t + c = 0` with `a` the squared
    /// length of the direction, `h` the dot product of the direction and the
    /// vector to the centre, and `c` the squared distance to the centre less
    /// the squared radius. There are none where the ray passes by, where it
    /// has no direction, and where the radius is 0 or less.
    pub open spec fn crossings(&self, r: Ray) -> Option<(Scalar, Scalar)> {
        let oc = self.center.minus(r.orig);
        let a = r.dir.dot(r.dir);
        let h = r.dir.dot(oc);
        let c = oc.dot(oc).minus(self.radius.times(self.radius));
        let discriminant = h.times(h).minus(a.times(c));
        if self.radius@ <= 0 || a@ <= 0 || discriminant@ < 0 {
            None
        } else {
            let sqrtd = discriminant.sqrt();
            Some((h.minus(sqrtd).over(a), h.plus(sqrtd).over(a)))
        }
    }

    /// The record of the hit at the distance `t` along the ray. The surface
    /// coordinates are left at 0.
    pub open spec fn record_at(&self, r: Ray, t: Scalar) -> hit_record {
        let p = r.at(t);
        let outward_normal = p.minus(self.center).divided(self.radius);
        hit_record {
            p,
            normal: facing_normal(r.dir, outward_normal),
            mat: self.mat,
            t,
            u: Scalar::zero(),
            v: Scalar::zero(),
            front_face: faces_front(r.dir, outward_normal),
        }
    }

    /// Of two crossings the first is the nearer.
    pub proof fn lemma_crossings_ordered(&self, r: Ray)
        ensures
            self.crossings(r) matches Some(roots) ==> roots.0@ <= roots.1@,
    {
        let oc = self.center.minus(r.orig);
        let a = r.dir.dot(r.dir);
        let h = r.dir.dot(oc);
        let c = oc.dot(oc).minus(self.radius.times(self.radius));
        let discriminant = h.times(h).minus(a.times(c));
        if !(self.radius@ <= 0 || a@ <= 0 || discriminant@ < 0) {
            let sqrtd = discriminant.sqrt();
            lemma_sqrt_bound(discriminant@ * 0x1_0000_0000);
            lemma_over_is_ordered(h.minus(sqrtd), h.plus(sqrtd), a);
        }
    }
}

impl Hittable for Sphere {
    open spec fn nearest(&self, r: Ray, after: Scalar) -> Option<hit_record> {
        match self.crossings(r) {
            None => None,
            Some((near, far)) => if after@ < near@ {
                Some(self.record_at(r, near))
            } else if after@ < far@ {
                Some(self.record_at(r, far))
            } else {
                None
            },
        }
    }

    fn hit(&self, r: &Ray, ray_t: Interval, rec: &mut hit_record) -> (found: bool)
        ensures
            !found ==> *final(rec) == *old(rec),
    {
        if self.radius.raw <= 0 {
            return false;
        }
        let oc = self.center.minus(r.origin());
        let a = r.direction().dot(r.direction());
        let h = r.direction().dot(oc);
        let c = oc.dot(oc).minus(self.radius.times(self.radius));
        let discriminant = h.times(h).minus(a.times(c));
        if a.raw <= 0 || discriminant.raw < 0 {
            return false;
        }
        let sqrtd = discriminant.sqrt();
        proof {
            self.lemma_crossings_ordered(*r);
        }
        // The nearer crossing that lies in the window.
        let mut root = h.minus(sqrtd).over(a);
        if !ray_t.surrounds(root) {
            root = h.plus(sqrtd).over(a);
            if !ray_t.surrounds(root) {
                return false;
            }
        }
        let mat = match &self.mat {
            Some(m) => Some(share(m)),
            None => None,
        };
        rec.t = root;
        rec.p = r.at(rec.t);
        let outward_normal = rec.p.minus(self.center).divided(self.radius);
        rec.set_face_normal(r, outward_normal);
        rec.mat = mat;
        rec.u = Scalar::zero();
        rec.v = Scalar::zero();
        true
    }

    open spec fn bounds(&self) -> aabb {
        aabb::new(
            Interval::new(self.center.x.minus(self.radius), self.center.x.plus(self.radius)),
            Interval::new(self.center.y.minus(self.radius), self.center.y.plus(self.radius)),
            Interval::new(self.center.z.minus(self.radius), self.center.z.plus(self.radius)),
        )
    }

    fn bounding_box(&self) -> (b: aabb) {
        aabb::new(
            Interval::new(self.center.x.minus(self.radius), self.center.x.plus(self.radius)),
            Interval::new(self.center.y.minus(self.radius), self.center.y.plus(self.radius)),
            Interval::new(self.center.z.minus(self.radius), self.center.z.plus(self.radius)),
        )
    }
}

} // verus!
