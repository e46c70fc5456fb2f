//! The intersection protocol: what a ray can be tested against, and the record
//! of where it struck.

use vstd::prelude::*;
use std::rc::Rc;
use crate::aabb::aabb;
use crate::interval::Interval;
use crate::material::Contact;
use crate::material::Material;
use crate::ray::Ray;
use crate::scalar::Scalar;
use crate::vec3::Vec3;

verus! {

/// Where a ray struck a surface: the point `p`, the unit `normal` that faces
/// the incoming ray, the material of the surface if it has one, the distance
/// `t` along the ray, the surface coordinates `(u, v)`, and whether the outer
/// side was struck.
#[allow(non_camel_case_types)]
pub struct hit_record {
    pub p: Vec3,
    pub normal: Vec3,
    pub mat: Option<Rc<dyn Material>>,
    pub t: Scalar,
    pub u: Scalar,
    pub v: Scalar,
    pub front_face: bool,
}

/// Whether a ray along `dir` strikes the outer side of a surface with the
/// outward normal `outward_normal`.
pub open spec fn faces_front(dir: Vec3, outward_normal: Vec3) -> bool {
    dir.dot(outward_normal)@ < 0
}

/// The normal that faces a ray along `dir`: the outward normal where the outer
/// side is struck, its opposite elsewhere.
pub open spec fn facing_normal(dir: Vec3, outward_normal: Vec3) -> Vec3 {
    if faces_front(dir, outward_normal) {
        outward_normal
    } else {
        outward_normal.negated()
    }
}

/// The normal that faces a ray never points along it: its dot product with
/// the direction of the ray is not positive, and it is negative wherever the
/// dot product of the direction and the outward normal is not 0, on the front
/// and on the back. This holds wherever the opposite of the outward normal
/// can be formed exactly.
pub proof fn lemma_normal_faces_ray(dir: Vec3, outward_normal: Vec3)
    requires
        outward_normal.x@ > i64::MIN,
        outward_normal.y@ > i64::MIN,
        outward_normal.z@ > i64::MIN,
    ensures
        dir.dot(facing_normal(dir, outward_normal))@ <= 0,
        dir.dot(outward_normal)@ != 0 ==> dir.dot(facing_normal(dir, outward_normal))@ < 0,
{
    if !faces_front(dir, outward_normal) {
        let n = outward_normal.negated();
        assert(dir.x@ * n.x@ == -(dir.x@ * outward_normal.x@)) by (nonlinear_arith)
            requires
                n.x@ == -outward_normal.x@,
        ;
        assert(dir.y@ * n.y@ == -(dir.y@ * outward_normal.y@)) by (nonlinear_arith)
            requires
                n.y@ == -outward_normal.y@,
        ;
        assert(dir.z@ * n.z@ == -(dir.z@ * outward_normal.z@)) by (nonlinear_arith)
            requires
                n.z@ == -outward_normal.z@,
        ;
    }
}

impl hit_record {
    /// The record before any hit: all zero, no material.
    pub open spec fn spec_empty() -> hit_record {
        hit_record {
            p: Vec3::zero(),
            normal: Vec3::zero(),
            mat: None,
            t: Scalar::zero(),
            u: Scalar::zero(),
            v: Scalar::zero(),
            front_face: false,
        }
    }

    /// The record before any hit: all zero, no material.
    #[verifier::when_used_as_spec(spec_empty)]
    pub fn empty() -> (rec: Self)
        ensures
            rec == Self::spec_empty(),
    {
        hit_record {
            p: Vec3::zero(),
            normal: Vec3::zero(),
            mat: None,
            t: Scalar::zero(),
            u: Scalar::zero(),
            v: Scalar::zero(),
            front_face: false,
        }
    }

    /// Sets `front_face` and `normal` from the ray and the outward normal of
    /// the surface, so that the stored normal faces the ray.
    pub fn set_face_normal(&mut self, r: &Ray, outward_normal: Vec3)
        ensures
            final(self).front_face == faces_front(r.dir, outward_normal),
            final(self).normal == facing_normal(r.dir, outward_normal),
            final(self).p == old(self).p,
            final(self).mat == old(self).mat,
            final(self).t == old(self).t,
            final(self).u == old(self).u,
            final(self).v == old(self).v,
    {
        self.front_face = r.direction().dot(outward_normal).raw < 0;
        self.normal = if self.front_face {
            outward_normal
        } else {
            outward_normal.negated()
        };
    }

    /// The geometry of the hit, without the material.
    pub open spec fn spec_contact(&self) -> Contact {
        Contact {
            p: self.p,
            normal: self.normal,
            t: self.t,
            u: self.u,
            v: self.v,
            front_face: self.front_face,
        }
    }

    /// The geometry of the hit, without the material.
    #[verifier::when_used_as_spec(spec_contact)]
    pub fn contact(&self) -> (c: Contact)
        ensures
            c == self.spec_contact(),
    {
        Contact {
            p: self.p,
            normal: self.normal,
            t: self.t,
            u: self.u,
            v: self.v,
            front_face: self.front_face,
        }
    }
}

/// Anything a ray can be tested against.
pub trait Hittable {
    /// The first place beyond the distance `after` where the ray `r` strikes,
    /// if there is one.
    spec fn nearest(&self, r: Ray, after: Scalar) -> Option<hit_record>;

    /// Tests the ray against this object. Returns `true`, with the hit in
    /// `rec`, exactly when the ray strikes at a distance strictly inside
    /// `ray_t`; the hit is then the first one beyond `ray_t.min`.
    fn hit(&self, r: &Ray, ray_t: Interval, rec: &mut hit_record) -> (found: bool)
        ensures
            found <==> (self.nearest(*r, ray_t.min) matches Some(h) && h.t@ < ray_t.max@),
            found ==> self.nearest(*r, ray_t.min) == Some(*final(rec)) && ray_t.surrounds(
                final(rec).t,
            ),
    ;

    /// The box that encloses this object.
    spec fn bounds(&self) -> aabb;

    /// Computes the box that encloses this object.
    fn bounding_box(&self) -> (b: aabb)
        ensures
            b == self.bounds(),
    ;
}

} // verus!
