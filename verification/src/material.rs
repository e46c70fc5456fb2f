//! Materials: what becomes of a ray where it meets a surface.

use vstd::prelude::*;
use std::sync::Arc;
use crate::ray::Ray;
use crate::scalar::Scalar;
use crate::texture::texture;
use crate::vec3::Vec3;

verus! {

/// What a material sees of an intersection: the point, the normal that faces
/// the incoming ray, the distance along the ray, the surface coordinates and
/// the side that was struck.
#[derive(Clone, Copy, PartialEq, Eq, Structural, Debug)]
pub struct Contact {
    pub p: Vec3,
    pub normal: Vec3,
    pub t: Scalar,
    pub u: Scalar,
    pub v: Scalar,
    pub front_face: bool,
}

/// A scatter decision. `sample` is a direction drawn at random by the caller;
/// given it, the decision is a function of the arguments.
pub trait Material {
    /// The attenuation and the scattered ray, or `None` where the ray is
    /// absorbed.
    spec fn scattered(&self, r_in: Ray, at: Contact, sample: Vec3) -> Option<(Vec3, Ray)>;

    /// Decides whether the ray `r_in` that arrives at `at` goes on, and if so
    /// with which attenuation and along which ray.
    fn scatter(&self, r_in: &Ray, at: &Contact, sample: Vec3) -> (out: Option<(Vec3, Ray)>)
        ensures
            out == self.scattered(*r_in, *at, sample),
    ;
}

/// The direction of `sample` or of its opposite that lies in the hemisphere
/// around `normal`: the balanced sample where its exact dot product with the
/// normal is above 0, else the opposite of the balanced sample.
pub open spec fn spec_on_hemisphere(normal: Vec3, sample: Vec3) -> Vec3 {
    if sample.balanced().dot_exact(normal) > 0 {
        sample.balanced()
    } else {
        sample.balanced().negated()
    }
}

/// Turns `sample` into the hemisphere around `normal`. The exact dot product
/// of the result and the normal is never below 0.
#[verifier::when_used_as_spec(spec_on_hemisphere)]
pub fn on_hemisphere(normal: Vec3, sample: Vec3) -> (d: Vec3)
    ensures
        d == spec_on_hemisphere(normal, sample),
        d.dot_exact(normal) >= 0,
        sample.within_unit_box() ==> d == sample || d == sample.negated(),
{
    let on_unit_sphere = sample.balanced();
    if on_unit_sphere.dot_is_positive(normal) {
        on_unit_sphere
    } else {
        let opposite = on_unit_sphere.negated();
        proof {
            assert(opposite.x@ * normal.x@ == -(on_unit_sphere.x@ * normal.x@))
                by (nonlinear_arith)
                requires
                    opposite.x@ == -on_unit_sphere.x@,
            ;
            assert(opposite.y@ * normal.y@ == -(on_unit_sphere.y@ * normal.y@))
                by (nonlinear_arith)
                requires
                    opposite.y@ == -on_unit_sphere.y@,
            ;
            assert(opposite.z@ * normal.z@ == -(on_unit_sphere.z@ * normal.z@))
                by (nonlinear_arith)
                requires
                    opposite.z@ == -on_unit_sphere.z@,
            ;
        }
        opposite
    }
}

/// A matte surface: it scatters every ray into the hemisphere around the
/// normal and attenuates it by the colour of its texture.
pub struct Diffuse<T: texture + ?Sized> {
    pub albedo: Arc<T>,
}

impl<T: texture + ?Sized> Diffuse<T> {
    /// The matte material with the given texture.
    pub fn new(albedo: Arc<T>) -> (m: Self)
        ensures
            m.albedo == albedo,
    {
        Diffuse { albedo }
    }
}

impl<T: texture + ?Sized> Material for Diffuse<T> {
    open spec fn scattered(&self, r_in: Ray, at: Contact, sample: Vec3) -> Option<(Vec3, Ray)> {
        Some((self.albedo.color(at.u, at.v, at.p), Ray::new(at.p, on_hemisphere(at.normal, sample))))
    }

    fn scatter(&self, r_in: &Ray, at: &Contact, sample: Vec3) -> (out: Option<(Vec3, Ray)>) {
        let direction = on_hemisphere(at.normal, sample);
        Some((self.albedo.value(at.u, at.v, &at.p), Ray::new(at.p, direction)))
    }
}

} // verus!
