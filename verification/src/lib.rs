//! The core of a Monte Carlo ray tracer over fixed-point numbers: rays, the
//! intersection protocol, closest-hit resolution over a collection, textures,
//! and a camera that integrates colour along sampled rays.

pub mod aabb;
pub mod camera;
pub mod canvas;
pub mod color;
pub mod hittable;
pub mod hittable_list;
pub mod interval;
pub mod material;
pub mod ray;
pub mod sampler;
pub mod scalar;
pub mod sphere;
pub mod texture;
pub mod vec3;
