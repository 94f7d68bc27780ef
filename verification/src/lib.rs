//! A stochastic ray tracer.
//!
//! A scene is a list of spheres, each with a material; materials may be
//! colored by textures. [`shading::ray_color`] follows a ray through the
//! scene, bounce by bounce, and returns the color that arrives along it.
//! All numbers are double-precision floating-point [`scalar::Scalar`]s,
//! computed on their bit patterns.
pub mod color;
pub mod hittable;
pub mod hittable_list;
pub mod material;
pub mod perlin_noise;
pub mod point3;
pub mod random;
pub mod ray;
pub mod scalar;
pub mod shading;
pub mod sphere;
pub mod texture;
pub mod trig;
pub mod triple;
pub mod vec3;

pub use color::Color;
pub use hittable::{HitRecord, Hittable};
pub use hittable_list::HittableList;
pub use material::{Lambertian, Material, Scatter};
pub use point3::Point3;
pub use ray::Ray;
pub use scalar::Scalar;
pub use sphere::Sphere;
pub use vec3::Vec3;

use vstd::prelude::*;

verus! {

/// Largest value of a channel of an encoded pixel.
pub const MAX_VALUE: u32 = 255;

} // verus!
