//! A path tracer: rays from a camera are followed through a scene of spheres
//! and the light they bring back is averaged into the pixels of an image.
//!
//! Scalars are IEEE-754 binary32 values held by their bit patterns. Signs,
//! zeros, comparison and the conversions to and from integers are integer
//! logic, proved here; rounding comes from a software floating-point
//! library, so that every result is a function of the operand bits alone.
//! Where a value of a scalar cannot be computed (the unit vector of a zero
//! vector, a sphere of radius zero), the NaN that arises runs on through the
//! arithmetic and ends as channel 0 in the image; nothing fails.
//!
//! - `scalar`: scalars, their order and their arithmetic
//! - `utils`: random scalars
//! - `vec3`: vectors, reflection, refraction, random directions
//! - `ray`: rays
//! - `hittable`: hit records, the intersection capability, the scene
//! - `sphere`: the sphere
//! - `material`: matte, polished and clear surfaces
//! - `texture`: solid colours
//! - `camera`: the viewport, rays through pixels, the colour of a ray, the image
//! - `ppm`: the image as text

pub mod scalar;
pub mod utils;
pub mod vec3;
pub mod ray;
pub mod hittable;
pub mod material;
pub mod sphere;
pub mod texture;
pub mod camera;
pub mod ppm;
