//! Textures: the colour of a surface at a point. Only the solid colour is
//! provided.

use vstd::prelude::*;
use crate::scalar::Scalar;
use crate::vec3::Vec3;

verus! {

/// The colour of a surface at the surface coordinates `(u, v)` and the point
/// `p`.
pub trait Texture {
    spec fn value_spec(&self, u: Scalar, v: Scalar, p: Vec3) -> Vec3;

    fn value(&self, u: Scalar, v: Scalar, p: &Vec3) -> (c: Vec3)
        ensures
            c == self.value_spec(u, v, *p),
    ;
}

/// A colour that is the same everywhere.
pub type Solid = Vec3;

impl Vec3 {
    pub fn from_colour(x: Scalar, y: Scalar, z: Scalar) -> (c: Solid)
        ensures
            c == (Vec3 { x, y, z }),
    {
        Vec3::from_point(x, y, z)
    }
}

impl Texture for Solid {
    open spec fn value_spec(&self, u: Scalar, v: Scalar, p: Vec3) -> Vec3 {
        *self
    }

    fn value(&self, u: Scalar, v: Scalar, p: &Vec3) -> (c: Vec3) {
        *self
    }
}

} // verus!
