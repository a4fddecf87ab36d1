//! A ray: an origin, a direction and the time at which it travels.

use vstd::prelude::*;
use crate::scalar::Scalar;
use crate::vec3::{Point3, Vec3};

verus! {

#[derive(Clone, Copy, Debug)]
pub struct Ray {
    pub origin: Point3,
    pub direction: Vec3,
    pub time: Scalar,
}

impl Ray {
    /// `origin + t * direction`.
    pub open spec fn at_spec(self, t: Scalar) -> Vec3 {
        self.origin.add_spec(self.direction.mul_spec(t))
    }

    /// The ray of length zero at the origin, at time zero.
    pub fn new() -> (r: Ray)
        ensures
            r == (Ray {
                origin: Vec3::zero_spec(),
                direction: Vec3::zero_spec(),
                time: Scalar { bits: 0 },
            }),
    {
        Ray { origin: Vec3::new(), direction: Vec3::new(), time: Scalar::zero() }
    }

    pub fn construct(origin: Point3, direction: Vec3, time: Scalar) -> (r: Ray)
        ensures
            r == (Ray { origin, direction, time }),
    {
        Ray { origin, direction, time }
    }

    /// The point at parameter `t` along the ray; `t` may be negative.
    pub fn at(self, t: Scalar) -> (r: Vec3)
        ensures
            r == self.at_spec(t),
    {
        self.origin.add(self.direction.mul(t))
    }
}

} // verus!
