//! A ray: an origin and a direction, and the point reached after traveling a
//! scalar parameter along the direction.

use vstd::prelude::*;

use crate::vec3::{in_range, vadd, vscale, Point3, Vec3};

verus! {

/// An immutable origin/direction pair.
#[derive(Clone, Copy, PartialEq, Eq, Structural, Debug)]
pub struct Ray {
    pub origin: Point3,
    pub direction: Vec3,
}

/// Both endpoints of a ray lie in the working range.
pub open spec fn ray_in_range(r: Ray) -> bool {
    in_range(r.origin) && in_range(r.direction)
}

impl Ray {
    /// Build a ray.
    pub fn new(origin: Point3, direction: Vec3) -> (r: Ray)
        ensures
            r == (Ray { origin, direction }),
    {
        Ray { origin, direction }
    }

    /// The point `origin + t*direction`.
    pub open spec fn at_spec(self, t: int) -> Point3 {
        vadd(self.origin, vscale(self.direction, t))
    }

    /// Travel `t` along the ray.
    pub fn at(self, t: i64) -> (p: Point3)
        ensures
            p == self.at_spec(t as int),
            in_range(p),
    {
        self.origin.add(self.direction.scale(t))
    }
}

} // verus!
