//! The pinhole camera: immutable viewport geometry computed once, and a pure
//! mapping from normalized image coordinates to a world-space ray.

use vstd::prelude::*;

use crate::ray::Ray;
use crate::rtweekend::{fmul, mul_fx, CLIP_MAX, SCALE};
use crate::vec3::{in_range, vadd, vscale, vsub, Point3, Vec3};

verus! {

/// Derived, immutable camera state: an origin and the image-plane basis.
#[derive(Clone, Copy, PartialEq, Eq, Structural, Debug)]
pub struct Camera {
    pub origin: Point3,
    pub lower_left_corner: Point3,
    pub horizontal: Vec3,
    pub vertical: Vec3,
}

/// The camera `new` builds: origin at the world origin looking down `-z`
/// with `y` up, a viewport of the given height and width
/// `aspect_ratio * height` one focal unit away, and the lower-left corner
/// placed half a viewport below and left of the focal point.
pub open spec fn camera_spec(viewport_height: int, aspect_ratio: int) -> Camera {
    let width = mul_fx(aspect_ratio, viewport_height);
    let horizontal = Vec3 { x: width as i64, y: 0, z: 0 };
    let vertical = Vec3 { x: 0, y: viewport_height as i64, z: 0 };
    let origin = Vec3 { x: 0, y: 0, z: 0 };
    let half_h = vscale(horizontal, 32768);
    let half_v = vscale(vertical, 32768);
    let focal = Vec3 { x: 0, y: 0, z: SCALE as i64 };
    Camera {
        origin,
        lower_left_corner: vsub(vsub(vsub(origin, half_h), half_v), focal),
        horizontal,
        vertical,
    }
}

/// The direction of the ray through normalized image coordinates `(u, v)`:
/// `lower_left_corner + u*horizontal + v*vertical - origin`.
pub open spec fn ray_direction_spec(c: Camera, u: int, v: int) -> Vec3 {
    vsub(vadd(vadd(c.lower_left_corner, vscale(c.horizontal, u)), vscale(c.vertical, v)), c.origin)
}

impl Camera {
    /// A camera with a viewport of the given height — `2*tan(vfov/2)` for a
    /// vertical field of view, a value the caller computes with whatever
    /// trigonometry it has — and the given aspect ratio.
    pub fn new(viewport_height: i64, aspect_ratio: i64) -> (c: Camera)
        requires
            0 < viewport_height <= CLIP_MAX,
            0 < aspect_ratio <= CLIP_MAX,
        ensures
            c == camera_spec(viewport_height as int, aspect_ratio as int),
            in_range(c.origin),
            in_range(c.lower_left_corner),
            in_range(c.horizontal),
            in_range(c.vertical),
    {
        let viewport_width = fmul(aspect_ratio, viewport_height);
        let horizontal = Vec3::new(viewport_width, 0, 0);
        let vertical = Vec3::new(0, viewport_height, 0);
        let origin = Vec3::zero();
        let half_h = horizontal.scale(32768);
        let half_v = vertical.scale(32768);
        let focal = Vec3::new(0, 0, SCALE);
        let lower_left_corner = origin.sub(half_h).sub(half_v).sub(focal);
        Camera { origin, lower_left_corner, horizontal, vertical }
    }

    /// The ray from the camera origin through the viewport point at `(u, v)`:
    /// pure in `(u, v)`, touching no camera state.
    pub fn get_ray(&self, u: i64, v: i64) -> (r: Ray)
        ensures
            r.origin == self.origin,
            r.direction == ray_direction_spec(*self, u as int, v as int),
            in_range(r.direction),
    {
        let direction = self.lower_left_corner.add(self.horizontal.scale(u)).add(
            self.vertical.scale(v),
        ).sub(self.origin);
        Ray::new(self.origin, direction)
    }
}

} // verus!
