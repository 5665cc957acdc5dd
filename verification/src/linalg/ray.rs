//! Rays: an origin and a direction.

use vstd::prelude::*;
use crate::{fits_i64, tdiv, SCALE};
use crate::linalg::point3::Point3;
use crate::linalg::vec3::Vec3;

verus! {

/// A ray from `origin` along `direction`. The direction need not be unit
/// length; intersection code is written to work either way.
#[derive(Debug, Clone, Copy, PartialEq, Eq, Structural)]
pub struct Ray {
    pub origin: Point3,
    pub direction: Vec3,
}

/// One coordinate of the point a fixed-point parameter `t` along a ray:
/// the origin plus `direction * t / SCALE`, rounding toward zero.
pub open spec fn point_at_coord(o: int, d: int, t: int) -> int {
    o + tdiv(d * t, SCALE as int)
}

impl Ray {
    pub fn new(origin: Point3, direction: Vec3) -> (r: Self)
        ensures
            r == (Ray { origin, direction }),
    {
        Ray { origin, direction }
    }

    /// The point `distance` along the ray (a fixed-point scalar; negative
    /// values walk backwards).
    pub fn point_at_distance(&self, distance: i64) -> (r: Point3)
        requires
            fits_i64(tdiv(self.direction.x * distance, SCALE as int)),
            fits_i64(tdiv(self.direction.y * distance, SCALE as int)),
            fits_i64(tdiv(self.direction.z * distance, SCALE as int)),
            fits_i64(point_at_coord(self.origin.x as int, self.direction.x as int, distance as int)),
            fits_i64(point_at_coord(self.origin.y as int, self.direction.y as int, distance as int)),
            fits_i64(point_at_coord(self.origin.z as int, self.direction.z as int, distance as int)),
        ensures
            r.x == point_at_coord(self.origin.x as int, self.direction.x as int, distance as int),
            r.y == point_at_coord(self.origin.y as int, self.direction.y as int, distance as int),
            r.z == point_at_coord(self.origin.z as int, self.direction.z as int, distance as int),
    {
        self.origin.displace(self.direction.mul(distance))
    }
}

} // verus!
