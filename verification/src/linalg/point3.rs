//! Affine positions over fixed-point scalars.

use vstd::prelude::*;
use crate::fits_i64;
use crate::linalg::vec3::Vec3;

verus! {

/// An affine position; each coordinate is a fixed-point scalar in
/// thousandths. Points and free vectors are never interchanged except
/// through `to_vec3`.
#[derive(Debug, Clone, Copy, PartialEq, Eq, Structural)]
pub struct Point3 {
    pub x: i64,
    pub y: i64,
    pub z: i64,
}

/// Every coordinate is at most `b` in magnitude.
pub open spec fn point3_bounded(p: Point3, b: int) -> bool {
    -b <= p.x <= b && -b <= p.y <= b && -b <= p.z <= b
}

impl Point3 {
    pub fn new(x: i64, y: i64, z: i64) -> (r: Self)
        ensures
            r == (Point3 { x, y, z }),
    {
        Self { x, y, z }
    }

    /// The displacement vector from `self` to `point`.
    pub fn distance_to(self, point: Point3) -> (r: Vec3)
        requires
            fits_i64(point.x - self.x),
            fits_i64(point.y - self.y),
            fits_i64(point.z - self.z),
        ensures
            r.x == point.x - self.x,
            r.y == point.y - self.y,
            r.z == point.z - self.z,
    {
        point.sub(self)
    }

    /// Translate the point by a displacement vector.
    pub fn displace(self, displacement: Vec3) -> (r: Self)
        requires
            fits_i64(self.x + displacement.x),
            fits_i64(self.y + displacement.y),
            fits_i64(self.z + displacement.z),
        ensures
            r.x == self.x + displacement.x,
            r.y == self.y + displacement.y,
            r.z == self.z + displacement.z,
    {
        Self {
            x: self.x + displacement.x,
            y: self.y + displacement.y,
            z: self.z + displacement.z,
        }
    }

    /// Reinterpret the position as a free vector from the origin: the
    /// explicit coercion between the two kinds.
    pub fn to_vec3(self) -> (r: Vec3)
        ensures
            r.x == self.x,
            r.y == self.y,
            r.z == self.z,
    {
        Vec3 { x: self.x, y: self.y, z: self.z }
    }

    /// The displacement vector from `rhs` to `self`.
    pub fn sub(self, rhs: Self) -> (r: Vec3)
        requires
            fits_i64(self.x - rhs.x),
            fits_i64(self.y - rhs.y),
            fits_i64(self.z - rhs.z),
        ensures
            r.x == self.x - rhs.x,
            r.y == self.y - rhs.y,
            r.z == self.z - rhs.z,
    {
        Vec3 { x: self.x - rhs.x, y: self.y - rhs.y, z: self.z - rhs.z }
    }
}

} // verus!
