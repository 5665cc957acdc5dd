//! Free 3D vectors over fixed-point scalars.

use vstd::prelude::*;
use crate::{fits_i64, is_isqrt, isqrt, isqrt_spec, lemma_isqrt_exists, lemma_mul_bound, tdiv,
    div_trunc_wide, SCALE};

verus! {

/// A free vector; each coordinate is a fixed-point scalar in thousandths.
#[derive(Debug, Clone, Copy, PartialEq, Eq, Structural)]
pub struct Vec3 {
    pub x: i64,
    pub y: i64,
    pub z: i64,
}

/// The dot product of two coordinate triples, as exact integers. When both
/// arguments are in thousandths the result is in millionths.
pub open spec fn dot_spec(a: Vec3, b: Vec3) -> int {
    a.x * b.x + a.y * b.y + a.z * b.z
}

/// The squared length of a coordinate triple, as an exact integer.
pub open spec fn length_squared_spec(v: Vec3) -> int {
    dot_spec(v, v)
}

/// The length of a vector in the same fixed-point units as its
/// coordinates: the integer square root of the squared length.
pub open spec fn length_spec(v: Vec3) -> int {
    isqrt_spec(length_squared_spec(v))
}

/// One coordinate of the cross product, as an exact integer.
pub open spec fn cross_x(a: Vec3, b: Vec3) -> int {
    a.y * b.z - a.z * b.y
}

/// One coordinate of the cross product, as an exact integer.
pub open spec fn cross_y(a: Vec3, b: Vec3) -> int {
    a.z * b.x - a.x * b.z
}

/// One coordinate of the cross product, as an exact integer.
pub open spec fn cross_z(a: Vec3, b: Vec3) -> int {
    a.x * b.y - a.y * b.x
}

/// One coordinate of the normalized vector: zero stays zero, and otherwise
/// each coordinate is rescaled by `SCALE` over the length, rounding toward
/// zero.
pub open spec fn normalize_coord(c: int, ls: int) -> int {
    if ls == 0 {
        0
    } else {
        tdiv(c * SCALE, isqrt_spec(ls))
    }
}

/// The cross product as a vector, each coordinate an exact integer
/// narrowed to a machine word (exact whenever it fits, which the
/// executable operation requires).
pub open spec fn cross_vec_spec(a: Vec3, b: Vec3) -> Vec3 {
    Vec3 { x: cross_x(a, b) as i64, y: cross_y(a, b) as i64, z: cross_z(a, b) as i64 }
}

/// The normalized vector, each coordinate as `normalize_coord`.
pub open spec fn normalize_vec_spec(v: Vec3) -> Vec3 {
    Vec3 {
        x: normalize_coord(v.x as int, length_squared_spec(v)) as i64,
        y: normalize_coord(v.y as int, length_squared_spec(v)) as i64,
        z: normalize_coord(v.z as int, length_squared_spec(v)) as i64,
    }
}

/// The largest coordinate magnitude the quadratic vector operations
/// accept: two to the sixty-second power, so that products of two
/// coordinates sum without overflowing a 128-bit word.
pub const COORD_CAP: i64 = 4611686018427387904;

/// Every coordinate is at most `b` in magnitude.
pub open spec fn vec3_bounded(v: Vec3, b: int) -> bool {
    -b <= v.x <= b && -b <= v.y <= b && -b <= v.z <= b
}

/// A squared length is a sum of squares, hence never negative, and each
/// coordinate is bounded by the length itself.
pub proof fn lemma_length_squared_bounds(v: Vec3)
    ensures
        length_squared_spec(v) >= 0,
        v.x * v.x <= length_squared_spec(v),
        v.y * v.y <= length_squared_spec(v),
        v.z * v.z <= length_squared_spec(v),
{
    assert(v.x * v.x >= 0) by (nonlinear_arith);
    assert(v.y * v.y >= 0) by (nonlinear_arith);
    assert(v.z * v.z >= 0) by (nonlinear_arith);
}

impl Vec3 {
    pub fn new(x: i64, y: i64, z: i64) -> (r: Self)
        ensures
            r == (Vec3 { x, y, z }),
    {
        Self { x, y, z }
    }

    /// The squared length: the dot product of the vector with itself.
    pub fn length_squared(self) -> (r: i64)
        requires
            vec3_bounded(self, COORD_CAP as int),
            fits_i64(length_squared_spec(self)),
        ensures
            r == length_squared_spec(self),
            r >= 0,
    {
        proof {
            lemma_length_squared_bounds(self);
            lemma_mul_bound(self.x as int, self.x as int, COORD_CAP as int, COORD_CAP as int);
            lemma_mul_bound(self.y as int, self.y as int, COORD_CAP as int, COORD_CAP as int);
            lemma_mul_bound(self.z as int, self.z as int, COORD_CAP as int, COORD_CAP as int);
        }
        let p: i128 = (self.x as i128) * (self.x as i128)
            + (self.y as i128) * (self.y as i128)
            + (self.z as i128) * (self.z as i128);
        p as i64
    }

    /// The length: the integer square root of the squared length, in the
    /// same units as the coordinates.
    pub fn length(self) -> (r: i64)
        requires
            vec3_bounded(self, COORD_CAP as int),
            fits_i64(length_squared_spec(self)),
        ensures
            r == length_spec(self),
            is_isqrt(length_squared_spec(self), r as int),
            r >= 0,
    {
        let ls = self.length_squared();
        proof {
            lemma_isqrt_exists(ls as int);
            let s = isqrt_spec(ls as int);
            assert(s <= u64::MAX) by (nonlinear_arith)
                requires is_isqrt(ls as int, s) && ls <= i64::MAX;
        }
        let r = isqrt(ls as u128);
        proof {
            assert(r * r <= ls as int);
            assert(r <= i64::MAX) by (nonlinear_arith)
                requires r * r <= ls as int && ls <= i64::MAX && r >= 0;
        }
        r as i64
    }

    /// The dot product, as an exact integer.
    pub fn dot(self, rhs: Self) -> (r: i64)
        requires
            vec3_bounded(self, COORD_CAP as int),
            vec3_bounded(rhs, COORD_CAP as int),
            fits_i64(dot_spec(self, rhs)),
        ensures
            r == dot_spec(self, rhs),
    {
        proof {
            lemma_mul_bound(self.x as int, rhs.x as int, COORD_CAP as int, COORD_CAP as int);
            lemma_mul_bound(self.y as int, rhs.y as int, COORD_CAP as int, COORD_CAP as int);
            lemma_mul_bound(self.z as int, rhs.z as int, COORD_CAP as int, COORD_CAP as int);
        }
        let p: i128 = (self.x as i128) * (rhs.x as i128)
            + (self.y as i128) * (rhs.y as i128)
            + (self.z as i128) * (rhs.z as i128);
        p as i64
    }

    /// The cross product, each coordinate an exact integer. When both
    /// arguments are in thousandths the result is in millionths.
    pub fn cross(self, rhs: Self) -> (r: Self)
        requires
            vec3_bounded(self, COORD_CAP as int),
            vec3_bounded(rhs, COORD_CAP as int),
            fits_i64(cross_x(self, rhs)),
            fits_i64(cross_y(self, rhs)),
            fits_i64(cross_z(self, rhs)),
        ensures
            r.x == cross_x(self, rhs),
            r.y == cross_y(self, rhs),
            r.z == cross_z(self, rhs),
            r == cross_vec_spec(self, rhs),
    {
        proof {
            lemma_mul_bound(self.y as int, rhs.z as int, COORD_CAP as int, COORD_CAP as int);
            lemma_mul_bound(self.z as int, rhs.y as int, COORD_CAP as int, COORD_CAP as int);
            lemma_mul_bound(self.z as int, rhs.x as int, COORD_CAP as int, COORD_CAP as int);
            lemma_mul_bound(self.x as int, rhs.z as int, COORD_CAP as int, COORD_CAP as int);
            lemma_mul_bound(self.x as int, rhs.y as int, COORD_CAP as int, COORD_CAP as int);
            lemma_mul_bound(self.y as int, rhs.x as int, COORD_CAP as int, COORD_CAP as int);
        }
        let x: i128 = (self.y as i128) * (rhs.z as i128) - (self.z as i128) * (rhs.y as i128);
        let y: i128 = (self.z as i128) * (rhs.x as i128) - (self.x as i128) * (rhs.z as i128);
        let z: i128 = (self.x as i128) * (rhs.y as i128) - (self.y as i128) * (rhs.x as i128);
        Self { x: x as i64, y: y as i64, z: z as i64 }
    }

    /// Rescale to (approximately) unit length: each coordinate becomes
    /// `c * SCALE / length`, rounding toward zero. The zero vector stays
    /// zero, as the degenerate case.
    pub fn normalize(self) -> (r: Self)
        requires
            vec3_bounded(self, COORD_CAP as int),
            fits_i64(length_squared_spec(self)),
        ensures
            r.x == normalize_coord(self.x as int, length_squared_spec(self)),
            r.y == normalize_coord(self.y as int, length_squared_spec(self)),
            r.z == normalize_coord(self.z as int, length_squared_spec(self)),
            r == normalize_vec_spec(self),
            vec3_bounded(r, SCALE as int),
    {
        let ls = self.length_squared();
        if ls == 0 {
            proof {
                lemma_length_squared_bounds(self);
            }
            Self { x: 0, y: 0, z: 0 }
        } else {
            let len = self.length();
            proof {
                lemma_length_squared_bounds(self);
                lemma_normalize_in_unit_box(self.x as int, ls as int, len as int);
                lemma_normalize_in_unit_box(self.y as int, ls as int, len as int);
                lemma_normalize_in_unit_box(self.z as int, ls as int, len as int);
            }
            let x = div_trunc_wide((self.x as i128) * (SCALE as i128), len as i128);
            let y = div_trunc_wide((self.y as i128) * (SCALE as i128), len as i128);
            let z = div_trunc_wide((self.z as i128) * (SCALE as i128), len as i128);
            Self { x: x as i64, y: y as i64, z: z as i64 }
        }
    }

    /// Componentwise sum.
    pub fn add(self, rhs: Self) -> (r: Self)
        requires
            fits_i64(self.x + rhs.x),
            fits_i64(self.y + rhs.y),
            fits_i64(self.z + rhs.z),
        ensures
            r.x == self.x + rhs.x,
            r.y == self.y + rhs.y,
            r.z == self.z + rhs.z,
    {
        Self { x: self.x + rhs.x, y: self.y + rhs.y, z: self.z + rhs.z }
    }

    /// Componentwise difference.
    pub fn sub(self, rhs: Self) -> (r: Self)
        requires
            fits_i64(self.x - rhs.x),
            fits_i64(self.y - rhs.y),
            fits_i64(self.z - rhs.z),
        ensures
            r.x == self.x - rhs.x,
            r.y == self.y - rhs.y,
            r.z == self.z - rhs.z,
    {
        Self { x: self.x - rhs.x, y: self.y - rhs.y, z: self.z - rhs.z }
    }

    /// Scale by a fixed-point scalar: each coordinate becomes
    /// `c * s / SCALE`, rounding toward zero.
    pub fn mul(self, s: i64) -> (r: Self)
        requires
            fits_i64(tdiv(self.x * s, SCALE as int)),
            fits_i64(tdiv(self.y * s, SCALE as int)),
            fits_i64(tdiv(self.z * s, SCALE as int)),
        ensures
            r.x == tdiv(self.x * s, SCALE as int),
            r.y == tdiv(self.y * s, SCALE as int),
            r.z == tdiv(self.z * s, SCALE as int),
    {
        let x = div_trunc_wide((self.x as i128) * (s as i128), SCALE as i128);
        let y = div_trunc_wide((self.y as i128) * (s as i128), SCALE as i128);
        let z = div_trunc_wide((self.z as i128) * (s as i128), SCALE as i128);
        Self { x: x as i64, y: y as i64, z: z as i64 }
    }

    /// Divide by a fixed-point scalar: each coordinate becomes
    /// `c * SCALE / s`, rounding toward zero.
    pub fn div(self, s: i64) -> (r: Self)
        requires
            s > 0,
            fits_i64(tdiv(self.x * SCALE, s as int)),
            fits_i64(tdiv(self.y * SCALE, s as int)),
            fits_i64(tdiv(self.z * SCALE, s as int)),
        ensures
            r.x == tdiv(self.x * SCALE, s as int),
            r.y == tdiv(self.y * SCALE, s as int),
            r.z == tdiv(self.z * SCALE, s as int),
    {
        let x = div_trunc_wide((self.x as i128) * (SCALE as i128), s as i128);
        let y = div_trunc_wide((self.y as i128) * (SCALE as i128), s as i128);
        let z = div_trunc_wide((self.z as i128) * (SCALE as i128), s as i128);
        Self { x: x as i64, y: y as i64, z: z as i64 }
    }
}

/// Law: normalizing a vector of exactly unit length returns it unchanged.
/// (At this precision the floating-point phrasing "within tolerance"
/// becomes exact: a unit vector's length is the scale itself, and
/// rescaling by it divides each coordinate by exactly one.)
pub proof fn lemma_normalize_unit_identity(v: Vec3)
    requires
        length_squared_spec(v) == 1000000,
    ensures
        normalize_vec_spec(v) == v,
{
    assert(is_isqrt(1000000, 1000));
    crate::lemma_isqrt_unique(1000000, 1000);
    crate::lemma_tdiv_exact(v.x as int, 1000);
    crate::lemma_tdiv_exact(v.y as int, 1000);
    crate::lemma_tdiv_exact(v.z as int, 1000);
    assert(v.x as int * 1000 == v.x as int * SCALE);
    assert(normalize_coord(v.x as int, 1000000) == v.x);
    assert(normalize_coord(v.y as int, 1000000) == v.y);
    assert(normalize_coord(v.z as int, 1000000) == v.z);
}

/// Law: the cross product is orthogonal to both of its factors, exactly:
/// its dot product with either factor is zero.
pub proof fn lemma_cross_orthogonal(a: Vec3, b: Vec3)
    ensures
        cross_x(a, b) * a.x + cross_y(a, b) * a.y + cross_z(a, b) * a.z == 0,
        cross_x(a, b) * b.x + cross_y(a, b) * b.y + cross_z(a, b) * b.z == 0,
{
    assert((a.y * b.z - a.z * b.y) * a.x + (a.z * b.x - a.x * b.z) * a.y + (a.x * b.y - a.y
        * b.x) * a.z == 0) by (nonlinear_arith);
    assert((a.y * b.z - a.z * b.y) * b.x + (a.z * b.x - a.x * b.z) * b.y + (a.x * b.y - a.y
        * b.x) * b.z == 0) by (nonlinear_arith);
}

/// Law: for vectors whose cross product fits the machine word (as the
/// executable `cross` requires), the stored cross product is orthogonal to
/// both factors.
pub proof fn lemma_cross_vec_orthogonal(a: Vec3, b: Vec3)
    requires
        fits_i64(cross_x(a, b)),
        fits_i64(cross_y(a, b)),
        fits_i64(cross_z(a, b)),
    ensures
        dot_spec(cross_vec_spec(a, b), a) == 0,
        dot_spec(cross_vec_spec(a, b), b) == 0,
{
    lemma_cross_orthogonal(a, b);
}

/// The spec-level normalization lands in the unit box.
pub proof fn lemma_normalize_box(v: Vec3)
    requires
        fits_i64(length_squared_spec(v)),
    ensures
        vec3_bounded(normalize_vec_spec(v), SCALE as int),
        normalize_vec_spec(v).x == normalize_coord(v.x as int, length_squared_spec(v)),
        normalize_vec_spec(v).y == normalize_coord(v.y as int, length_squared_spec(v)),
        normalize_vec_spec(v).z == normalize_coord(v.z as int, length_squared_spec(v)),
{
    let ls = length_squared_spec(v);
    lemma_length_squared_bounds(v);
    if ls != 0 {
        lemma_isqrt_exists(ls);
        let len = isqrt_spec(ls);
        lemma_normalize_in_unit_box(v.x as int, ls, len);
        lemma_normalize_in_unit_box(v.y as int, ls, len);
        lemma_normalize_in_unit_box(v.z as int, ls, len);
    }
}

/// A normalized coordinate never leaves `[-SCALE, SCALE]`: each coordinate
/// is bounded in magnitude by the vector's length.
proof fn lemma_normalize_in_unit_box(c: int, ls: int, len: int)
    requires
        ls > 0,
        c * c <= ls,
        is_isqrt(ls, len),
    ensures
        len >= 1,
        -SCALE <= tdiv(c * SCALE, len) <= SCALE,
        -(SCALE as int) * len <= c * SCALE <= (SCALE as int) * len,
{
    assert(len >= 1) by (nonlinear_arith)
        requires is_isqrt(ls, len) && ls > 0;
    assert(-len <= c <= len) by (nonlinear_arith)
        requires c * c <= ls && is_isqrt(ls, len);
    assert(-(SCALE as int) * len <= c * SCALE <= (SCALE as int) * len) by (nonlinear_arith)
        requires -len <= c <= len;
    crate::lemma_tdiv_bound(c * SCALE, len, SCALE as int * len);
    if c >= 0 {
        assert(c * SCALE >= 0) by (nonlinear_arith)
            requires c >= 0;
        vstd::arithmetic::div_mod::lemma_div_multiples_vanish(SCALE as int, len);
        assert(tdiv(c * SCALE, len) <= tdiv(len * SCALE, len)) by {
            assert(c * SCALE <= len * SCALE) by (nonlinear_arith)
                requires c <= len;
            vstd::arithmetic::div_mod::lemma_div_is_ordered(c * SCALE, len * SCALE, len);
        }
        crate::lemma_tdiv_exact(SCALE as int, len);
        assert(len * SCALE == SCALE as int * len) by (nonlinear_arith);
    } else {
        assert((-c) * SCALE >= 0) by (nonlinear_arith)
            requires c < 0;
        assert(tdiv((-c) * SCALE, len) <= tdiv(len * SCALE, len)) by {
            assert((-c) * SCALE <= len * SCALE) by (nonlinear_arith)
                requires -c <= len;
            vstd::arithmetic::div_mod::lemma_div_is_ordered((-c) * SCALE, len * SCALE, len);
        }
        crate::lemma_tdiv_exact(SCALE as int, len);
        assert(len * SCALE == SCALE as int * len) by (nonlinear_arith);
        assert((-c) * SCALE == -(c * SCALE)) by (nonlinear_arith);
    }
}

} // verus!
