//! A camera-local coordinate frame: three mutually (approximately)
//! orthogonal unit vectors built from a view direction and an up hint.

use vstd::prelude::*;
use crate::{div_trunc, fits_i64, iabs, lemma_mul_bound, lemma_tdiv_bound, tdiv, SCALE};
use crate::linalg::vec3::{cross_vec_spec, cross_x, cross_y, cross_z, length_squared_spec,
    normalize_vec_spec, vec3_bounded, Vec3, COORD_CAP};

verus! {

/// The largest coordinate magnitude `OrthonormalBase::construct` accepts
/// for the view direction and the up hint.
pub const ONB_CAP: i64 = 268435456;

/// The largest coordinate magnitude `apply_vector` accepts for the
/// camera-local offset it maps into world space.
pub const APPLY_CAP: i64 = 1099511627776;

/// The frame's third axis: the view direction, normalized.
pub open spec fn onb_w_spec(direction: Vec3) -> Vec3 {
    normalize_vec_spec(direction)
}

/// The frame's second axis: the cross product of the normalized up hint
/// with the third axis, normalized. (The up hint is normalized first so
/// that the intermediate cross product stays within machine range.)
pub open spec fn onb_v_spec(direction: Vec3, up: Vec3) -> Vec3 {
    normalize_vec_spec(cross_vec_spec(normalize_vec_spec(up), onb_w_spec(direction)))
}

/// The frame's first axis: the cross product of the other two, rescaled
/// from millionths back to thousandths, rounding toward zero.
pub open spec fn onb_u_spec(direction: Vec3, up: Vec3) -> Vec3 {
    let w = onb_w_spec(direction);
    let v = onb_v_spec(direction, up);
    Vec3 {
        x: tdiv(cross_x(w, v), SCALE as int) as i64,
        y: tdiv(cross_y(w, v), SCALE as int) as i64,
        z: tdiv(cross_z(w, v), SCALE as int) as i64,
    }
}

/// One world coordinate of a frame application: each axis scaled by the
/// matching local coordinate (a fixed-point product, rounding toward zero),
/// then summed.
pub open spec fn apply_coord(u: int, v: int, w: int, x: int, y: int, z: int) -> int {
    tdiv(u * x, SCALE as int) + tdiv(v * y, SCALE as int) + tdiv(w * z, SCALE as int)
}

/// The frame's axes are within the unit box (`u` within twice of it, since
/// it is a rounded product of two unit vectors).
pub open spec fn onb_bounded(b: OrthonormalBase) -> bool {
    vec3_bounded(b.u, 2 * SCALE as int) && vec3_bounded(b.v, SCALE as int) && vec3_bounded(
        b.w,
        SCALE as int,
    )
}

/// A camera frame: `w` along the view direction, `v` perpendicular to `w`
/// and the up hint, `u` perpendicular to both.
#[derive(Debug, Clone, Copy, PartialEq, Eq, Structural)]
pub struct OrthonormalBase {
    pub u: Vec3,
    pub v: Vec3,
    pub w: Vec3,
}

impl OrthonormalBase {
    /// Build the frame from a view direction and an up hint. Degenerate
    /// inputs (a zero direction, or an up hint parallel to the direction)
    /// yield zero axes rather than an error, exactly as the contract's
    /// spec functions describe; callers avoid them.
    pub fn construct(direction: Vec3, up: Vec3) -> (r: Self)
        requires
            vec3_bounded(direction, ONB_CAP as int),
            vec3_bounded(up, ONB_CAP as int),
        ensures
            r.w == onb_w_spec(direction),
            r.v == onb_v_spec(direction, up),
            r.u == onb_u_spec(direction, up),
            onb_bounded(r),
    {
        proof {
            lemma_bounded_ls_fits(direction);
            lemma_bounded_ls_fits(up);
        }
        let w = direction.normalize();
        let nup = up.normalize();
        proof {
            lemma_unit_cross_fits(nup, w);
        }
        let cv = nup.cross(w);
        proof {
            lemma_cross_of_units_ls_fits(cv);
        }
        let v = cv.normalize();
        proof {
            lemma_unit_cross_fits(w, v);
        }
        let wxv = w.cross(v);
        proof {
            lemma_tdiv_bound(wxv.x as int, SCALE as int, 2000000);
            lemma_tdiv_bound(wxv.y as int, SCALE as int, 2000000);
            lemma_tdiv_bound(wxv.z as int, SCALE as int, 2000000);
        }
        let u = Vec3 {
            x: div_trunc(wxv.x, SCALE),
            y: div_trunc(wxv.y, SCALE),
            z: div_trunc(wxv.z, SCALE),
        };
        proof {
            lemma_scaled_cross_in_double_box(w, v);
        }
        Self { u, v, w }
    }

    /// Map a camera-local offset into world space: the sum of the three
    /// axes, each scaled by the matching offset coordinate.
    pub fn apply_vector(&self, v: Vec3) -> (r: Vec3)
        requires
            onb_bounded(*self),
            vec3_bounded(v, APPLY_CAP as int),
        ensures
            r.x == apply_coord(self.u.x as int, self.v.x as int, self.w.x as int, v.x as int,
                v.y as int, v.z as int),
            r.y == apply_coord(self.u.y as int, self.v.y as int, self.w.y as int, v.x as int,
                v.y as int, v.z as int),
            r.z == apply_coord(self.u.z as int, self.v.z as int, self.w.z as int, v.x as int,
                v.y as int, v.z as int),
            vec3_bounded(r, 2 * (iabs(v.x as int) + iabs(v.y as int) + iabs(v.z as int))),
    {
        proof {
            lemma_apply_term_bounds(self.u, v.x as int);
            lemma_apply_term_bounds(self.v, v.y as int);
            lemma_apply_term_bounds(self.w, v.z as int);
        }
        let a = self.u.mul(v.x);
        let b = self.v.mul(v.y);
        let c = self.w.mul(v.z);
        a.add(b).add(c)
    }
}

/// A vector within the construction cap has a squared length within a
/// 64-bit word.
proof fn lemma_bounded_ls_fits(v: Vec3)
    requires
        vec3_bounded(v, ONB_CAP as int),
    ensures
        fits_i64(length_squared_spec(v)),
        vec3_bounded(v, COORD_CAP as int),
{
    lemma_mul_bound(v.x as int, v.x as int, ONB_CAP as int, ONB_CAP as int);
    lemma_mul_bound(v.y as int, v.y as int, ONB_CAP as int, ONB_CAP as int);
    lemma_mul_bound(v.z as int, v.z as int, ONB_CAP as int, ONB_CAP as int);
}

/// The cross product of two unit-box vectors fits comfortably.
proof fn lemma_unit_cross_fits(a: Vec3, b: Vec3)
    requires
        vec3_bounded(a, SCALE as int),
        vec3_bounded(b, SCALE as int),
    ensures
        fits_i64(cross_x(a, b)),
        fits_i64(cross_y(a, b)),
        fits_i64(cross_z(a, b)),
        -2000000 <= cross_x(a, b) <= 2000000,
        -2000000 <= cross_y(a, b) <= 2000000,
        -2000000 <= cross_z(a, b) <= 2000000,
        vec3_bounded(a, COORD_CAP as int),
        vec3_bounded(b, COORD_CAP as int),
{
    lemma_mul_bound(a.y as int, b.z as int, SCALE as int, SCALE as int);
    lemma_mul_bound(a.z as int, b.y as int, SCALE as int, SCALE as int);
    lemma_mul_bound(a.z as int, b.x as int, SCALE as int, SCALE as int);
    lemma_mul_bound(a.x as int, b.z as int, SCALE as int, SCALE as int);
    lemma_mul_bound(a.x as int, b.y as int, SCALE as int, SCALE as int);
    lemma_mul_bound(a.y as int, b.x as int, SCALE as int, SCALE as int);
}

/// The squared length of a cross product of unit-box vectors fits.
proof fn lemma_cross_of_units_ls_fits(cv: Vec3)
    requires
        vec3_bounded(cv, 2000000),
    ensures
        fits_i64(length_squared_spec(cv)),
        vec3_bounded(cv, COORD_CAP as int),
{
    lemma_mul_bound(cv.x as int, cv.x as int, 2000000, 2000000);
    lemma_mul_bound(cv.y as int, cv.y as int, 2000000, 2000000);
    lemma_mul_bound(cv.z as int, cv.z as int, 2000000, 2000000);
}

/// The rescaled cross product of two unit-box vectors lands in the
/// doubled unit box.
proof fn lemma_scaled_cross_in_double_box(w: Vec3, v: Vec3)
    requires
        vec3_bounded(w, SCALE as int),
        vec3_bounded(v, SCALE as int),
    ensures
        -2 * SCALE as int <= tdiv(cross_x(w, v), SCALE as int) <= 2 * SCALE as int,
        -2 * SCALE as int <= tdiv(cross_y(w, v), SCALE as int) <= 2 * SCALE as int,
        -2 * SCALE as int <= tdiv(cross_z(w, v), SCALE as int) <= 2 * SCALE as int,
{
    lemma_unit_cross_fits(w, v);
    lemma_cross_div_box(cross_x(w, v));
    lemma_cross_div_box(cross_y(w, v));
    lemma_cross_div_box(cross_z(w, v));
}

/// Dividing a value of at most two millions by a thousand lands within two
/// thousand.
proof fn lemma_cross_div_box(c: int)
    requires
        -2000000 <= c <= 2000000,
    ensures
        -2 * SCALE as int <= tdiv(c, SCALE as int) <= 2 * SCALE as int,
{
    if c >= 0 {
        vstd::arithmetic::div_mod::lemma_div_is_ordered(c, 2000000, SCALE as int);
        vstd::arithmetic::div_mod::lemma_div_pos_is_pos(c, SCALE as int);
    } else {
        vstd::arithmetic::div_mod::lemma_div_is_ordered(-c, 2000000, SCALE as int);
        vstd::arithmetic::div_mod::lemma_div_pos_is_pos(-c, SCALE as int);
    }
}

/// Each term of a frame application is bounded by twice the offset
/// magnitude, so their sum fits.
proof fn lemma_apply_term_bounds(axis: Vec3, s: int)
    requires
        vec3_bounded(axis, 2 * SCALE as int),
        -APPLY_CAP as int <= s <= APPLY_CAP as int,
    ensures
        -(2 * iabs(s)) <= tdiv(axis.x * s, SCALE as int) <= 2 * iabs(s),
        -(2 * iabs(s)) <= tdiv(axis.y * s, SCALE as int) <= 2 * iabs(s),
        -(2 * iabs(s)) <= tdiv(axis.z * s, SCALE as int) <= 2 * iabs(s),
        fits_i64(tdiv(axis.x * s, SCALE as int)),
        fits_i64(tdiv(axis.y * s, SCALE as int)),
        fits_i64(tdiv(axis.z * s, SCALE as int)),
{
    lemma_apply_coord_bound(axis.x as int, s);
    lemma_apply_coord_bound(axis.y as int, s);
    lemma_apply_coord_bound(axis.z as int, s);
}

/// One term of a frame application: an axis coordinate within the doubled
/// unit box times a bounded offset, rescaled, stays within twice the
/// offset magnitude.
proof fn lemma_apply_coord_bound(a: int, s: int)
    requires
        -2 * SCALE as int <= a <= 2 * SCALE as int,
        -APPLY_CAP as int <= s <= APPLY_CAP as int,
    ensures
        -(2 * iabs(s)) <= tdiv(a * s, SCALE as int) <= 2 * iabs(s),
{
    lemma_mul_bound(a, s, 2 * SCALE as int, iabs(s));
    let p = a * s;
    let m = 2 * SCALE as int * iabs(s);
    assert(m == (2 * iabs(s)) * SCALE as int) by (nonlinear_arith)
        requires m == 2 * SCALE as int * iabs(s);
    crate::lemma_tdiv_exact(2 * iabs(s), SCALE as int);
    if p >= 0 {
        vstd::arithmetic::div_mod::lemma_div_is_ordered(p, m, SCALE as int);
        vstd::arithmetic::div_mod::lemma_div_pos_is_pos(p, SCALE as int);
    } else {
        vstd::arithmetic::div_mod::lemma_div_is_ordered(-p, m, SCALE as int);
        vstd::arithmetic::div_mod::lemma_div_pos_is_pos(-p, SCALE as int);
    }
}

} // verus!
