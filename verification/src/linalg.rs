//! Linear algebra: vectors, points, rays, the camera frame, and the
//! quadratic solver used by the sphere intersection.

use vstd::prelude::*;
use crate::{div_trunc_wide, isqrt, isqrt_spec, lemma_isqrt_exists, lemma_isqrt_le,
    lemma_mul_bound, tdiv, SCALE};

pub mod orthonormal_base;
pub mod point3;
pub mod ray;
pub mod vec3;

pub use orthonormal_base::OrthonormalBase;
pub use point3::Point3;
pub use ray::Ray;
pub use vec3::Vec3;

verus! {

/// The largest leading coefficient the quadratic solver accepts.
pub const QA_CAP: i64 = 17592186044416;

/// The largest linear-coefficient magnitude the quadratic solver accepts.
pub const QB_CAP: i64 = 4503599627370496;

/// The largest constant-coefficient magnitude the quadratic solver accepts.
pub const QC_CAP: i64 = 576460752303423488;

/// The discriminant of `a*t^2 + b*t + c`.
pub open spec fn quad_disc(a: int, b: int, c: int) -> int {
    b * b - 4 * a * c
}

/// The two fixed-point roots of `a*t^2 + b*t + c = 0`, in thousandths of
/// the mathematical parameter: `SCALE * (-b +/- sqrt(disc)) / (2a)`, the
/// square root and the division both rounding toward zero. `None` when the
/// discriminant is negative. The first root carries the plus sign, so it is
/// the larger of the two.
pub open spec fn quad_roots(a: int, b: int, c: int) -> Option<(int, int)> {
    let disc = quad_disc(a, b, c);
    if disc < 0 {
        None
    } else {
        let s = isqrt_spec(disc);
        Some((tdiv((-b + s) * SCALE, 2 * a), tdiv((-b - s) * SCALE, 2 * a)))
    }
}

/// Solve `a*t^2 + b*t + c = 0` for the ray parameter `t`, in fixed point.
/// Returns both roots exactly as `quad_roots` describes, or `None` when
/// there is no real solution.
pub fn solve_quadratic(a: i64, b: i64, c: i64) -> (r: Option<(i64, i64)>)
    requires
        1 <= a <= QA_CAP,
        -QB_CAP <= b <= QB_CAP,
        -QC_CAP <= c <= QC_CAP,
    ensures
        r is None <==> quad_disc(a as int, b as int, c as int) < 0,
        quad_roots(a as int, b as int, c as int) matches Some(t) ==> {
            &&& r matches Some(rr)
            &&& rr.0 == t.0
            &&& rr.1 == t.1
        },
{
    proof {
        lemma_mul_bound(b as int, b as int, QB_CAP as int, QB_CAP as int);
        lemma_mul_bound(a as int, c as int, QA_CAP as int, QC_CAP as int);
    }
    let bb: i128 = (b as i128) * (b as i128);
    let ac: i128 = (a as i128) * (c as i128);
    proof {
        assert(4 * (a as int) * (c as int) == 4 * ((a as int) * (c as int)))
            by (nonlinear_arith);
    }
    let disc: i128 = bb - 4 * ac;
    if disc < 0 {
        None
    } else {
        proof {
            lemma_isqrt_exists(disc as int);
            assert(7900000000000000int * 7900000000000000int
                == 62410000000000000000000000000000int) by (nonlinear_arith);
            lemma_isqrt_le(disc as int, 7900000000000000);
        }
        let s: i128 = isqrt(disc as u128) as i128;
        proof {
            lemma_mul_bound(s - b as int, SCALE as int, 12403599627370496, SCALE as int);
            lemma_mul_bound(-(b as int) - s, SCALE as int, 12403599627370496, SCALE as int);
        }
        let num0: i128 = (s - (b as i128)) * (SCALE as i128);
        let num1: i128 = (-(b as i128) - s) * (SCALE as i128);
        let den: i128 = 2 * (a as i128);
        proof {
            lemma_quad_root_fits(num0 as int, den as int);
            lemma_quad_root_fits(num1 as int, den as int);
        }
        let t0: i128 = div_trunc_wide(num0, den);
        let t1: i128 = div_trunc_wide(num1, den);
        Some((t0 as i64, t1 as i64))
    }
}

/// A root numerator bounded by the caps above, divided by at least two,
/// fits a 64-bit signed word.
proof fn lemma_quad_root_fits(num: int, den: int)
    requires
        den >= 2,
        -12403599627370496000 <= num <= 12403599627370496000,
    ensures
        -(i64::MAX as int) <= tdiv(num, den) <= i64::MAX as int,
{
    let m = 12403599627370496000int;
    if num >= 0 {
        vstd::arithmetic::div_mod::lemma_div_is_ordered_by_denominator(num, 2, den);
        vstd::arithmetic::div_mod::lemma_div_is_ordered(num, m, 2);
        vstd::arithmetic::div_mod::lemma_div_pos_is_pos(num, den);
    } else {
        vstd::arithmetic::div_mod::lemma_div_is_ordered_by_denominator(-num, 2, den);
        vstd::arithmetic::div_mod::lemma_div_is_ordered(-num, m, 2);
        vstd::arithmetic::div_mod::lemma_div_pos_is_pos(-num, den);
    }
}

/// The smallest of two fixed-point parameters that is strictly greater
/// than zero, if either is.
pub open spec fn sgtz_spec(a: int, b: int) -> Option<int> {
    if a <= 0 && b <= 0 {
        None
    } else if a <= 0 {
        Some(b)
    } else if b <= 0 {
        Some(a)
    } else if a < b {
        Some(a)
    } else {
        Some(b)
    }
}

/// Select the smallest strictly positive of the two values: `None` when
/// neither is positive, and otherwise the least positive one.
pub fn smallest_greater_than_zero(a: i64, b: i64) -> (r: Option<i64>)
    ensures
        r is Some <==> (a > 0 || b > 0),
        r matches Some(t) ==> t == sgtz_spec(a as int, b as int)->Some_0,
        r matches Some(t) ==> (t == a || t == b) && t > 0 && (a > 0 ==> t <= a) && (b > 0 ==> t
            <= b),
{
    if a <= 0 && b <= 0 {
        None
    } else if a <= 0 {
        Some(b)
    } else if b <= 0 {
        Some(a)
    } else if a < b {
        Some(a)
    } else {
        Some(b)
    }
}

} // verus!
