//! Lights: point lights with a shadow test, and ambient light.

use vstd::prelude::*;
use crate::{fits_i64, iabs, is_isqrt, isqrt_spec, lemma_mul_bound, tdiv, SCALE};
use crate::film::color::{clamp_channel_spec, color_in_unit, lemma_unit_channel_scaled, Color};
use crate::geom::{shape_hit_spec, shape_wf, Shape, CMAX, PMAX};
use crate::linalg::point3::{point3_bounded, Point3};
use crate::linalg::ray::Ray;
use crate::linalg::vec3::{length_squared_spec, normalize_vec_spec, vec3_bounded, Vec3};

verus! {

/// A point light: a position, a base color, and an intensity clamped to
/// the unit interval at construction.
#[derive(Debug, Clone, Copy, PartialEq, Eq, Structural)]
pub struct PointLight {
    pub position: Point3,
    pub color: Color,
    pub intensity: i64,
}

/// An ambient light: a base color and a clamped intensity, illuminating
/// everything from no particular direction.
#[derive(Debug, Clone, Copy, PartialEq, Eq, Structural)]
pub struct AmbientLight {
    pub color: Color,
    pub intensity: i64,
}

/// A light source, as a closed sum.
#[derive(Debug, Clone, Copy, PartialEq, Eq, Structural)]
pub enum Light {
    Point(PointLight),
    Ambient(AmbientLight),
}

/// Positions lie in the scene box; colors and intensities in the unit
/// interval.
pub open spec fn light_wf(l: Light) -> bool {
    match l {
        Light::Point(p) => point3_bounded(p.position, CMAX as int) && color_in_unit(p.color) && 0
            <= p.intensity <= SCALE,
        Light::Ambient(a) => color_in_unit(a.color) && 0 <= a.intensity <= SCALE,
    }
}

/// The color a light casts: its base color scaled by its intensity.
pub open spec fn light_color_spec(base: Color, intensity: int) -> Color {
    Color {
        r: tdiv(base.r * intensity, SCALE as int) as i64,
        g: tdiv(base.g * intensity, SCALE as int) as i64,
        b: tdiv(base.b * intensity, SCALE as int) as i64,
    }
}

/// The color a light casts, by variant.
pub open spec fn light_color_of(l: Light) -> Color {
    match l {
        Light::Point(p) => light_color_spec(p.color, p.intensity as int),
        Light::Ambient(a) => light_color_spec(a.color, a.intensity as int),
    }
}

/// The displacement from a point to a light position, as a vector.
pub open spec fn to_light_vec(position: Point3, p: Point3) -> Vec3 {
    Vec3 {
        x: (position.x - p.x) as i64,
        y: (position.y - p.y) as i64,
        z: (position.z - p.z) as i64,
    }
}

/// Whether a point light reaches a point past an occluding shape: cast a
/// ray from the point toward the light along the normalized displacement;
/// the light is visible unless the shape reports a hit nearer than the
/// light itself. A light exactly at the point trivially illuminates it.
pub open spec fn pl_illuminates_spec(l: PointLight, p: Point3, shape: Shape) -> bool {
    let dv = to_light_vec(l.position, p);
    if dv.x == 0 && dv.y == 0 && dv.z == 0 {
        true
    } else {
        let dist = isqrt_spec(length_squared_spec(dv));
        let ray = Ray { origin: p, direction: normalize_vec_spec(dv) };
        match shape_hit_spec(shape, ray) {
            None => true,
            Some(h) => h.distance > dist,
        }
    }
}

/// Whether a light reaches a point: ambient light always does.
pub open spec fn illuminates_spec(l: Light, p: Point3, shape: Shape) -> bool {
    match l {
        Light::Point(pl) => pl_illuminates_spec(pl, p, shape),
        Light::Ambient(_) => true,
    }
}

/// The direction a light shines from at a point: the normalized
/// displacement toward a point light, and the zero vector for ambient
/// light, which has no preferred direction.
pub open spec fn light_direction_spec(l: Light, p: Point3) -> Vec3 {
    match l {
        Light::Point(pl) => normalize_vec_spec(to_light_vec(pl.position, p)),
        Light::Ambient(_) => Vec3 { x: 0, y: 0, z: 0 },
    }
}

/// Clamp an intensity into the unit interval.
fn clamp_intensity(intensity: i64) -> (r: i64)
    ensures
        r == clamp_channel_spec(intensity as int),
{
    if intensity < 0 {
        0
    } else if intensity > SCALE {
        SCALE
    } else {
        intensity
    }
}

impl PointLight {
    /// A point light; an out-of-range intensity is silently clamped to the
    /// unit interval, never an error.
    pub fn new(position: Point3, color: Color, intensity: i64) -> (l: Self)
        requires
            point3_bounded(position, CMAX as int),
            color_in_unit(color),
        ensures
            l.position == position,
            l.color == color,
            l.intensity == clamp_channel_spec(intensity as int),
            light_wf(Light::Point(l)),
    {
        Self { position, color, intensity: clamp_intensity(intensity) }
    }
}

impl AmbientLight {
    /// An ambient light; an out-of-range intensity is silently clamped to
    /// the unit interval, never an error.
    pub fn new(color: Color, intensity: i64) -> (l: Self)
        requires
            color_in_unit(color),
        ensures
            l.color == color,
            l.intensity == clamp_channel_spec(intensity as int),
            light_wf(Light::Ambient(l)),
    {
        Self { color, intensity: clamp_intensity(intensity) }
    }
}

impl Light {
    /// The color the light casts: its base color scaled by its intensity.
    pub fn color(&self) -> (c: Color)
        requires
            light_wf(*self),
        ensures
            c == light_color_of(*self),
            color_in_unit(c),
    {
        let (base, intensity) = match self {
            Light::Point(p) => (p.color, p.intensity),
            Light::Ambient(a) => (a.color, a.intensity),
        };
        proof {
            lemma_light_color_unit(base, intensity as int);
        }
        base.mul_scalar(intensity)
    }

    /// The direction the light shines from at `p`: toward a point light,
    /// and the zero vector for ambient light.
    pub fn direction_from_point(&self, p: Point3) -> (d: Vec3)
        requires
            light_wf(*self),
            point3_bounded(p, PMAX as int),
        ensures
            d == light_direction_spec(*self, p),
            vec3_bounded(d, SCALE as int),
    {
        match self {
            Light::Point(pl) => {
                let dv = p.distance_to(pl.position);
                proof {
                    lemma_to_light_fits(pl.position, p);
                }
                dv.normalize()
            },
            Light::Ambient(_) => Vec3 { x: 0, y: 0, z: 0 },
        }
    }

    /// Whether the light reaches `p` past the occluding shape; ambient
    /// light always does.
    pub fn illuminates_point(&self, p: Point3, shape: &Shape) -> (r: bool)
        requires
            light_wf(*self),
            shape_wf(*shape),
            point3_bounded(p, PMAX as int),
        ensures
            r == illuminates_spec(*self, p, *shape),
    {
        match self {
            Light::Point(pl) => {
                let dv = p.distance_to(pl.position);
                proof {
                    lemma_to_light_fits(pl.position, p);
                }
                if dv.x == 0 && dv.y == 0 && dv.z == 0 {
                    return true;
                }
                let distance = dv.length();
                let dir = dv.normalize();
                proof {
                    lemma_normalized_nonzero(dv);
                }
                let ray = Ray::new(p, dir);
                match shape.hit(&ray) {
                    None => true,
                    Some(h) => h.distance > distance,
                }
            },
            Light::Ambient(_) => true,
        }
    }

    /// The geometric attenuation hook: fixed at one (no inverse-square
    /// falloff), kept for the multiplicative term in the shading formula.
    pub fn geometric_factor(&self) -> (r: i64)
        ensures
            r == SCALE,
    {
        SCALE
    }

    /// The sampling-weight hook: fixed at one (no importance sampling),
    /// kept for the divisor in the shading formula.
    pub fn probability_density(&self) -> (r: i64)
        ensures
            r == SCALE,
    {
        SCALE
    }
}

/// A well-formed light casts a unit-interval color.
pub proof fn lemma_light_color_of_unit(l: Light)
    requires
        light_wf(l),
    ensures
        color_in_unit(light_color_of(l)),
{
    match l {
        Light::Point(p) => lemma_light_color_unit(p.color, p.intensity as int),
        Light::Ambient(a) => lemma_light_color_unit(a.color, a.intensity as int),
    }
}

/// A unit-interval color scaled by a unit-interval intensity stays in the
/// unit interval, and the scaled product fits.
proof fn lemma_light_color_unit(base: Color, intensity: int)
    requires
        color_in_unit(base),
        0 <= intensity <= SCALE,
    ensures
        0 <= tdiv(base.r * intensity, SCALE as int) <= SCALE,
        0 <= tdiv(base.g * intensity, SCALE as int) <= SCALE,
        0 <= tdiv(base.b * intensity, SCALE as int) <= SCALE,
{
    lemma_unit_channel_scaled(base.r as int, intensity);
    lemma_unit_channel_scaled(base.g as int, intensity);
    lemma_unit_channel_scaled(base.b as int, intensity);
}

/// The displacement from a point in the ray-origin box to a light in the
/// scene box fits, with room to spare.
proof fn lemma_to_light_fits(position: Point3, p: Point3)
    requires
        point3_bounded(position, CMAX as int),
        point3_bounded(p, PMAX as int),
    ensures
        fits_i64(position.x - p.x),
        fits_i64(position.y - p.y),
        fits_i64(position.z - p.z),
        fits_i64(length_squared_spec(to_light_vec(position, p))),
        vec3_bounded(to_light_vec(position, p), crate::linalg::vec3::COORD_CAP as int),
{
    let dv = to_light_vec(position, p);
    assert(dv.x == position.x - p.x);
    assert(dv.y == position.y - p.y);
    assert(dv.z == position.z - p.z);
    lemma_mul_bound(dv.x as int, dv.x as int, 335544320, 335544320);
    lemma_mul_bound(dv.y as int, dv.y as int, 335544320, 335544320);
    lemma_mul_bound(dv.z as int, dv.z as int, 335544320, 335544320);
    assert(dv.x as int * dv.x as int >= 0) by (nonlinear_arith);
    assert(dv.y as int * dv.y as int >= 0) by (nonlinear_arith);
    assert(dv.z as int * dv.z as int >= 0) by (nonlinear_arith);
}

/// The normalization of a nonzero vector is itself nonzero: its dominant
/// coordinate keeps at least half the scale.
proof fn lemma_normalized_nonzero(dv: Vec3)
    requires
        !(dv.x == 0 && dv.y == 0 && dv.z == 0),
        fits_i64(length_squared_spec(dv)),
        is_isqrt(length_squared_spec(dv), isqrt_spec(length_squared_spec(dv))),
    ensures
        length_squared_spec(normalize_vec_spec(dv)) >= 1,
        vec3_bounded(normalize_vec_spec(dv), SCALE as int),
{
    let ls = length_squared_spec(dv);
    let len = isqrt_spec(ls);
    crate::linalg::vec3::lemma_length_squared_bounds(dv);
    let m = if iabs(dv.x as int) >= iabs(dv.y as int) && iabs(dv.x as int) >= iabs(
        dv.z as int) {
        iabs(dv.x as int)
    } else if iabs(dv.y as int) >= iabs(dv.z as int) {
        iabs(dv.y as int)
    } else {
        iabs(dv.z as int)
    };
    assert(m >= 1);
    assert(ls <= 3 * m * m) by (nonlinear_arith)
        requires
            m >= iabs(dv.x as int) && m >= iabs(dv.y as int) && m >= iabs(dv.z as int)
                && m >= 0 && ls == dv.x * dv.x + dv.y * dv.y + dv.z * dv.z;
    assert(ls >= m * m) by (nonlinear_arith)
        requires
            (iabs(dv.x as int) == m || iabs(dv.y as int) == m || iabs(dv.z as int) == m)
                && ls == dv.x * dv.x + dv.y * dv.y + dv.z * dv.z;
    assert(m * m >= 1) by (nonlinear_arith)
        requires m >= 1;
    assert(len >= 1) by (nonlinear_arith)
        requires is_isqrt(ls, len) && ls >= m * m && m >= 1;
    assert(len < 2 * m) by (nonlinear_arith)
        requires is_isqrt(ls, len) && ls <= 3 * m * m && m >= 1;
    // The dominant normalized coordinate is at least half the scale.
    crate::linalg::vec3::lemma_normalize_box(dv);
    let q = (m * SCALE) / len;
    vstd::arithmetic::div_mod::lemma_div_is_ordered_by_denominator(m * SCALE, len, 2 * m);
    assert(m * SCALE == (2 * m) * 500) by (nonlinear_arith);
    vstd::arithmetic::div_mod::lemma_div_multiples_vanish(500, 2 * m);
    assert(q >= 500);
    lemma_norm_dominant(dv.x as int, ls, len, m, q);
    lemma_norm_dominant(dv.y as int, ls, len, m, q);
    lemma_norm_dominant(dv.z as int, ls, len, m, q);
    let n = normalize_vec_spec(dv);
    assert(length_squared_spec(n) >= 1) by (nonlinear_arith)
        requires
            (iabs(n.x as int) >= 500 || iabs(n.y as int) >= 500 || iabs(n.z as int) >= 500)
                && length_squared_spec(n) == n.x * n.x + n.y * n.y + n.z * n.z;
    crate::linalg::vec3::lemma_normalize_box(dv);
}

/// If a coordinate is the dominant one, its normalized value keeps the
/// dominant quotient's magnitude.
proof fn lemma_norm_dominant(c: int, ls: int, len: int, m: int, q: int)
    requires
        ls > 0,
        is_isqrt(ls, len),
        len >= 1,
        c * c <= ls,
        q == (m * SCALE) / len,
        m >= 0,
    ensures
        iabs(c) == m ==> iabs(tdiv(c * SCALE, len)) == q,
{
    if iabs(c) == m {
        if c >= 0 {
            assert(c * SCALE == m * SCALE);
        } else {
            assert(-(c * SCALE) == m * SCALE) by (nonlinear_arith)
                requires c < 0 && m == -c;
        }
    }
}

} // verus!
