//! Spheres and their ray intersection.

use vstd::prelude::*;
use crate::{fits_i64, is_isqrt, lemma_fixed_mul_scaled_bound, lemma_mul_bound, tdiv, SCALE};
use crate::geom::mat::{material_wf, Material};
use crate::geom::{hit_info_wf, ray_wf, HitInfo, CMAX, DMAX, HMAX, NMAX, TMAX};
use crate::linalg::point3::{point3_bounded, Point3};
use crate::linalg::ray::{point_at_coord, Ray};
use crate::linalg::vec3::{length_squared_spec, Vec3};
use crate::linalg::{quad_roots, sgtz_spec, smallest_greater_than_zero, solve_quadratic, QA_CAP,
    QB_CAP, QC_CAP};

verus! {

/// A sphere with a positive radius and an owned material.
#[derive(Debug, Clone, PartialEq, Eq, Structural)]
pub struct Sphere {
    pub center: Point3,
    pub radius: i64,
    pub material: Material,
}

/// A sphere the intersection routine accepts: a positive radius, both it
/// and the center within the scene box, and a well-formed material.
pub open spec fn sphere_wf(s: Sphere) -> bool {
    &&& 1 <= s.radius <= CMAX
    &&& point3_bounded(s.center, CMAX as int)
    &&& material_wf(s.material)
}

/// The quadratic's leading coefficient: the squared direction length.
pub open spec fn hit_a(ray: Ray) -> int {
    length_squared_spec(ray.direction)
}

/// The quadratic's linear coefficient: twice the dot product of the
/// center-to-origin offset with the direction.
pub open spec fn hit_b(s: Sphere, ray: Ray) -> int {
    2 * ((ray.origin.x - s.center.x) * ray.direction.x + (ray.origin.y - s.center.y)
        * ray.direction.y + (ray.origin.z - s.center.z) * ray.direction.z)
}

/// The quadratic's constant coefficient: the squared offset length minus
/// the squared radius.
pub open spec fn hit_c(s: Sphere, ray: Ray) -> int {
    (ray.origin.x - s.center.x) * (ray.origin.x - s.center.x) + (ray.origin.y - s.center.y)
        * (ray.origin.y - s.center.y) + (ray.origin.z - s.center.z) * (ray.origin.z - s.center.z)
        - s.radius * s.radius
}

/// The fixed-point ray parameter of the hit: the smallest strictly
/// positive root of the intersection quadratic, if any.
pub open spec fn sphere_hit_t(s: Sphere, ray: Ray) -> Option<int> {
    match quad_roots(hit_a(ray), hit_b(s, ray), hit_c(s, ray)) {
        None => None,
        Some(ts) => sgtz_spec(ts.0, ts.1),
    }
}

/// One coordinate of the surface normal at a hit point: the offset from
/// the center, rescaled by the radius, rounding toward zero.
pub open spec fn normal_coord(hp: int, center: int, radius: int) -> int {
    tdiv((hp - center) * SCALE, radius)
}

/// A hit is reported only when the parameter and the derived point and
/// normal all lie within the reporting boxes; anything outside is treated
/// as a miss, as only numerically degenerate geometry reaches it.
pub open spec fn sphere_hit_ok(s: Sphere, ray: Ray) -> bool {
    &&& sphere_hit_t(s, ray) is Some
    &&& {
        let t = sphere_hit_t(s, ray)->Some_0;
        let hx = point_at_coord(ray.origin.x as int, ray.direction.x as int, t);
        let hy = point_at_coord(ray.origin.y as int, ray.direction.y as int, t);
        let hz = point_at_coord(ray.origin.z as int, ray.direction.z as int, t);
        &&& t <= TMAX
        &&& -HMAX <= hx <= HMAX
        &&& -HMAX <= hy <= HMAX
        &&& -HMAX <= hz <= HMAX
        &&& -NMAX <= normal_coord(hx, s.center.x as int, s.radius as int) <= NMAX
        &&& -NMAX <= normal_coord(hy, s.center.y as int, s.radius as int) <= NMAX
        &&& -NMAX <= normal_coord(hz, s.center.z as int, s.radius as int) <= NMAX
    }
}

/// The hit record of a successful intersection.
pub open spec fn sphere_hit_model(s: Sphere, ray: Ray) -> HitInfo {
    let t = sphere_hit_t(s, ray)->Some_0;
    let hx = point_at_coord(ray.origin.x as int, ray.direction.x as int, t);
    let hy = point_at_coord(ray.origin.y as int, ray.direction.y as int, t);
    let hz = point_at_coord(ray.origin.z as int, ray.direction.z as int, t);
    HitInfo {
        distance: t as i64,
        normal: Vec3 {
            x: normal_coord(hx, s.center.x as int, s.radius as int) as i64,
            y: normal_coord(hy, s.center.y as int, s.radius as int) as i64,
            z: normal_coord(hz, s.center.z as int, s.radius as int) as i64,
        },
        hit_point: Point3 { x: hx as i64, y: hy as i64, z: hz as i64 },
        material: s.material,
    }
}

/// What a sphere reports for a ray.
pub open spec fn sphere_hit_opt(s: Sphere, ray: Ray) -> Option<HitInfo> {
    if sphere_hit_ok(s, ray) {
        Some(sphere_hit_model(s, ray))
    } else {
        None
    }
}

/// A reported sphere hit is always well formed.
pub proof fn lemma_sphere_hit_wf(s: Sphere, ray: Ray)
    requires
        sphere_wf(s),
        ray_wf(ray),
    ensures
        sphere_hit_opt(s, ray) matches Some(h) ==> hit_info_wf(h),
{
    if sphere_hit_ok(s, ray) {
        let t = sphere_hit_t(s, ray)->Some_0;
        assert(t >= 1);
    }
}

/// Law: a ray whose origin is strictly outside the sphere and which does
/// not point back toward it (the offset from the center has a nonnegative
/// dot product with the direction) reports no hit: both roots of the
/// intersection quadratic lie behind the origin.
pub proof fn lemma_ray_pointing_away_misses(s: Sphere, ray: Ray)
    requires
        sphere_wf(s),
        ray_wf(ray),
        hit_b(s, ray) >= 0,
        hit_c(s, ray) > 0,
    ensures
        sphere_hit_opt(s, ray) is None,
{
    let a = hit_a(ray);
    let b = hit_b(s, ray);
    let c = hit_c(s, ray);
    let disc = crate::linalg::quad_disc(a, b, c);
    if disc >= 0 {
        crate::lemma_isqrt_exists(disc);
        let sq = crate::isqrt_spec(disc);
        assert(4 * a * c > 0) by (nonlinear_arith)
            requires a >= 1 && c >= 1;
        assert(sq < b) by (nonlinear_arith)
            requires sq >= 0 && b >= 0 && sq * sq <= disc && disc == b * b - 4 * a * c && 4
                * a * c > 0;
        assert((-b + sq) * SCALE < 0) by (nonlinear_arith)
            requires -b + sq < 0;
        assert((-b - sq) * SCALE < 0) by (nonlinear_arith)
            requires -b - sq < 0;
        crate::lemma_tdiv_bound((-b + sq) * SCALE, 2 * a, 0 - ((-b + sq) * SCALE));
        crate::lemma_tdiv_bound((-b - sq) * SCALE, 2 * a, 0 - ((-b - sq) * SCALE));
        assert(sphere_hit_t(s, ray) is None);
    }
}

/// Law: a ray with an exactly unit direction whose origin lies a whole
/// number `m` of direction steps before the center — so the distance from
/// origin to center is `m` units — and outside the sphere hits it at
/// exactly that distance minus the radius.
pub proof fn lemma_ray_at_center_hits_at_distance_minus_radius(s: Sphere, ray: Ray, m: int)
    requires
        sphere_wf(s),
        ray_wf(ray),
        length_squared_spec(ray.direction) == 1000000,
        m >= 1,
        s.center.x == ray.origin.x + m * ray.direction.x,
        s.center.y == ray.origin.y + m * ray.direction.y,
        s.center.z == ray.origin.z + m * ray.direction.z,
        m * 1000 > s.radius,
    ensures
        sphere_hit_t(s, ray) == Some(m * 1000 - s.radius),
{
    let d = ray.direction;
    let r = s.radius as int;
    let a = hit_a(ray);
    let b = hit_b(s, ray);
    let c = hit_c(s, ray);
    assert(a == 1000000);
    assert(b == -2 * m * 1000000) by (nonlinear_arith)
        requires
            b == 2 * ((-(m * d.x)) * d.x + (-(m * d.y)) * d.y + (-(m * d.z)) * d.z) && d.x
                * d.x + d.y * d.y + d.z * d.z == 1000000;
    assert((-(m * d.x)) * (-(m * d.x)) == m * m * (d.x * d.x)) by (nonlinear_arith);
    assert((-(m * d.y)) * (-(m * d.y)) == m * m * (d.y * d.y)) by (nonlinear_arith);
    assert((-(m * d.z)) * (-(m * d.z)) == m * m * (d.z * d.z)) by (nonlinear_arith);
    assert(m * m * (d.x * d.x) + m * m * (d.y * d.y) + m * m * (d.z * d.z) == m * m
        * 1000000) by (nonlinear_arith)
        requires d.x * d.x + d.y * d.y + d.z * d.z == 1000000;
    assert(c == m * m * 1000000 - r * r);
    let disc = crate::linalg::quad_disc(a, b, c);
    assert(disc == 4000000 * (r * r)) by (nonlinear_arith)
        requires
            disc == b * b - 4 * a * c && b == -2 * m * 1000000 && a == 1000000 && c == m * m
                * 1000000 - r * r;
    assert(is_isqrt(disc, 2000 * r)) by (nonlinear_arith)
        requires disc == 4000000 * (r * r) && r >= 1;
    crate::lemma_isqrt_unique(disc, 2000 * r);
    let sq = crate::isqrt_spec(disc);
    assert((-b - sq) * SCALE == (1000 * m - r) * 2000000) by (nonlinear_arith)
        requires -b - sq == 2 * m * 1000000 - 2000 * r && SCALE == 1000;
    assert((-b + sq) * SCALE == (1000 * m + r) * 2000000) by (nonlinear_arith)
        requires -b + sq == 2 * m * 1000000 + 2000 * r && SCALE == 1000;
    crate::lemma_tdiv_exact(1000 * m - r, 2000000);
    crate::lemma_tdiv_exact(1000 * m + r, 2000000);
    assert(2 * a == 2000000);
    let t0 = tdiv((-b + sq) * SCALE, 2 * a);
    let t1 = tdiv((-b - sq) * SCALE, 2 * a);
    assert(t0 == 1000 * m + r);
    assert(t1 == 1000 * m - r);
    assert(sgtz_spec(t0, t1) == Some(1000 * m - r));
    assert(1000 * m == m * 1000) by (nonlinear_arith);
}

impl Sphere {
    /// A sphere from its center, a positive radius, and its material.
    pub fn new(center: Point3, radius: i64, material: Material) -> (s: Self)
        requires
            1 <= radius <= CMAX,
            point3_bounded(center, CMAX as int),
            material_wf(material),
        ensures
            s == (Sphere { center, radius, material }),
            sphere_wf(s),
    {
        Self { center, radius, material }
    }

    /// Intersect the ray with the sphere: solve the quadratic, keep the
    /// smallest strictly positive root, and derive the hit point and the
    /// surface normal from it.
    pub fn hit(&self, ray: &Ray) -> (r: Option<HitInfo>)
        requires
            sphere_wf(*self),
            ray_wf(*ray),
        ensures
            r == sphere_hit_opt(*self, *ray),
            r matches Some(h) ==> hit_info_wf(h),
    {
        proof {
            lemma_hit_coefficient_bounds(*self, *ray);
        }
        let oc = ray.origin.sub(self.center);
        let a = ray.direction.length_squared();
        let b = 2 * oc.dot(ray.direction);
        let c = oc.length_squared() - self.radius * self.radius;
        match solve_quadratic(a, b, c) {
            None => None,
            Some((t0, t1)) => match smallest_greater_than_zero(t0, t1) {
                None => None,
                Some(t) => {
                    if t > TMAX {
                        return None;
                    }
                    proof {
                        lemma_point_at_fits(*ray, t as int);
                    }
                    let hit_point = ray.point_at_distance(t);
                    if hit_point.x < -HMAX || hit_point.x > HMAX || hit_point.y < -HMAX
                        || hit_point.y > HMAX || hit_point.z < -HMAX || hit_point.z > HMAX {
                        return None;
                    }
                    proof {
                        lemma_mul_bound(hit_point.x - self.center.x, SCALE as int,
                            HMAX as int + CMAX as int, SCALE as int);
                        lemma_mul_bound(hit_point.y - self.center.y, SCALE as int,
                            HMAX as int + CMAX as int, SCALE as int);
                        lemma_mul_bound(hit_point.z - self.center.z, SCALE as int,
                            HMAX as int + CMAX as int, SCALE as int);
                    }
                    let nx = crate::div_trunc((hit_point.x - self.center.x) * SCALE, self.radius);
                    let ny = crate::div_trunc((hit_point.y - self.center.y) * SCALE, self.radius);
                    let nz = crate::div_trunc((hit_point.z - self.center.z) * SCALE, self.radius);
                    if nx < -NMAX || nx > NMAX || ny < -NMAX || ny > NMAX || nz < -NMAX
                        || nz > NMAX {
                        return None;
                    }
                    let normal = Vec3 { x: nx, y: ny, z: nz };
                    Some(HitInfo { distance: t, normal, hit_point, material: self.material })
                },
            },
        }
    }
}

/// The intersection quadratic's coefficients stay within the solver's
/// caps for any well-formed sphere and ray.
proof fn lemma_hit_coefficient_bounds(s: Sphere, ray: Ray)
    requires
        sphere_wf(s),
        ray_wf(ray),
    ensures
        fits_i64(length_squared_spec(ray.direction)),
        1 <= hit_a(ray) <= QA_CAP,
        fits_i64(hit_b(s, ray) / 2),
        -QB_CAP <= hit_b(s, ray) <= QB_CAP,
        -QC_CAP <= hit_c(s, ray) <= QC_CAP,
        fits_i64(hit_c(s, ray) + s.radius * s.radius),
        fits_i64(s.radius * s.radius),
{
    let d = ray.direction;
    let ox = ray.origin.x - s.center.x;
    let oy = ray.origin.y - s.center.y;
    let oz = ray.origin.z - s.center.z;
    lemma_mul_bound(d.x as int, d.x as int, 2097152, 2097152);
    lemma_mul_bound(d.y as int, d.y as int, 2097152, 2097152);
    lemma_mul_bound(d.z as int, d.z as int, 2097152, 2097152);
    lemma_mul_bound(ox, d.x as int, 335544320, 2097152);
    lemma_mul_bound(oy, d.y as int, 335544320, 2097152);
    lemma_mul_bound(oz, d.z as int, 335544320, 2097152);
    lemma_mul_bound(ox, ox, 335544320, 335544320);
    lemma_mul_bound(oy, oy, 335544320, 335544320);
    lemma_mul_bound(oz, oz, 335544320, 335544320);
    lemma_mul_bound(s.radius as int, s.radius as int, 67108864, 67108864);
    assert(ox * ox >= 0) by (nonlinear_arith);
    assert(oy * oy >= 0) by (nonlinear_arith);
    assert(oz * oz >= 0) by (nonlinear_arith);
    assert(s.radius as int * s.radius as int >= 0) by (nonlinear_arith);
    assert(hit_b(s, ray) / 2 == ox * d.x + oy * d.y + oz * d.z) by {
        vstd::arithmetic::div_mod::lemma_div_multiples_vanish(
            ox * d.x + oy * d.y + oz * d.z, 2);
    }
}

/// A parameter within the reporting cap keeps the walked point within
/// machine range.
proof fn lemma_point_at_fits(ray: Ray, t: int)
    requires
        ray_wf(ray),
        0 <= t <= TMAX,
    ensures
        fits_i64(tdiv(ray.direction.x * t, SCALE as int)),
        fits_i64(tdiv(ray.direction.y * t, SCALE as int)),
        fits_i64(tdiv(ray.direction.z * t, SCALE as int)),
        fits_i64(point_at_coord(ray.origin.x as int, ray.direction.x as int, t)),
        fits_i64(point_at_coord(ray.origin.y as int, ray.direction.y as int, t)),
        fits_i64(point_at_coord(ray.origin.z as int, ray.direction.z as int, t)),
{
    lemma_fixed_mul_scaled_bound(ray.direction.x as int, t, DMAX as int, TMAX as int);
    lemma_fixed_mul_scaled_bound(ray.direction.y as int, t, DMAX as int, TMAX as int);
    lemma_fixed_mul_scaled_bound(ray.direction.z as int, t, DMAX as int, TMAX as int);
}

} // verus!
