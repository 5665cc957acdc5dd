//! Geometry: hit records, the shape sum type with its nearest-hit
//! reduction, spheres, materials and the scene.

use vstd::prelude::*;
use crate::linalg::point3::{point3_bounded, Point3};
use crate::linalg::ray::Ray;
use crate::linalg::vec3::{length_squared_spec, vec3_bounded, Vec3};

pub mod mat;
pub mod scene;
pub mod sphere;

pub use mat::Material;
pub use scene::Scene;
pub use sphere::Sphere;
use sphere::{sphere_hit_opt, sphere_wf};

verus! {

/// The largest coordinate magnitude of scene geometry (sphere centers,
/// light and camera positions), in thousandths.
pub const CMAX: i64 = 67108864;

/// The largest coordinate magnitude of a ray origin: wider than `CMAX`, so
/// that points nudged off a surface remain valid origins.
pub const PMAX: i64 = 268435456;

/// The largest coordinate magnitude of a ray direction.
pub const DMAX: i64 = 2097152;

/// The largest hit distance a shape reports, in thousandths of the ray
/// parameter.
pub const TMAX: i64 = 1099511627776;

/// The box that hit points are reported in: slightly inside the ray-origin
/// box, leaving room for the shadow nudge.
pub const HMAX: i64 = 268435448;

/// The largest coordinate magnitude of a reported surface normal: four
/// units, allowing for rounding on small spheres.
pub const NMAX: i64 = 4000;

/// A ray the intersection routines accept: origin and direction in their
/// boxes, and a direction that is not the zero vector.
pub open spec fn ray_wf(r: Ray) -> bool {
    &&& point3_bounded(r.origin, PMAX as int)
    &&& vec3_bounded(r.direction, DMAX as int)
    &&& length_squared_spec(r.direction) >= 1
}

/// The result of a ray hitting a surface: the fixed-point ray parameter,
/// the surface normal, the world position, and the material at that point.
#[derive(Debug, Clone, PartialEq, Eq, Structural)]
pub struct HitInfo {
    pub distance: i64,
    pub normal: Vec3,
    pub hit_point: Point3,
    pub material: Material,
}

/// A hit record within all the reporting boxes, carrying a well-formed
/// material.
pub open spec fn hit_info_wf(h: HitInfo) -> bool {
    &&& 1 <= h.distance <= TMAX
    &&& vec3_bounded(h.normal, NMAX as int)
    &&& point3_bounded(h.hit_point, HMAX as int)
    &&& mat::material_wf(h.material)
}

/// A surface: a single sphere, or a composite that reduces to the nearest
/// hit among its children (first seen wins on equal distances).
#[derive(Debug, Clone)]
pub enum Shape {
    Sphere(Sphere),
    Composite(Vec<Sphere>),
}

/// Every child sphere is well formed.
pub open spec fn shape_wf(s: Shape) -> bool {
    match s {
        Shape::Sphere(sp) => sphere_wf(sp),
        Shape::Composite(v) => forall|i: int| 0 <= i < v@.len() ==> sphere_wf(#[trigger] v@[i]),
    }
}

/// The nearest hit among a sequence of spheres, scanning left to right; a
/// later sphere replaces the current best only when its hit is strictly
/// nearer.
pub open spec fn nearest_hit(s: Seq<Sphere>, ray: Ray) -> Option<HitInfo>
    decreases s.len(),
{
    if s.len() == 0 {
        None
    } else {
        let prev = nearest_hit(s.drop_last(), ray);
        let lasth = sphere_hit_opt(s.last(), ray);
        if lasth is None {
            prev
        } else if prev is None {
            lasth
        } else if lasth->Some_0.distance < prev->Some_0.distance {
            lasth
        } else {
            prev
        }
    }
}

/// What a shape reports for a ray.
pub open spec fn shape_hit_spec(s: Shape, ray: Ray) -> Option<HitInfo> {
    match s {
        Shape::Sphere(sp) => sphere_hit_opt(sp, ray),
        Shape::Composite(v) => nearest_hit(v@, ray),
    }
}

/// A reported hit is always well formed.
pub proof fn lemma_nearest_hit_wf(s: Seq<Sphere>, ray: Ray)
    requires
        forall|i: int| 0 <= i < s.len() ==> sphere_wf(#[trigger] s[i]),
        ray_wf(ray),
    ensures
        nearest_hit(s, ray) matches Some(h) ==> hit_info_wf(h),
    decreases s.len(),
{
    if s.len() > 0 {
        lemma_nearest_hit_wf(s.drop_last(), ray);
        sphere::lemma_sphere_hit_wf(s.last(), ray);
    }
}

impl Shape {
    /// Intersect the ray with the shape: a single sphere delegates, and a
    /// composite keeps the nearest hit among its children.
    pub fn hit(&self, ray: &Ray) -> (r: Option<HitInfo>)
        requires
            shape_wf(*self),
            ray_wf(*ray),
        ensures
            r == shape_hit_spec(*self, *ray),
            r matches Some(h) ==> hit_info_wf(h),
    {
        match self {
            Shape::Sphere(sp) => sp.hit(ray),
            Shape::Composite(v) => {
                let ghost vs = v@;
                let mut best: Option<HitInfo> = None;
                let n = v.len();
                proof {
                    assert(vs.take(0) =~= Seq::<Sphere>::empty());
                }
                let mut i: usize = 0;
                while i < n
                    invariant
                        0 <= i <= n,
                        n == vs.len(),
                        vs == v@,
                        forall|j: int| 0 <= j < vs.len() ==> sphere_wf(#[trigger] vs[j]),
                        ray_wf(*ray),
                        best == nearest_hit(vs.take(i as int), *ray),
                    decreases n - i,
                {
                    let h = v[i].hit(ray);
                    proof {
                        assert(vs.take(i + 1).drop_last() =~= vs.take(i as int));
                        assert(vs.take(i + 1).last() == vs[i as int]);
                    }
                    match (&h, &best) {
                        (Option::Some(ha), Option::Some(hb)) => {
                            if ha.distance < hb.distance {
                                best = h;
                            }
                        },
                        (Option::Some(_), Option::None) => {
                            best = h;
                        },
                        (Option::None, _) => {},
                    }
                    i = i + 1;
                }
                proof {
                    assert(vs.take(n as int) =~= vs);
                    lemma_nearest_hit_wf(vs, *ray);
                }
                best
            },
        }
    }
}

} // verus!
