//! Materials: how a surface turns a hit into a color.

use vstd::prelude::*;
use crate::film::color::{color_add_spec, color_bounded, color_in_unit, color_mul_spec,
    color_scale_spec, lemma_unit_color_mul, lemma_unit_color_scaled, Color, COLOR_EPS};
use crate::geom::scene::{scene_wf, Scene, LIGHTS_CAP};
use crate::geom::{hit_info_wf, HitInfo, Shape, DMAX, NMAX, PMAX};
use crate::light::{illuminates_spec, lemma_light_color_of_unit, light_color_of,
    light_direction_spec, light_wf, Light};
use crate::linalg::point3::Point3;
use crate::linalg::ray::Ray;
use crate::linalg::vec3::{dot_spec, vec3_bounded, Vec3};
use crate::{lemma_fixed_mul_scaled_bound, lemma_mul_bound, tdiv, SCALE};

verus! {

/// The fixed-point value of one over pi, rounded down.
pub const INV_PI: i64 = 318;

/// How far a shaded point is nudged along the surface normal before the
/// occlusion ray is cast, to avoid immediate self-intersection: two
/// thousandths, the counterpart of a tiny epsilon at this precision.
pub const NUDGE: i64 = 2;

/// The largest channel magnitude shading can accumulate: the ambient term
/// plus four units for each possible light.
pub const SHADE_CAP: i64 = 262145000;

/// A diffuse surface: Lambertian reflection plus a constant ambient term.
#[derive(Debug, Clone, Copy, PartialEq, Eq, Structural)]
pub struct DiffuseMaterial {
    pub diffuse_reflection: i64,
    pub diffuse_color: Color,
    pub ambient_reflection: i64,
    pub ambient_color: Color,
}

/// A diagnostic surface: shades every hit with a fixed magenta marker.
#[derive(Debug, Clone, Copy, PartialEq, Eq, Structural)]
pub struct DebugMaterial {}

/// A surface's shading behaviour, as a closed sum.
#[derive(Debug, Clone, Copy, PartialEq, Eq, Structural)]
pub enum Material {
    Diffuse(DiffuseMaterial),
    Marker(DebugMaterial),
}

/// Reflectances and parameter colors lie in the unit interval.
pub open spec fn material_wf(m: Material) -> bool {
    match m {
        Material::Diffuse(d) => {
            &&& 0 <= d.diffuse_reflection <= SCALE
            &&& 0 <= d.ambient_reflection <= SCALE
            &&& color_in_unit(d.diffuse_color)
            &&& color_in_unit(d.ambient_color)
        },
        Material::Marker(_) => true,
    }
}

impl DiffuseMaterial {
    /// A diffuse material from its reflectances (in the unit interval)
    /// and colors.
    pub fn new(
        diffuse_reflection: i64,
        diffuse_color: Color,
        ambient_reflection: i64,
        ambient_color: Color,
    ) -> (m: Self)
        requires
            0 <= diffuse_reflection <= SCALE,
            0 <= ambient_reflection <= SCALE,
            color_in_unit(diffuse_color),
            color_in_unit(ambient_color),
        ensures
            m == (DiffuseMaterial {
                diffuse_reflection,
                diffuse_color,
                ambient_reflection,
                ambient_color,
            }),
            material_wf(Material::Diffuse(m)),
    {
        Self { diffuse_reflection, diffuse_color, ambient_reflection, ambient_color }
    }
}

impl DebugMaterial {
    pub fn new() -> (m: DebugMaterial)
        ensures
            m == (DebugMaterial {  }),
    {
        DebugMaterial {  }
    }
}

/// The fixed magenta the diagnostic material shades with.
pub open spec fn marker_color() -> Color {
    Color { r: SCALE, g: COLOR_EPS, b: SCALE }
}

/// The surface normal flipped, if need be, to face the incoming ray.
pub open spec fn facing_normal(ray: Ray, n: Vec3) -> Vec3 {
    if dot_spec(ray.direction, n) > 0 {
        Vec3 { x: (-(n.x as int)) as i64, y: (-(n.y as int)) as i64, z: (-(n.z as int)) as i64 }
    } else {
        n
    }
}

/// A point nudged off its surface along the normal, by `NUDGE` scaled as a
/// fixed-point factor.
pub open spec fn nudged_point(p: Point3, n: Vec3) -> Point3 {
    Point3 {
        x: (p.x + tdiv(n.x * NUDGE, SCALE as int)) as i64,
        y: (p.y + tdiv(n.y * NUDGE, SCALE as int)) as i64,
        z: (p.z + tdiv(n.z * NUDGE, SCALE as int)) as i64,
    }
}

/// A vector reinterpreted as a color triple, so that the Lambert factor
/// can be applied as a componentwise product.
pub open spec fn color_of_vec(v: Vec3) -> Color {
    Color { r: v.x, g: v.y, b: v.z }
}

/// The ratio of the geometric factor to the probability density, as a
/// fixed-point scalar; both hooks are fixed at one.
pub open spec fn gf_pd_ratio() -> int {
    tdiv(SCALE as int * SCALE as int, SCALE as int)
}

/// The constant ambient term: the material's ambient color, scaled by its
/// ambient reflectance, times the ambient light's color.
pub open spec fn ambient_term(m: DiffuseMaterial, ambient: Light) -> Color {
    color_mul_spec(color_scale_spec(m.ambient_color, m.ambient_reflection as int),
        light_color_of(ambient))
}

/// One light's contribution at a shaded point: zero when the light is on
/// the far side of the surface or occluded, and otherwise the diffuse
/// color scaled by the reflectance and one-over-pi, times the light's
/// color (with the sampling hooks), times the componentwise product of the
/// normal and the light direction read as colors.
pub open spec fn light_term(m: DiffuseMaterial, light: Light, n: Vec3, p: Point3, shape: Shape)
    -> Color {
    let ld = light_direction_spec(light, p);
    if dot_spec(n, ld) > 0 && illuminates_spec(light, nudged_point(p, n), shape) {
        let a = color_scale_spec(color_scale_spec(m.diffuse_color, m.diffuse_reflection as int),
            INV_PI as int);
        let b = color_scale_spec(light_color_of(light), gf_pd_ratio());
        let c = color_mul_spec(color_of_vec(n), color_of_vec(ld));
        color_mul_spec(color_mul_spec(a, b), c)
    } else {
        Color { r: 0, g: 0, b: 0 }
    }
}

/// The shading sum over a light list, scanned left to right on top of the
/// ambient base.
pub open spec fn shade_fold(
    lights: Seq<Light>,
    m: DiffuseMaterial,
    n: Vec3,
    p: Point3,
    shape: Shape,
    base: Color,
) -> Color
    decreases lights.len(),
{
    if lights.len() == 0 {
        base
    } else {
        color_add_spec(shade_fold(lights.drop_last(), m, n, p, shape, base),
            light_term(m, lights.last(), n, p, shape))
    }
}

/// What a diffuse material shades a hit to: the ambient base plus every
/// light's contribution, with the normal flipped toward the ray.
pub open spec fn diffuse_shade_spec(m: DiffuseMaterial, ray: Ray, h: HitInfo, s: Scene) -> Color {
    let n = facing_normal(ray, h.normal);
    shade_fold(s.lights@, m, n, h.hit_point, s.shape, ambient_term(m, s.ambient_light))
}

/// What a material shades a hit to, by variant.
pub open spec fn shade_spec(m: Material, ray: Ray, h: HitInfo, s: Scene) -> Color {
    match m {
        Material::Diffuse(d) => diffuse_shade_spec(d, ray, h, s),
        Material::Marker(_) => marker_color(),
    }
}

/// One light's contribution never exceeds four units per channel.
proof fn lemma_light_term_bounded(m: DiffuseMaterial, light: Light, n: Vec3, p: Point3,
    shape: Shape)
    requires
        material_wf(Material::Diffuse(m)),
        light_wf(light),
        vec3_bounded(n, NMAX as int),
        crate::linalg::point3::point3_bounded(p, PMAX as int),
    ensures
        color_bounded(light_term(m, light, n, p, shape), 4000),
{
    let ld = light_direction_spec(light, p);
    lemma_light_direction_unit(light, p);
    lemma_light_color_of_unit(light);
    if dot_spec(n, ld) > 0 && illuminates_spec(light, nudged_point(p, n), shape) {
        lemma_unit_color_scaled(m.diffuse_color, m.diffuse_reflection as int);
        lemma_unit_color_scaled(color_scale_spec(m.diffuse_color, m.diffuse_reflection as int),
            INV_PI as int);
        lemma_unit_color_scaled(light_color_of(light), gf_pd_ratio());
        let a = color_scale_spec(color_scale_spec(m.diffuse_color, m.diffuse_reflection as int),
            INV_PI as int);
        let b = color_scale_spec(light_color_of(light), gf_pd_ratio());
        lemma_unit_color_mul(a, b);
        lemma_fixed_mul_scaled_bound(n.x as int, ld.x as int, 4000, 1000);
        lemma_fixed_mul_scaled_bound(n.y as int, ld.y as int, 4000, 1000);
        lemma_fixed_mul_scaled_bound(n.z as int, ld.z as int, 4000, 1000);
        let ab = color_mul_spec(a, b);
        let c = color_mul_spec(color_of_vec(n), color_of_vec(ld));
        lemma_fixed_mul_scaled_bound(ab.r as int, c.r as int, 1000, 4000);
        lemma_fixed_mul_scaled_bound(ab.g as int, c.g as int, 1000, 4000);
        lemma_fixed_mul_scaled_bound(ab.b as int, c.b as int, 1000, 4000);
    }
}

/// A light's direction lies in the unit box.
proof fn lemma_light_direction_unit(light: Light, p: Point3)
    requires
        light_wf(light),
        crate::linalg::point3::point3_bounded(p, PMAX as int),
    ensures
        vec3_bounded(light_direction_spec(light, p), SCALE as int),
{
    match light {
        Light::Point(pl) => {
            let dv = crate::light::to_light_vec(pl.position, p);
            assert(dv.x == pl.position.x - p.x);
            assert(dv.y == pl.position.y - p.y);
            assert(dv.z == pl.position.z - p.z);
            lemma_mul_bound(dv.x as int, dv.x as int, 335544320, 335544320);
            lemma_mul_bound(dv.y as int, dv.y as int, 335544320, 335544320);
            lemma_mul_bound(dv.z as int, dv.z as int, 335544320, 335544320);
            assert(dv.x as int * dv.x as int >= 0) by (nonlinear_arith);
            assert(dv.y as int * dv.y as int >= 0) by (nonlinear_arith);
            assert(dv.z as int * dv.z as int >= 0) by (nonlinear_arith);
            crate::linalg::vec3::lemma_normalize_box(dv);
        },
        Light::Ambient(_) => {},
    }
}

/// The shading sum stays bounded: the base plus four units per light.
proof fn lemma_shade_fold_bounded(
    lights: Seq<Light>,
    m: DiffuseMaterial,
    n: Vec3,
    p: Point3,
    shape: Shape,
    base: Color,
)
    requires
        material_wf(Material::Diffuse(m)),
        vec3_bounded(n, NMAX as int),
        color_bounded(base, SCALE as int),
        lights.len() <= LIGHTS_CAP,
        forall|i: int| 0 <= i < lights.len() ==> light_wf(#[trigger] lights[i]),
        crate::linalg::point3::point3_bounded(p, PMAX as int),
    ensures
        color_bounded(shade_fold(lights, m, n, p, shape, base),
            1000 + 4000 * (lights.len() as int)),
    decreases lights.len(),
{
    if lights.len() > 0 {
        lemma_shade_fold_bounded(lights.drop_last(), m, n, p, shape, base);
        assert(lights.last() == lights[lights.len() - 1]);
        lemma_light_term_bounded(m, lights.last(), n, p, shape);
        let prev = shade_fold(lights.drop_last(), m, n, p, shape, base);
        let t = light_term(m, lights.last(), n, p, shape);
        assert(color_bounded(prev, 1000 + 4000 * (lights.len() as int - 1)));
        assert(shade_fold(lights, m, n, p, shape, base) == color_add_spec(prev, t));
    }
}

impl DiffuseMaterial {
    /// Shade a hit: flip the normal toward the ray, start from the
    /// ambient term, and add every visible light's Lambert contribution.
    pub fn shade(&self, ray: &Ray, hit_info: &HitInfo, scene: &Scene) -> (c: Color)
        requires
            material_wf(Material::Diffuse(*self)),
            hit_info_wf(*hit_info),
            scene_wf(*scene),
            vec3_bounded(ray.direction, DMAX as int),
        ensures
            c == diffuse_shade_spec(*self, *ray, *hit_info, *scene),
            color_bounded(c, SHADE_CAP as int),
    {
        proof {
            lemma_mul_bound(ray.direction.x as int, hit_info.normal.x as int, 2097152, 4000);
            lemma_mul_bound(ray.direction.y as int, hit_info.normal.y as int, 2097152, 4000);
            lemma_mul_bound(ray.direction.z as int, hit_info.normal.z as int, 2097152, 4000);
        }
        let dpn = ray.direction.dot(hit_info.normal);
        let normal = if dpn > 0 {
            Vec3 { x: -hit_info.normal.x, y: -hit_info.normal.y, z: -hit_info.normal.z }
        } else {
            hit_info.normal
        };
        proof {
            assert(normal == facing_normal(*ray, hit_info.normal));
        }
        let normal_color = Color::new(normal.x, normal.y, normal.z);
        proof {
            lemma_unit_color_scaled(self.ambient_color, self.ambient_reflection as int);
            lemma_light_color_of_unit(scene.ambient_light);
            lemma_unit_color_mul(color_scale_spec(self.ambient_color,
                self.ambient_reflection as int), light_color_of(scene.ambient_light));
        }
        let mut base_color = self.ambient_color.mul_scalar(self.ambient_reflection).mul(
            scene.ambient_light.color());
        proof {
            lemma_fixed_mul_scaled_bound(normal.x as int, NUDGE as int, 4000, 2);
            lemma_fixed_mul_scaled_bound(normal.y as int, NUDGE as int, 4000, 2);
            lemma_fixed_mul_scaled_bound(normal.z as int, NUDGE as int, 4000, 2);
        }
        let nudged = hit_info.hit_point.displace(normal.mul(NUDGE));
        proof {
            assert(nudged == nudged_point(hit_info.hit_point, normal));
            assert(scene.lights@.take(0) =~= Seq::<Light>::empty());
        }
        let ghost base0 = base_color;
        let nlights = scene.lights.len();
        let mut i: usize = 0;
        while i < nlights
            invariant
                0 <= i <= nlights,
                nlights == scene.lights@.len(),
                material_wf(Material::Diffuse(*self)),
                hit_info_wf(*hit_info),
                scene_wf(*scene),
                vec3_bounded(normal, NMAX as int),
                normal_color == color_of_vec(normal),
                nudged == nudged_point(hit_info.hit_point, normal),
                crate::linalg::point3::point3_bounded(nudged, PMAX as int),
                color_bounded(base0, SCALE as int),
                base_color == shade_fold(scene.lights@.take(i as int), *self, normal,
                    hit_info.hit_point, scene.shape, base0),
                color_bounded(base_color, 1000 + 4000 * i),
            decreases nlights - i,
        {
            let light = &scene.lights[i];
            let light_direction = light.direction_from_point(hit_info.hit_point);
            proof {
                lemma_mul_bound(normal.x as int, light_direction.x as int, 4000, 1000);
                lemma_mul_bound(normal.y as int, light_direction.y as int, 4000, 1000);
                lemma_mul_bound(normal.z as int, light_direction.z as int, 4000, 1000);
            }
            let dp = normal.dot(light_direction);
            proof {
                lemma_light_term_bounded(*self, scene.lights@[i as int], normal,
                    hit_info.hit_point, scene.shape);
                lemma_shade_fold_bounded(scene.lights@.take(i as int), *self, normal,
                    hit_info.hit_point, scene.shape, base0);
            }
            if dp > 0 && light.illuminates_point(nudged, &scene.shape) {
                let ratio = crate::div_trunc(light.geometric_factor() * SCALE,
                    light.probability_density());
                proof {
                    lemma_light_color_of_unit(scene.lights@[i as int]);
                    lemma_unit_color_scaled(self.diffuse_color, self.diffuse_reflection as int);
                    lemma_unit_color_scaled(color_scale_spec(self.diffuse_color,
                        self.diffuse_reflection as int), INV_PI as int);
                    lemma_unit_color_scaled(light_color_of(scene.lights@[i as int]),
                        gf_pd_ratio());
                }
                let a = self.diffuse_color.mul_scalar(self.diffuse_reflection).mul_scalar(
                    INV_PI);
                let b = light.color().mul_scalar(ratio);
                proof {
                    lemma_unit_color_mul(color_scale_spec(color_scale_spec(self.diffuse_color,
                        self.diffuse_reflection as int), INV_PI as int),
                        color_scale_spec(light_color_of(scene.lights@[i as int]),
                        gf_pd_ratio()));
                    lemma_fixed_mul_scaled_bound(normal.x as int, light_direction.x as int,
                        4000, 1000);
                    lemma_fixed_mul_scaled_bound(normal.y as int, light_direction.y as int,
                        4000, 1000);
                    lemma_fixed_mul_scaled_bound(normal.z as int, light_direction.z as int,
                        4000, 1000);
                }
                let cc = normal_color.mul(Color::new(light_direction.x, light_direction.y,
                    light_direction.z));
                let term = a.mul(b).mul(cc);
                proof {
                    let lgt = scene.lights@[i as int];
                    let ld = light_direction_spec(lgt, hit_info.hit_point);
                    let sa = color_scale_spec(color_scale_spec(self.diffuse_color,
                        self.diffuse_reflection as int), INV_PI as int);
                    let sb = color_scale_spec(light_color_of(lgt), gf_pd_ratio());
                    let sab = color_mul_spec(sa, sb);
                    let sc = color_mul_spec(color_of_vec(normal), color_of_vec(ld));
                    lemma_fixed_mul_scaled_bound(sab.r as int, sc.r as int, 1000, 4000);
                    lemma_fixed_mul_scaled_bound(sab.g as int, sc.g as int, 1000, 4000);
                    lemma_fixed_mul_scaled_bound(sab.b as int, sc.b as int, 1000, 4000);
                    assert(a == sa);
                    assert(b == sb);
                    assert(cc == sc);
                    assert(term == light_term(*self, lgt, normal, hit_info.hit_point,
                        scene.shape));
                }
                base_color.add_assign(term);
            } else {
                base_color.add_assign(Color::black());
            }
            proof {
                assert(scene.lights@.take(i + 1).drop_last() =~= scene.lights@.take(i as int));
                assert(scene.lights@.take(i + 1).last() == scene.lights@[i as int]);
            }
            i = i + 1;
        }
        proof {
            assert(scene.lights@.take(nlights as int) =~= scene.lights@);
            lemma_shade_fold_bounded(scene.lights@, *self, normal, hit_info.hit_point,
                scene.shape, base0);
        }
        base_color
    }
}

impl DebugMaterial {
    /// Shade any hit with the fixed magenta marker.
    pub fn shade(&self, _ray: &Ray, _hit_info: &HitInfo, _scene: &Scene) -> (c: Color)
        ensures
            c == marker_color(),
    {
        Color { r: SCALE, g: COLOR_EPS, b: SCALE }
    }
}

impl Material {
    /// Shade a hit with whichever material the surface carries.
    pub fn shade(&self, ray: &Ray, hit_info: &HitInfo, scene: &Scene) -> (c: Color)
        requires
            material_wf(*self),
            hit_info_wf(*hit_info),
            scene_wf(*scene),
            vec3_bounded(ray.direction, DMAX as int),
        ensures
            c == shade_spec(*self, *ray, *hit_info, *scene),
            color_bounded(c, SHADE_CAP as int),
    {
        match self {
            Material::Diffuse(d) => d.shade(ray, hit_info, scene),
            Material::Marker(d) => d.shade(ray, hit_info, scene),
        }
    }
}

} // verus!
