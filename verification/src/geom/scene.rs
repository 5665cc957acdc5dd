//! The scene: every shape and light, and the single trace entry point.

use vstd::prelude::*;
use crate::film::color::{clamp_channel_spec, color_add_spec, color_bounded, color_in_unit,
    encode_channel, Color};
use crate::film::pinhole_camera::{cam_wf, sample_ray, PinholeCamera};
use crate::geom::mat::{shade_spec, SHADE_CAP};
use crate::geom::{shape_hit_spec, shape_wf, Shape, DMAX, PMAX};
use crate::light::{light_wf, Light};
use crate::linalg::point3::point3_bounded;
use crate::linalg::ray::Ray;
use crate::linalg::vec3::{length_squared_spec, vec3_bounded};
use crate::{div_trunc, lemma_mul_bound, lemma_tdiv_bound, tdiv, SCALE};

verus! {

/// The largest number of lights a scene carries.
pub const LIGHTS_CAP: usize = 65536;

/// A complete scene: the lights, the single ambient light, and the
/// aggregate shape; immutable once constructed.
#[derive(Debug, Clone)]
pub struct Scene {
    pub lights: Vec<Light>,
    pub ambient_light: Light,
    pub shape: Shape,
}

/// Every part of the scene is well formed and the light list is not
/// unreasonably long.
pub open spec fn scene_wf(s: Scene) -> bool {
    &&& shape_wf(s.shape)
    &&& light_wf(s.ambient_light)
    &&& s.lights@.len() <= LIGHTS_CAP
    &&& forall|i: int| 0 <= i < s.lights@.len() ==> light_wf(#[trigger] s.lights@[i])
}

/// What tracing a ray through the scene yields: black for a degenerate
/// (all-zero) direction or a miss, and otherwise the hit material's
/// shading of the nearest hit.
pub open spec fn trace_spec(s: Scene, ray: Ray) -> Color {
    if ray.direction.x == 0 && ray.direction.y == 0 && ray.direction.z == 0 {
        Color { r: 0, g: 0, b: 0 }
    } else {
        match shape_hit_spec(s.shape, ray) {
            None => Color { r: 0, g: 0, b: 0 },
            Some(h) => shade_spec(h.material, ray, h, s),
        }
    }
}

impl Scene {
    /// Trace a ray: delegate to the aggregate shape's intersection, and on
    /// a hit to the hit material's shading; a miss, like a degenerate
    /// all-zero direction, contributes black.
    pub fn trace(&self, ray: &Ray) -> (c: Color)
        requires
            scene_wf(*self),
            point3_bounded(ray.origin, PMAX as int),
            vec3_bounded(ray.direction, DMAX as int),
        ensures
            c == trace_spec(*self, *ray),
            color_bounded(c, SHADE_CAP as int),
    {
        let d = ray.direction;
        if d.x == 0 && d.y == 0 && d.z == 0 {
            return Color::black();
        }
        proof {
            lemma_mul_bound(d.x as int, d.x as int, 2097152, 2097152);
            lemma_mul_bound(d.y as int, d.y as int, 2097152, 2097152);
            lemma_mul_bound(d.z as int, d.z as int, 2097152, 2097152);
            assert(length_squared_spec(d) >= 1) by (nonlinear_arith)
                requires !(d.x == 0 && d.y == 0 && d.z == 0) && length_squared_spec(d) == d.x
                    * d.x + d.y * d.y + d.z * d.z;
        }
        match self.shape.hit(ray) {
            None => Color::black(),
            Some(hit_info) => hit_info.material.shade(ray, &hit_info, self),
        }
    }
}

/// The running sum of a pixel: the background color plus the traces of
/// the first `k` of its sixteen sample rays.
pub open spec fn pixel_fold(s: Scene, cam: PinholeCamera, x: int, y: int, k: int, bg: Color)
    -> Color
    decreases k,
{
    if k <= 0 {
        bg
    } else {
        color_add_spec(pixel_fold(s, cam, x, y, k - 1, bg),
            trace_spec(s, sample_ray(cam, x, y, k - 1)))
    }
}

/// The color of a pixel before encoding: the background plus all sixteen
/// sample traces, divided by sixteen, rounding toward zero.
pub open spec fn pixel_color_spec(s: Scene, cam: PinholeCamera, x: int, y: int, bg: Color)
    -> Color {
    let acc = pixel_fold(s, cam, x, y, 16, bg);
    Color {
        r: tdiv(acc.r as int, 16) as i64,
        g: tdiv(acc.g as int, 16) as i64,
        b: tdiv(acc.b as int, 16) as i64,
    }
}

impl Scene {
    /// One finished pixel: the background plus the traces of the sixteen
    /// stratified sample rays for `(x, y)`, averaged, clamped to the unit
    /// interval and encoded to three 8-bit values.
    pub fn render_pixel(&self, camera: &PinholeCamera, background: Color, x: u32, y: u32)
        -> (rgb: [u8; 3])
        requires
            scene_wf(*self),
            cam_wf(*camera),
            color_in_unit(background),
            (x as int) * SCALE + SCALE <= 2 * camera.half_width,
            (y as int) * SCALE + SCALE <= 2 * camera.half_height,
        ensures
            rgb[0] == encode_channel(clamp_channel_spec(pixel_color_spec(*self, *camera,
                x as int, y as int, background).r as int)),
            rgb[1] == encode_channel(clamp_channel_spec(pixel_color_spec(*self, *camera,
                x as int, y as int, background).g as int)),
            rgb[2] == encode_channel(clamp_channel_spec(pixel_color_spec(*self, *camera,
                x as int, y as int, background).b as int)),
    {
        let rays = camera.get_rays_for_coordinate(x, y);
        let mut color = background;
        let mut i: usize = 0;
        while i < 16
            invariant
                0 <= i <= 16,
                rays@.len() == 16,
                scene_wf(*self),
                cam_wf(*camera),
                color_in_unit(background),
                forall|k: int| 0 <= k < 16 ==> #[trigger] rays@[k] == sample_ray(*camera,
                    x as int, y as int, k),
                forall|k: int| 0 <= k < 16 ==> point3_bounded((#[trigger] rays@[k]).origin,
                    crate::geom::CMAX as int),
                forall|k: int| 0 <= k < 16 ==> vec3_bounded((#[trigger] rays@[k]).direction,
                    DMAX as int),
                color == pixel_fold(*self, *camera, x as int, y as int, i as int, background),
                color_bounded(color, 1000 + 262145000 * (i as int)),
            decreases 16 - i,
        {
            let t = self.trace(&rays[i]);
            color.add_assign(t);
            i = i + 1;
        }
        proof {
            lemma_tdiv_bound(color.r as int, 16, 4195321000);
            lemma_tdiv_bound(color.g as int, 16, 4195321000);
            lemma_tdiv_bound(color.b as int, 16, 4195321000);
        }
        let avg = Color {
            r: div_trunc(color.r, 16),
            g: div_trunc(color.g, 16),
            b: div_trunc(color.b, 16),
        };
        avg.clamp().to_rgb()
    }

    /// A whole frame, row-major: pixel `(x, y)` lands at index
    /// `y * width + x`. Pure computation; the caller owns the sink that
    /// turns the grid into an image file.
    pub fn render(&self, camera: &PinholeCamera, background: Color, width: u32, height: u32)
        -> (frame: Vec<[u8; 3]>)
        requires
            scene_wf(*self),
            cam_wf(*camera),
            color_in_unit(background),
            1 <= width,
            1 <= height,
            (width as int) * SCALE <= 2 * camera.half_width,
            (height as int) * SCALE <= 2 * camera.half_height,
            (width as int) * (height as int) <= 16777216,
        ensures
            frame@.len() == (width as int) * (height as int),
            forall|idx: int| 0 <= idx < frame@.len() ==> {
                let px = (#[trigger] frame@[idx]);
                let col = pixel_color_spec(*self, *camera, idx % (width as int),
                    idx / (width as int), background);
                &&& px[0] == encode_channel(clamp_channel_spec(col.r as int))
                &&& px[1] == encode_channel(clamp_channel_spec(col.g as int))
                &&& px[2] == encode_channel(clamp_channel_spec(col.b as int))
            },
    {
        let mut frame: Vec<[u8; 3]> = Vec::new();
        let w = width as usize;
        let mut y: u32 = 0;
        while y < height
            invariant
                0 <= y <= height,
                w == width,
                1 <= width,
                scene_wf(*self),
                cam_wf(*camera),
                color_in_unit(background),
                (width as int) * SCALE <= 2 * camera.half_width,
                (height as int) * SCALE <= 2 * camera.half_height,
                (width as int) * (height as int) <= 16777216,
                frame@.len() == (y as int) * (width as int),
                forall|idx: int| 0 <= idx < frame@.len() ==> {
                    let px = (#[trigger] frame@[idx]);
                    let col = pixel_color_spec(*self, *camera, idx % (width as int),
                        idx / (width as int), background);
                    &&& px[0] == encode_channel(clamp_channel_spec(col.r as int))
                    &&& px[1] == encode_channel(clamp_channel_spec(col.g as int))
                    &&& px[2] == encode_channel(clamp_channel_spec(col.b as int))
                },
            decreases height - y,
        {
            let mut x: u32 = 0;
            proof {
                lemma_row_bound(y as int, width as int, height as int);
            }
            while x < width
                invariant
                    0 <= x <= width,
                    0 <= y < height,
                    w == width,
                    1 <= width,
                    scene_wf(*self),
                    cam_wf(*camera),
                    color_in_unit(background),
                    (width as int) * SCALE <= 2 * camera.half_width,
                    (height as int) * SCALE <= 2 * camera.half_height,
                    (width as int) * (height as int) <= 16777216,
                    (y as int) * (width as int) + width <= 16777216,
                    frame@.len() == (y as int) * (width as int) + x as int,
                    forall|idx: int| 0 <= idx < frame@.len() ==> {
                        let px = (#[trigger] frame@[idx]);
                        let col = pixel_color_spec(*self, *camera, idx % (width as int),
                            idx / (width as int), background);
                        &&& px[0] == encode_channel(clamp_channel_spec(col.r as int))
                        &&& px[1] == encode_channel(clamp_channel_spec(col.g as int))
                        &&& px[2] == encode_channel(clamp_channel_spec(col.b as int))
                    },
                decreases width - x,
            {
                let rgb = self.render_pixel(camera, background, x, y);
                proof {
                    let idx = (y as int) * (width as int) + x as int;
                    vstd::arithmetic::div_mod::lemma_fundamental_div_mod_converse(idx,
                        width as int, y as int, x as int);
                }
                frame.push(rgb);
                x = x + 1;
            }
            proof {
                assert((y as int) * (width as int) + width as int == (y as int + 1) * (
                width as int)) by (nonlinear_arith);
            }
            y = y + 1;
        }
        proof {
            assert(frame@.len() == (width as int) * (height as int)) by (nonlinear_arith)
                requires frame@.len() == (height as int) * (width as int);
        }
        frame
    }
}

/// Every finished row leaves room for the next within the frame cap.
proof fn lemma_row_bound(y: int, width: int, height: int)
    requires
        0 <= y < height,
        1 <= width,
        width * height <= 16777216,
    ensures
        y * width + width <= 16777216,
{
    assert(y * width + width <= height * width) by (nonlinear_arith)
        requires 0 <= y < height && 1 <= width;
    assert(height * width == width * height) by (nonlinear_arith);
}

} // verus!
