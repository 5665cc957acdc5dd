//! The pinhole camera: a configuration, a chaining builder, and the
//! deterministic stratified sampler that turns a pixel coordinate into
//! sixteen rays.

use vstd::prelude::*;
use crate::geom::{CMAX, DMAX};
use crate::linalg::orthonormal_base::{apply_coord, onb_bounded, onb_u_spec, onb_v_spec,
    onb_w_spec, OrthonormalBase};
use crate::linalg::point3::{point3_bounded, Point3};
use crate::linalg::ray::Ray;
use crate::linalg::vec3::{vec3_bounded, Vec3};
use crate::{div_trunc, div_trunc_wide, fits_i64, lemma_mul_bound, tdiv, SCALE};

verus! {

/// Samples per pixel axis: a four-by-four stratified grid, sixteen rays.
pub const SAMPLES_PER_AXIS: usize = 4;

/// The largest film width, height (in thousandths of world units) the
/// camera accepts.
pub const FILM_CAP: i64 = 200000;

/// The largest zoom (focal distance, in thousandths) the camera accepts.
pub const ZOOM_CAP: i64 = 262144;

/// The largest pixel resolution per axis the camera accepts.
pub const RES_CAP: u32 = 65536;

/// Everything a pinhole camera is built from.
#[derive(Debug, Clone, Copy, PartialEq, Eq, Structural)]
pub struct PinholeCameraConfig {
    pub position: Point3,
    pub look_at: Point3,
    pub up: Vec3,
    pub zoom: i64,
    pub width: i64,
    pub height: i64,
    pub resolution_x: u32,
    pub resolution_y: u32,
}

/// A configuration the constructor accepts: geometry in the scene box,
/// film, zoom and resolution within their caps.
pub open spec fn config_wf(c: PinholeCameraConfig) -> bool {
    &&& point3_bounded(c.position, CMAX as int)
    &&& point3_bounded(c.look_at, CMAX as int)
    &&& vec3_bounded(c.up, CMAX as int)
    &&& 0 < c.width <= FILM_CAP
    &&& 0 < c.height <= FILM_CAP
    &&& 0 <= c.zoom <= ZOOM_CAP
    &&& 2 <= c.resolution_x <= RES_CAP
    &&& 2 <= c.resolution_y <= RES_CAP
}

/// The view direction the frame is built from: from the look-at target
/// toward the camera position.
pub open spec fn cam_direction(c: PinholeCameraConfig) -> Vec3 {
    Vec3 {
        x: (c.position.x - c.look_at.x) as i64,
        y: (c.position.y - c.look_at.y) as i64,
        z: (c.position.z - c.look_at.z) as i64,
    }
}

/// The camera a configuration builds: the frame from the view direction
/// and the up hint, the physical pitch of one pixel on each axis, half the
/// resolution in fixed-point units, and the negated zoom.
pub open spec fn cam_model(c: PinholeCameraConfig) -> PinholeCamera {
    PinholeCamera {
        base: OrthonormalBase {
            u: onb_u_spec(cam_direction(c), c.up),
            v: onb_v_spec(cam_direction(c), c.up),
            w: onb_w_spec(cam_direction(c)),
        },
        position: c.position,
        pixel_width: ((c.width as int) / (c.resolution_x as int)) as i64,
        pixel_height: ((c.height as int) / (c.resolution_y as int)) as i64,
        half_width: ((c.resolution_x as int) * 500) as i64,
        half_height: ((c.resolution_y as int) * 500) as i64,
        neg_zoom: (-(c.zoom as int)) as i64,
    }
}

/// A pinhole camera, immutable after construction.
#[derive(Debug, Clone, Copy, PartialEq, Eq, Structural)]
pub struct PinholeCamera {
    pub base: OrthonormalBase,
    pub position: Point3,
    pub pixel_width: i64,
    pub pixel_height: i64,
    pub half_width: i64,
    pub half_height: i64,
    pub neg_zoom: i64,
}

/// The invariant a built camera keeps: everything in range, and the pixel
/// pitch small enough that every sample offset stays within the ray
/// direction box.
pub open spec fn cam_wf(c: PinholeCamera) -> bool {
    &&& onb_bounded(c.base)
    &&& point3_bounded(c.position, CMAX as int)
    &&& 0 <= c.pixel_width <= FILM_CAP
    &&& 0 <= c.pixel_height <= FILM_CAP
    &&& 0 <= c.half_width <= 32768000
    &&& 0 <= c.half_height <= 32768000
    &&& -ZOOM_CAP <= c.neg_zoom <= 0
    &&& c.pixel_width * c.half_width <= 100000000
    &&& c.pixel_height * c.half_height <= 100000000
}

/// The sub-pixel offset of sample `j` on one axis, in thousandths:
/// `(j + 1) / (SAMPLES_PER_AXIS + 1)`, so one fifth, two fifths, three
/// fifths, four fifths — all strictly inside the open unit interval.
pub open spec fn sample_offset(j: int) -> int {
    200 * (j + 1)
}

/// Every sample offset lies strictly inside the pixel: between zero and
/// one, both ends excluded.
pub proof fn lemma_sample_offsets_strict(j: int)
    requires
        0 <= j < SAMPLES_PER_AXIS,
    ensures
        0 < sample_offset(j) < SCALE,
{
}

/// The camera-local film coordinate of sample column `xx` in pixel column
/// `x`: the pixel pitch times the signed pixel offset from the film
/// center, as an exact fixed-point product.
pub open spec fn sample_plane(pitch: int, half: int, x: int, o: int) -> int {
    tdiv(pitch * (x * SCALE - half + sample_offset(o)), SCALE as int)
}

/// Sample `k` (row-major in the four-by-four grid) of pixel `(x, y)`: a
/// ray from the camera position through the film point of that sample.
pub open spec fn sample_ray(c: PinholeCamera, x: int, y: int, k: int) -> Ray {
    let px = sample_plane(c.pixel_width as int, c.half_width as int, x, k / 4);
    let py = sample_plane(c.pixel_height as int, c.half_height as int, y, k % 4);
    let pz = c.neg_zoom as int;
    Ray {
        origin: c.position,
        direction: Vec3 {
            x: apply_coord(c.base.u.x as int, c.base.v.x as int, c.base.w.x as int, px, py,
                pz) as i64,
            y: apply_coord(c.base.u.y as int, c.base.v.y as int, c.base.w.y as int, px, py,
                pz) as i64,
            z: apply_coord(c.base.u.z as int, c.base.v.z as int, c.base.w.z as int, px, py,
                pz) as i64,
        },
    }
}

/// A chaining builder over a camera configuration.
#[derive(Debug, Clone, Copy, PartialEq, Eq, Structural)]
pub struct PinholeCameraBuilder {
    pub config: PinholeCameraConfig,
}

impl PinholeCameraBuilder {
    /// Build the camera from the accumulated configuration.
    pub fn build(self) -> (r: PinholeCamera)
        requires
            config_wf(self.config),
        ensures
            r == cam_model(self.config),
            cam_wf(r),
    {
        PinholeCamera::new(&self.config)
    }

    /// Set the pixel resolution.
    pub fn resolution(self, resolution_x: u32, resolution_y: u32) -> (r: Self)
        ensures
            r.config == (PinholeCameraConfig { resolution_x, resolution_y, ..self.config }),
    {
        Self { config: PinholeCameraConfig { resolution_x, resolution_y, ..self.config } }
    }

    /// Set the physical film dimensions.
    pub fn dimensions(self, width: i64, height: i64) -> (r: Self)
        ensures
            r.config == (PinholeCameraConfig { width, height, ..self.config }),
    {
        Self { config: PinholeCameraConfig { width, height, ..self.config } }
    }

    /// Set the film width and derive the height from the aspect ratio of
    /// the configured resolution, rounding toward zero.
    pub fn harmonize_dimensions(self, width: i64) -> (r: Self)
        requires
            self.config.resolution_x >= 1,
            0 <= width <= FILM_CAP,
        ensures
            r.config == (PinholeCameraConfig {
                width,
                height: tdiv(width * self.config.resolution_y,
                    self.config.resolution_x as int) as i64,
                ..self.config
            }),
    {
        proof {
            lemma_mul_bound(width as int, self.config.resolution_y as int, FILM_CAP as int,
                4294967296);
            crate::lemma_tdiv_bound(width * self.config.resolution_y as i64 as int,
                self.config.resolution_x as int, 859032258560000);
        }
        let height = div_trunc_wide((width as i128) * (self.config.resolution_y as i128),
            self.config.resolution_x as i128) as i64;
        Self { config: PinholeCameraConfig { width, height, ..self.config } }
    }

    /// Set the zoom (focal distance scale).
    pub fn zoom(self, zoom: i64) -> (r: Self)
        ensures
            r.config == (PinholeCameraConfig { zoom, ..self.config }),
    {
        Self { config: PinholeCameraConfig { zoom, ..self.config } }
    }

    /// Set the camera position.
    pub fn position(self, position: Point3) -> (r: Self)
        ensures
            r.config == (PinholeCameraConfig { position, ..self.config }),
    {
        Self { config: PinholeCameraConfig { position, ..self.config } }
    }

    /// Set the look-at target.
    pub fn look_at(self, look_at: Point3) -> (r: Self)
        ensures
            r.config == (PinholeCameraConfig { look_at, ..self.config }),
    {
        Self { config: PinholeCameraConfig { look_at, ..self.config } }
    }
}

impl PinholeCamera {
    /// Build the camera: derive the frame from the position-to-target
    /// direction and the up hint, and the per-pixel pitch from the film
    /// dimensions and the resolution.
    pub fn new(config: &PinholeCameraConfig) -> (r: Self)
        requires
            config_wf(*config),
        ensures
            r == cam_model(*config),
            cam_wf(r),
    {
        let pixel_width = div_trunc(config.width, config.resolution_x as i64);
        let pixel_height = div_trunc(config.height, config.resolution_y as i64);
        let direction = config.position.sub(config.look_at);
        let base = OrthonormalBase::construct(direction, config.up);
        let half_width = (config.resolution_x as i64) * 500;
        let half_height = (config.resolution_y as i64) * 500;
        proof {
            lemma_pitch_product(config.width as int, config.resolution_x as int);
            lemma_pitch_product(config.height as int, config.resolution_y as int);
        }
        Self {
            base,
            position: config.position,
            pixel_width,
            pixel_height,
            half_width,
            half_height,
            neg_zoom: -config.zoom,
        }
    }

    /// A builder primed with the default configuration.
    pub fn builder() -> (r: PinholeCameraBuilder)
        ensures
            r.config == (PinholeCameraConfig {
                position: Point3 { x: 0, y: 0, z: (-2000) as i64 },
                look_at: Point3 { x: 0, y: 0, z: 0 },
                up: Vec3 { x: 0, y: SCALE, z: 0 },
                zoom: SCALE,
                width: SCALE,
                height: SCALE,
                resolution_x: 512,
                resolution_y: 512,
            }),
    {
        PinholeCameraBuilder {
            config: PinholeCameraConfig {
                position: Point3 { x: 0, y: 0, z: (-2000) as i64 },
                look_at: Point3 { x: 0, y: 0, z: 0 },
                up: Vec3 { x: 0, y: SCALE, z: 0 },
                zoom: SCALE,
                width: SCALE,
                height: SCALE,
                resolution_x: 512,
                resolution_y: 512,
            },
        }
    }

    /// The sixteen stratified sample rays for pixel `(x, y)`: a
    /// four-by-four sub-pixel grid, each cell sampled at a fixed offset
    /// strictly inside it, in a deterministic row-major order.
    pub fn get_rays_for_coordinate(&self, x: u32, y: u32) -> (rays: Vec<Ray>)
        requires
            cam_wf(*self),
            (x as int) * SCALE + SCALE <= 2 * self.half_width,
            (y as int) * SCALE + SCALE <= 2 * self.half_height,
        ensures
            rays@.len() == 16,
            forall|k: int| 0 <= k < 16 ==> #[trigger] rays@[k] == sample_ray(*self, x as int,
                y as int, k),
            forall|k: int| 0 <= k < 16 ==> point3_bounded((#[trigger] rays@[k]).origin,
                CMAX as int),
            forall|k: int| 0 <= k < 16 ==> vec3_bounded((#[trigger] rays@[k]).direction,
                DMAX as int),
    {
        let mut rays: Vec<Ray> = Vec::new();
        let mut xx: usize = 0;
        while xx < 4
            invariant
                0 <= xx <= 4,
                cam_wf(*self),
                (x as int) * SCALE + SCALE <= 2 * self.half_width,
                (y as int) * SCALE + SCALE <= 2 * self.half_height,
                rays@.len() == 4 * xx,
                forall|k: int| 0 <= k < rays@.len() ==> #[trigger] rays@[k] == sample_ray(
                    *self, x as int, y as int, k),
                forall|k: int| 0 <= k < rays@.len() ==> point3_bounded(
                    (#[trigger] rays@[k]).origin, CMAX as int),
                forall|k: int| 0 <= k < rays@.len() ==> vec3_bounded(
                    (#[trigger] rays@[k]).direction, DMAX as int),
            decreases 4 - xx,
        {
            let mut yy: usize = 0;
            while yy < 4
                invariant
                    0 <= xx < 4,
                    0 <= yy <= 4,
                    cam_wf(*self),
                    (x as int) * SCALE + SCALE <= 2 * self.half_width,
                    (y as int) * SCALE + SCALE <= 2 * self.half_height,
                    rays@.len() == 4 * xx + yy,
                    forall|k: int| 0 <= k < rays@.len() ==> #[trigger] rays@[k] == sample_ray(
                        *self, x as int, y as int, k),
                    forall|k: int| 0 <= k < rays@.len() ==> point3_bounded(
                        (#[trigger] rays@[k]).origin, CMAX as int),
                    forall|k: int| 0 <= k < rays@.len() ==> vec3_bounded(
                        (#[trigger] rays@[k]).direction, DMAX as int),
                decreases 4 - yy,
            {
                proof {
                    lemma_sample_plane_bounds(self.pixel_width as int, self.half_width as int,
                        x as int, xx as int);
                    lemma_sample_plane_bounds(self.pixel_height as int,
                        self.half_height as int, y as int, yy as int);
                }
                let sx: i64 = (x as i64) * SCALE - self.half_width + 200 * ((xx as i64) + 1);
                let sy: i64 = (y as i64) * SCALE - self.half_height + 200 * ((yy as i64) + 1);
                let px = div_trunc_wide((self.pixel_width as i128) * (sx as i128),
                    SCALE as i128) as i64;
                let py = div_trunc_wide((self.pixel_height as i128) * (sy as i128),
                    SCALE as i128) as i64;
                let pz = self.neg_zoom;
                let direction = self.base.apply_vector(Vec3 { x: px, y: py, z: pz });
                let ray = Ray { origin: self.position, direction };
                proof {
                    let k = (4 * xx + yy) as int;
                    vstd::arithmetic::div_mod::lemma_fundamental_div_mod_converse(k, 4,
                        xx as int, yy as int);
                    assert(ray == sample_ray(*self, x as int, y as int, k));
                }
                rays.push(ray);
                yy = yy + 1;
            }
            xx = xx + 1;
        }
        rays
    }
}

/// The pixel pitch times half the resolution in fixed point never exceeds
/// five hundred times the film dimension.
proof fn lemma_pitch_product(dim: int, res: int)
    requires
        0 < dim <= FILM_CAP,
        2 <= res <= RES_CAP,
    ensures
        0 <= dim / res <= FILM_CAP,
        (dim / res) * (res * 500) <= 100000000,
{
    vstd::arithmetic::div_mod::lemma_fundamental_div_mod(dim, res);
    vstd::arithmetic::div_mod::lemma_div_pos_is_pos(dim, res);
    vstd::arithmetic::div_mod::lemma_div_is_ordered_by_denominator(dim, 1, res);
    let q = dim / res;
    assert(q * res <= dim) by (nonlinear_arith)
        requires dim == res * q + dim % res && dim % res >= 0;
    assert((dim / res) * (res * 500) == (q * res) * 500) by (nonlinear_arith)
        requires q == dim / res;
    assert((q * res) * 500 <= dim * 500) by (nonlinear_arith)
        requires q * res <= dim;
}

/// A sample's film coordinate is bounded by six hundred thousand
/// thousandths, well inside the direction box once doubled and summed.
proof fn lemma_sample_plane_bounds(pitch: int, half: int, x: int, o: int)
    requires
        0 <= pitch <= FILM_CAP,
        0 <= half <= 32768000,
        pitch * half <= 100000000,
        0 <= o < 4,
        x * SCALE + SCALE <= 2 * half,
        0 <= x,
    ensures
        -100000 <= sample_plane(pitch, half, x, o) <= 100000,
        fits_i64(pitch * (x * SCALE - half + sample_offset(o))),
{
    let arg = x * SCALE - half + sample_offset(o);
    assert(-half <= arg <= half);
    assert(-(pitch * half) <= pitch * arg <= pitch * half) by (nonlinear_arith)
        requires -half <= arg <= half && 0 <= pitch;
    crate::lemma_tdiv_bound(pitch * arg, SCALE as int, 100000000);
    let m = 100000000int;
    if pitch * arg >= 0 {
        vstd::arithmetic::div_mod::lemma_div_is_ordered(pitch * arg, m, SCALE as int);
        vstd::arithmetic::div_mod::lemma_div_pos_is_pos(pitch * arg, SCALE as int);
    } else {
        vstd::arithmetic::div_mod::lemma_div_is_ordered(-(pitch * arg), m, SCALE as int);
        vstd::arithmetic::div_mod::lemma_div_pos_is_pos(-(pitch * arg), SCALE as int);
    }
}

} // verus!
