//! The camera: per-pixel ray directions, parallel sampling, and the builder
//! that fills unset view parameters with defaults.

use vstd::prelude::*;
use crate::fx::{abs_int, tdiv, fxmul, atan_fx, spec_atan, SCALE, COORD_LIMIT};
use crate::ray::{Ray, pixel_wf};
use crate::scene::Scene;
use crate::vec3::{
    Vec3, Point, Color, Pixels, Resolution, spec_minus, spec_scale_fx, lemma_unit_cross_bound,
    lemma_fxmul_le, wide_mul,
};
use rayon::iter::{IntoParallelIterator, ParallelIterator};

verus! {

pub const DEFAULT_SAMPLE_SIZE: u16 = 1000;

pub const DEFAULT_FOCAL_LENGTH: i64 = 1_000_000;

pub const DEFAULT_SENSOR_WIDTH: i64 = 1_000_000;

pub const DEFAULT_RESOLUTION_WIDTH: u32 = 800;

pub const DEFAULT_RESOLUTION_HEIGHT: u32 = 600;

/// The largest focal length or sensor width a well-formed camera carries.
pub const LENS_LIMIT: i64 = 1_000_000_000_000;

/// The largest argument handed to the arctangent when deriving the field of
/// view; wider lens ratios are clamped to it.
pub const FOV_ARG_MAX: i64 = 1_000_000_000_000_000_000;

/// The derived field of view: twice the arctangent of the sensor half-width
/// over the focal length; zero for degenerate lens parameters.
pub open spec fn spec_fov(sensor: int, focal: int) -> int {
    if focal <= 0 || sensor <= 0 {
        0
    } else {
        let a = tdiv(sensor * (SCALE as int), 2 * focal);
        let clamped = if a > FOV_ARG_MAX as int {
            FOV_ARG_MAX as int
        } else {
            a
        };
        2 * spec_atan(clamped)
    }
}

/// The derived aspect ratio: width over height in fixed point; zero when the
/// height is zero.
pub open spec fn spec_aspect(w: int, h: int) -> int {
    if h == 0 {
        0
    } else {
        tdiv(w * (SCALE as int), h)
    }
}

/// The camera: view parameters, derived fields, and the pixel buffer that
/// `send_rays` fills.
#[derive(Debug)]
pub struct Camera {
    pub sample_size: u16,
    pub position: Point,
    pub look_at: Point,
    pub up_direction: Point,
    pub fov: i64,
    pub resolution: Resolution,
    pub aspect_ratio: i64,
    pub focal_length: i64,
    pub sensor_width: i64,
    pub pixels: Pixels,
}

impl Camera {
    /// View parameters inside the world box, a non-degenerate image, and the
    /// derived aspect ratio tied to the resolution.
    pub open spec fn wf(self) -> bool {
        &&& self.position.in_box()
        &&& self.look_at.in_box()
        &&& self.up_direction.in_box()
        &&& 1 <= self.sample_size
        &&& 1 <= self.resolution.0
        &&& 1 <= self.resolution.1
        &&& 0 < self.focal_length <= LENS_LIMIT
        &&& 0 < self.sensor_width <= LENS_LIMIT
        &&& self.aspect_ratio == spec_aspect(self.resolution.0 as int, self.resolution.1 as int)
    }

    /// The number of pixels of the image.
    pub open spec fn spec_pixel_count(self) -> int {
        self.resolution.0 as int * self.resolution.1 as int
    }

    /// What `ray_direction` computes from a pixel coordinate and a jitter
    /// pair: the pixel mapped into sensor space, spanned by the camera basis.
    pub open spec fn spec_pixel_direction(self, x: u32, y: u32, jx: int, jy: int) -> Vec3 {
        let view = spec_minus(self.position, self.look_at).spec_normalize();
        let right = crate::vec3::spec_cross(self.up_direction, view).spec_normalize();
        let upv = crate::vec3::spec_cross(view, right);
        let nx = tdiv(x as int * (SCALE as int) + jx, self.resolution.0 as int) - 500_000;
        let ny = tdiv(y as int * (SCALE as int) + jy, self.resolution.1 as int) - 500_000;
        let a = spec_scale_fx(right, fxmul(nx, self.aspect_ratio as int));
        let b = spec_scale_fx(upv, ny);
        let c = spec_scale_fx(view, self.focal_length as int);
        spec_minus(crate::vec3::spec_plus(a, b), c)
    }

    /// The direction through pixel `(x, y)` at sub-pixel offset `(jx, jy)`:
    /// deterministic in its arguments.
    pub fn pixel_direction(&self, x: u32, y: u32, jx: i64, jy: i64) -> (r: Vec3)
        requires
            self.wf(),
            x < self.resolution.0,
            y < self.resolution.1,
            0 <= jx < SCALE,
            0 <= jy < SCALE,
        ensures
            r == self.spec_pixel_direction(x, y, jx as int, jy as int),
            abs_int(r.x as int) <= 16 * COORD_LIMIT as int,
            abs_int(r.y as int) <= 16 * COORD_LIMIT as int,
            abs_int(r.z as int) <= 16 * COORD_LIMIT as int,
    {
        let view = self.position.minus(self.look_at).normalize();
        let crossed = self.up_direction.cross(view);
        let right = crossed.normalize();
        proof {
            lemma_unit_cross_bound(view, right);
        }
        let upv = view.cross(right);
        let nx = normalized_coord(x, jx, self.resolution.0);
        let ny = normalized_coord(y, jy, self.resolution.1);
        proof {
            assert(abs_int(self.aspect_ratio as int) <= 4_300_000_000_000_000int) by {
                assert(self.resolution.0 as int * (SCALE as int) <= 4_300_000_000_000_000int * (
                self.resolution.1 as int)) by (nonlinear_arith)
                    requires
                        self.resolution.0 <= u32::MAX,
                        1 <= self.resolution.1,
                        SCALE == 1_000_000i64,
                ;
                crate::fx::lemma_tdiv_bound(
                    self.resolution.0 as int * (SCALE as int),
                    self.resolution.1 as int,
                    4_300_000_000_000_000int,
                );
            }
        }
        let k1 = fxmul_wide(nx, self.aspect_ratio);
        proof {
            assert(abs_int((nx as int) * (self.aspect_ratio as int)) <= 2_150_000_000_000_000int
                * (SCALE as int)) by (nonlinear_arith)
                requires
                    abs_int(nx as int) <= 500_000int,
                    abs_int(self.aspect_ratio as int) <= 4_300_000_000_000_000int,
                    SCALE == 1_000_000i64,
            ;
            crate::fx::lemma_tdiv_bound(
                (nx as int) * (self.aspect_ratio as int),
                SCALE as int,
                2_150_000_000_000_000int,
            );
            lemma_fxmul_le(right.x as int, k1 as int, 1, 2_150_000_000_000_000int);
            lemma_fxmul_le(right.y as int, k1 as int, 1, 2_150_000_000_000_000int);
            lemma_fxmul_le(right.z as int, k1 as int, 1, 2_150_000_000_000_000int);
            lemma_fxmul_le(upv.x as int, ny as int, 2, 500_000int);
            lemma_fxmul_le(upv.y as int, ny as int, 2, 500_000int);
            lemma_fxmul_le(upv.z as int, ny as int, 2, 500_000int);
            lemma_fxmul_le(view.x as int, self.focal_length as int, 1, LENS_LIMIT as int);
            lemma_fxmul_le(view.y as int, self.focal_length as int, 1, LENS_LIMIT as int);
            lemma_fxmul_le(view.z as int, self.focal_length as int, 1, LENS_LIMIT as int);
        }
        let a = right.scale_fx(k1);
        let b = upv.scale_fx(ny);
        let c = view.scale_fx(self.focal_length);
        a.plus(b).minus(c)
    }

    /// The direction through pixel `(x, y)`, jittered uniformly inside the
    /// pixel footprint for box-filter antialiasing.
    pub fn ray_direction(&self, x: u32, y: u32) -> (r: Vec3)
        requires
            self.wf(),
            x < self.resolution.0,
            y < self.resolution.1,
        ensures
            exists|jx: int, jy: int|
                0 <= jx < SCALE && 0 <= jy < SCALE && r == #[trigger] self.spec_pixel_direction(
                    x,
                    y,
                    jx,
                    jy,
                ),
            abs_int(r.x as int) <= 16 * COORD_LIMIT as int,
            abs_int(r.y as int) <= 16 * COORD_LIMIT as int,
            abs_int(r.z as int) <= 16 * COORD_LIMIT as int,
    {
        let jx = crate::rng::rand_below(SCALE as u64) as i64;
        let jy = crate::rng::rand_below(SCALE as u64) as i64;
        let r = self.pixel_direction(x, y, jx, jy);
        proof {
            assert(0 <= (jx as int) && (jx as int) < SCALE as int);
            assert(0 <= (jy as int) && (jy as int) < SCALE as int);
            assert(r == self.spec_pixel_direction(x, y, jx as int, jy as int));
        }
        r
    }

    /// Sample every pixel against the scene, in parallel, and store the
    /// resulting colors row-major in `pixels`.
    pub fn send_rays(&mut self, scene: &Scene)
        requires
            old(self).wf(),
            scene.wf(),
            old(self).spec_pixel_count() <= usize::MAX,
        ensures
            final(self).wf(),
            final(self).sample_size == old(self).sample_size,
            final(self).position == old(self).position,
            final(self).look_at == old(self).look_at,
            final(self).up_direction == old(self).up_direction,
            final(self).fov == old(self).fov,
            final(self).resolution == old(self).resolution,
            final(self).aspect_ratio == old(self).aspect_ratio,
            final(self).focal_length == old(self).focal_length,
            final(self).sensor_width == old(self).sensor_width,
            final(self).pixels@.len() == old(self).spec_pixel_count(),
            forall|i: int|
                0 <= i < final(self).pixels@.len() ==> pixel_wf(#[trigger] final(self).pixels@[i]),
            scene.objects@.len() == 0 ==> forall|i: int|
                0 <= i < final(self).pixels@.len() ==> #[trigger] final(self).pixels@[i]
                    == crate::scene::spec_background(scene.brightness as int),
    {
        let total = (self.resolution.0 as usize) * (self.resolution.1 as usize);
        let colors = par_render(self, scene, total);
        self.pixels = colors;
    }
}

impl Camera {
    /// The rendered pixel buffer serialized as a plain-text PPM image.
    pub fn ppm_bytes(&self) -> (r: Vec<u8>)
        requires
            self.pixels@.len() == self.spec_pixel_count(),
        ensures
            r@ == crate::ppm::ppm_spec(
                self.resolution.0 as int,
                self.resolution.1 as int,
                self.pixels@,
            ),
    {
        crate::ppm::ppm_bytes(self.resolution.0, self.resolution.1, &self.pixels)
    }
}

/// One pixel coordinate mapped into `[-1/2, 1/2)` of sensor space, with its
/// sub-pixel jitter.
fn normalized_coord(p: u32, j: i64, extent: u32) -> (r: i64)
    requires
        p < extent,
        0 <= j < SCALE,
    ensures
        r == tdiv(p as int * (SCALE as int) + j, extent as int) - 500_000,
        -500_000 <= r < 500_000,
{
    proof {
        assert(0 <= p as int * (SCALE as int) + j && p as int * (SCALE as int) + j < extent as int
            * (SCALE as int)) by (nonlinear_arith)
            requires
                p < extent,
                0 <= j < SCALE,
                SCALE == 1_000_000i64,
        ;
        assert(tdiv(p as int * (SCALE as int) + j, extent as int) < SCALE as int)
            by (nonlinear_arith)
            requires
                0 <= p as int * (SCALE as int) + j,
                p as int * (SCALE as int) + j < extent as int * (SCALE as int),
                1 <= extent,
                SCALE == 1_000_000i64,
        ;
    }
    let num = (p as i128) * (SCALE as i128) + (j as i128);
    let q = crate::fx::tdiv_i128(num, extent as i128);
    (q as i64) - 500_000
}

/// The product of a sub-unit coordinate and a wide fixed-point factor.
fn fxmul_wide(a: i64, b: i64) -> (r: i64)
    requires
        abs_int(a as int) <= SCALE as int,
        abs_int(b as int) <= 4_300_000_000_000_000,
    ensures
        r == fxmul(a as int, b as int),
        abs_int(r as int) <= 4_300_000_000_000_000,
{
    let w = wide_mul(a, b);
    let q = crate::fx::tdiv_i128(w, SCALE as i128);
    proof {
        assert(abs_int((a as int) * (b as int)) <= 4_300_000_000_000_000int * (SCALE as int))
            by (nonlinear_arith)
            requires
                abs_int(a as int) <= SCALE as int,
                abs_int(b as int) <= 4_300_000_000_000_000i64,
                SCALE == 1_000_000i64,
        ;
        crate::fx::lemma_tdiv_bound((a as int) * (b as int), SCALE as int, 4_300_000_000_000_000int);
    }
    q as i64
}

/// Render one pixel: average `sample_size` traced, jittered samples; rays
/// that met nothing contribute the background, others their path average,
/// dimmed by the scene brightness when no light was reached.
pub fn render_pixel(cam: &Camera, scene: &Scene, idx: usize) -> (r: Color)
    requires
        cam.wf(),
        scene.wf(),
        idx < cam.spec_pixel_count(),
    ensures
        pixel_wf(r),
        scene.objects@.len() == 0 ==> r == crate::scene::spec_background(
            scene.brightness as int,
        ),
{
    let w = cam.resolution.0;
    proof {
        assert(idx as int / (w as int) < cam.resolution.1 as int) by (nonlinear_arith)
            requires
                idx < cam.resolution.0 as int * cam.resolution.1 as int,
                w == cam.resolution.0,
                1 <= w,
        ;
    }
    let column = ((idx as u64) % (w as u64)) as u32;
    let row = ((idx as u64) / (w as u64)) as u32;
    let mut sx: i64 = 0;
    let mut sy: i64 = 0;
    let mut sz: i64 = 0;
    let mut sample: u16 = 0;
    let samples = cam.sample_size;
    let ghost bg = crate::scene::spec_background(scene.brightness as int);
    while sample < samples
        invariant
            cam.wf(),
            scene.wf(),
            samples == cam.sample_size,
            column < cam.resolution.0,
            row < cam.resolution.1,
            sample <= samples,
            0 <= sx <= sample * (2 * crate::fx::CHANNEL_MAX as int),
            0 <= sy <= sample * (2 * crate::fx::CHANNEL_MAX as int),
            0 <= sz <= sample * (2 * crate::fx::CHANNEL_MAX as int),
            bg == crate::scene::spec_background(scene.brightness as int),
            scene.objects@.len() == 0 ==> sx == sample * (bg.x as int) && sy == sample * (
            bg.y as int) && sz == sample * (bg.z as int),
        decreases samples - sample,
    {
        let direction = cam.ray_direction(column, row);
        let mut ray = Ray::new(cam.position, direction, 0);
        ray.trace(scene);
        let contribution: Color = if ray.collisions.len() == 0 {
            scene.background()
        } else {
            let avg = ray.average_color(scene);
            if ray.hit_light_source {
                avg
            } else {
                dim(avg, scene.brightness)
            }
        };
        proof {
            assert((sample as int) * (2 * crate::fx::CHANNEL_MAX as int) + 2
                * crate::fx::CHANNEL_MAX as int == (sample as int + 1) * (2
                * crate::fx::CHANNEL_MAX as int) && (sample as int + 1) * (2
                * crate::fx::CHANNEL_MAX as int) <= 40_000_000_000_000int) by (nonlinear_arith)
                requires
                    0 <= sample <= 65535,
                    crate::fx::CHANNEL_MAX == 255_000_000i64,
            ;
            if scene.objects@.len() == 0 {
                assert(contribution == bg);
                assert((sample as int + 1) * (bg.x as int) == sample * (bg.x as int) + bg.x && (
                sample as int + 1) * (bg.y as int) == sample * (bg.y as int) + bg.y && (
                sample as int + 1) * (bg.z as int) == sample * (bg.z as int) + bg.z)
                    by (nonlinear_arith);
            }
        }
        sx = sx + contribution.x;
        sy = sy + contribution.y;
        sz = sz + contribution.z;
        sample = sample + 1;
    }
    let n = samples as i128;
    let px = crate::fx::tdiv_i128(sx as i128, n);
    let py = crate::fx::tdiv_i128(sy as i128, n);
    let pz = crate::fx::tdiv_i128(sz as i128, n);
    proof {
        lemma_avg_sample(sx as int, samples as int);
        lemma_avg_sample(sy as int, samples as int);
        lemma_avg_sample(sz as int, samples as int);
        if scene.objects@.len() == 0 {
            assert(0 <= fxmul(crate::fx::CHANNEL_MAX as int, scene.brightness as int)
                <= crate::fx::CHANNEL_MAX as int) by (nonlinear_arith)
                requires
                    0 < scene.brightness <= SCALE,
                    SCALE == 1_000_000i64,
                    crate::fx::CHANNEL_MAX == 255_000_000i64,
            ;
            crate::fx::lemma_tdiv_exact(bg.x as int, samples as int);
            crate::fx::lemma_tdiv_exact(bg.y as int, samples as int);
            crate::fx::lemma_tdiv_exact(bg.z as int, samples as int);
            assert(sx == (samples as int) * (bg.x as int));
            assert(px == bg.x as int && py == bg.y as int && pz == bg.z as int);
        }
    }
    Vec3 { x: px as i64, y: py as i64, z: pz as i64 }
}

/// Averaging a sum of bounded samples stays within the bound.
proof fn lemma_avg_sample(s: int, n: int)
    requires
        1 <= n,
        0 <= s <= n * (2 * crate::fx::CHANNEL_MAX as int),
    ensures
        0 <= tdiv(s, n) <= 2 * crate::fx::CHANNEL_MAX as int,
{
    assert(0 <= s / n <= 2 * crate::fx::CHANNEL_MAX as int) by (nonlinear_arith)
        requires
            1 <= n,
            0 <= s <= n * (2 * crate::fx::CHANNEL_MAX as int),
            crate::fx::CHANNEL_MAX == 255_000_000i64,
    ;
}

/// A pixel color scaled down by the scene brightness.
fn dim(c: Color, brightness: i64) -> (r: Color)
    requires
        pixel_wf(c),
        0 < brightness <= SCALE,
    ensures
        pixel_wf(r),
        r.x == fxmul(c.x as int, brightness as int),
        r.y == fxmul(c.y as int, brightness as int),
        r.z == fxmul(c.z as int, brightness as int),
{
    proof {
        lemma_dim_channel(c.x as int, brightness as int);
        lemma_dim_channel(c.y as int, brightness as int);
        lemma_dim_channel(c.z as int, brightness as int);
    }
    c.scale_fx(brightness)
}

/// Scaling a pixel channel by a sub-unit factor keeps it a pixel channel.
proof fn lemma_dim_channel(v: int, b: int)
    requires
        0 <= v <= 2 * crate::fx::CHANNEL_MAX as int,
        0 < b <= SCALE,
    ensures
        0 <= fxmul(v, b) <= 2 * crate::fx::CHANNEL_MAX as int,
        abs_int(fxmul(v, b)) <= i64::MAX as int,
{
    assert(0 <= tdiv(v * b, SCALE as int) <= 2 * crate::fx::CHANNEL_MAX as int)
        by (nonlinear_arith)
        requires
            0 <= v <= 2 * crate::fx::CHANNEL_MAX as int,
            0 < b <= SCALE,
            SCALE == 1_000_000i64,
            crate::fx::CHANNEL_MAX == 255_000_000i64,
    ;
}

/// Relies on rayon's indexed parallel iterator: mapping `render_pixel` over
/// `0..n` and collecting yields, in index order, exactly the per-index
/// results, so the length and the two per-pixel clauses restate
/// `render_pixel`'s own verified contract, element by element.
#[verifier::external_body]
fn par_render(cam: &Camera, scene: &Scene, n: usize) -> (r: Vec<Color>)
    requires
        cam.wf(),
        scene.wf(),
        n == cam.spec_pixel_count(),
    ensures
        r@.len() == n,
        forall|i: int| 0 <= i < r@.len() ==> pixel_wf(#[trigger] r@[i]),
        scene.objects@.len() == 0 ==> forall|i: int|
            0 <= i < r@.len() ==> #[trigger] r@[i] == crate::scene::spec_background(
                scene.brightness as int,
            ),
{
    (0..n).into_par_iter().map(|i| render_pixel(cam, scene, i)).collect()
}

/// The builder: every view parameter optional, `build` fills in defaults.
#[derive(Default)]
pub struct CameraBuilder {
    pub sample_size: Option<u16>,
    pub position: Option<Point>,
    pub look_at: Option<Point>,
    pub up_direction: Option<Point>,
    pub resolution: Option<Resolution>,
    pub focal_length: Option<i64>,
    pub sensor_width: Option<i64>,
}

impl CameraBuilder {
    pub fn new() -> (r: CameraBuilder)
        ensures
            r.sample_size is None,
            r.position is None,
            r.look_at is None,
            r.up_direction is None,
            r.resolution is None,
            r.focal_length is None,
            r.sensor_width is None,
    {
        CameraBuilder {
            sample_size: None,
            position: None,
            look_at: None,
            up_direction: None,
            resolution: None,
            focal_length: None,
            sensor_width: None,
        }
    }

    pub fn sample_size(self, sample_size: u16) -> (r: CameraBuilder)
        ensures
            r == (CameraBuilder { sample_size: Some(sample_size), ..self }),
    {
        CameraBuilder { sample_size: Some(sample_size), ..self }
    }

    pub fn position_by_coordinates(self, position: Point) -> (r: CameraBuilder)
        ensures
            r == (CameraBuilder { position: Some(position), ..self }),
    {
        CameraBuilder { position: Some(position), ..self }
    }

    /// Positioning by angles is not supported: it resets `look_at` so that
    /// `build` falls back to its default.
    pub fn position_by_degrees(self, horizontal_degrees: i64, vertical_degrees: i64) -> (r:
        CameraBuilder)
        ensures
            r == (CameraBuilder { look_at: None, ..self }),
    {
        let _ = horizontal_degrees;
        let _ = vertical_degrees;
        CameraBuilder { look_at: None, ..self }
    }

    pub fn look_at(self, coordinate: Point) -> (r: CameraBuilder)
        ensures
            r == (CameraBuilder { look_at: Some(coordinate), ..self }),
    {
        CameraBuilder { look_at: Some(coordinate), ..self }
    }

    pub fn up_direction_by_coordinates(self, up_direction: Point) -> (r: CameraBuilder)
        ensures
            r == (CameraBuilder { up_direction: Some(up_direction), ..self }),
    {
        CameraBuilder { up_direction: Some(up_direction), ..self }
    }

    /// Rotating the up direction is not supported: the builder is returned
    /// unchanged.
    pub fn up_direction_by_rotation(self, rotation: i64) -> (r: CameraBuilder)
        ensures
            r == self,
    {
        let _ = rotation;
        self
    }

    pub fn resolution(self, w: u32, h: u32) -> (r: CameraBuilder)
        ensures
            r == (CameraBuilder { resolution: Some((w, h)), ..self }),
    {
        CameraBuilder { resolution: Some((w, h)), ..self }
    }

    pub fn focal_length(self, focal_length: i64) -> (r: CameraBuilder)
        ensures
            r == (CameraBuilder { focal_length: Some(focal_length), ..self }),
    {
        CameraBuilder { focal_length: Some(focal_length), ..self }
    }

    pub fn sensor_width(self, sensor_width: i64) -> (r: CameraBuilder)
        ensures
            r == (CameraBuilder { sensor_width: Some(sensor_width), ..self }),
    {
        CameraBuilder { sensor_width: Some(sensor_width), ..self }
    }

    /// Assemble the camera: every set field is taken exactly as set, every
    /// unset field takes its documented default, and the field of view and
    /// aspect ratio are derived.  Never fails.
    pub fn build(self) -> (r: Camera)
        ensures
            r.sample_size == self.sample_size.unwrap_or(DEFAULT_SAMPLE_SIZE),
            r.position == self.position.unwrap_or(
                Vec3 { x: 1_000_000i64, y: 500_000i64, z: 0i64 },
            ),
            r.look_at == self.look_at.unwrap_or(Vec3 { x: 0i64, y: 0i64, z: 0i64 }),
            r.up_direction == self.up_direction.unwrap_or(
                Vec3 { x: 0i64, y: 1_000_000i64, z: 0i64 },
            ),
            r.resolution == self.resolution.unwrap_or(
                (DEFAULT_RESOLUTION_WIDTH, DEFAULT_RESOLUTION_HEIGHT),
            ),
            r.focal_length == self.focal_length.unwrap_or(DEFAULT_FOCAL_LENGTH),
            r.sensor_width == self.sensor_width.unwrap_or(DEFAULT_SENSOR_WIDTH),
            r.fov == spec_fov(r.sensor_width as int, r.focal_length as int),
            r.aspect_ratio == spec_aspect(r.resolution.0 as int, r.resolution.1 as int),
            r.pixels@.len() == 0,
    {
        let sensor = match self.sensor_width {
            Some(s) => s,
            None => DEFAULT_SENSOR_WIDTH,
        };
        let focal = match self.focal_length {
            Some(f) => f,
            None => DEFAULT_FOCAL_LENGTH,
        };
        let fov = derive_fov(sensor, focal);
        let (width, height) = match self.resolution {
            Some(rr) => rr,
            None => (DEFAULT_RESOLUTION_WIDTH, DEFAULT_RESOLUTION_HEIGHT),
        };
        let aspect_ratio = derive_aspect(width, height);
        Camera {
            sample_size: match self.sample_size {
                Some(s) => s,
                None => DEFAULT_SAMPLE_SIZE,
            },
            position: match self.position {
                Some(p) => p,
                None => Vec3 { x: 1_000_000, y: 500_000, z: 0 },
            },
            look_at: match self.look_at {
                Some(l) => l,
                None => Vec3 { x: 0, y: 0, z: 0 },
            },
            up_direction: match self.up_direction {
                Some(u) => u,
                None => Vec3 { x: 0, y: 1_000_000, z: 0 },
            },
            fov,
            resolution: (width, height),
            aspect_ratio,
            focal_length: focal,
            sensor_width: sensor,
            pixels: Vec::new(),
        }
    }
}

/// The field of view of a lens, per `spec_fov`.
fn derive_fov(sensor: i64, focal: i64) -> (r: i64)
    ensures
        r == spec_fov(sensor as int, focal as int),
{
    if focal <= 0 || sensor <= 0 {
        return 0;
    }
    proof {
        assert(abs_int((sensor as int) * (SCALE as int)) <= 10_000_000_000_000_000_000_000_000int)
            by (nonlinear_arith)
            requires
                0 < sensor <= i64::MAX,
                SCALE == 1_000_000i64,
        ;
    }
    let num = (sensor as i128) * (SCALE as i128);
    let a = crate::fx::tdiv_i128(num, 2 * (focal as i128));
    let clamped: i64 = if a > FOV_ARG_MAX as i128 {
        FOV_ARG_MAX
    } else {
        proof {
            assert(a >= 0) by (nonlinear_arith)
                requires
                    a == tdiv((sensor as int) * (SCALE as int), 2 * (focal as int)),
                    sensor > 0,
                    focal > 0,
                    SCALE == 1_000_000i64,
            ;
        }
        a as i64
    };
    2 * atan_fx(clamped)
}

/// The aspect ratio of a resolution, per `spec_aspect`.
fn derive_aspect(w: u32, h: u32) -> (r: i64)
    ensures
        r == spec_aspect(w as int, h as int),
{
    if h == 0 {
        0
    } else {
        proof {
            assert(0 <= (w as int) * (SCALE as int) <= 4_300_000_000_000_000int * 1int)
                by (nonlinear_arith)
                requires
                    w <= u32::MAX,
                    SCALE == 1_000_000i64,
            ;
            crate::fx::lemma_tdiv_bound(
                (w as int) * (SCALE as int),
                h as int,
                4_300_000_000_000_000int,
            );
        }
        let num = (w as i128) * (SCALE as i128);
        crate::fx::tdiv_i128(num, h as i128) as i64
    }
}

} // verus!
