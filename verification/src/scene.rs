//! The immutable collection of primitives a render reads.

use vstd::prelude::*;
use crate::fx::{fxmul, tdiv, SCALE, CHANNEL_MAX};
use crate::objects::{Object, Sphere, Cube, Cylinder, FlatPlane};
use crate::textures::Texture;
use crate::vec3::{Vec3, Color};

verus! {

/// Brightness given to a scene built with a non-positive value: a small
/// positive floor, so missed rays never resolve to exact black.
pub const BRIGHTNESS_FLOOR: i64 = 100;

/// The scene: every primitive, plus the ambient brightness in `(0, SCALE]`.
/// Built once and read-only for the whole render.
pub struct Scene {
    pub objects: Vec<Object>,
    pub brightness: i64,
}

/// What scene construction does to a requested brightness: values above one
/// clamp to one, non-positive values take the small floor.
pub open spec fn spec_clamp_brightness(b: int) -> int {
    if b > SCALE as int {
        SCALE as int
    } else if b <= 0 {
        BRIGHTNESS_FLOOR as int
    } else {
        b
    }
}

/// The background color at a given brightness: white scaled down.
pub open spec fn spec_background(b: int) -> Vec3 {
    Vec3 {
        x: fxmul(CHANNEL_MAX as int, b) as i64,
        y: fxmul(CHANNEL_MAX as int, b) as i64,
        z: fxmul(CHANNEL_MAX as int, b) as i64,
    }
}

impl Scene {
    /// Brightness in `(0, SCALE]` and every object well-formed.
    pub open spec fn wf(self) -> bool {
        &&& 0 < self.brightness <= SCALE
        &&& forall|i: int| 0 <= i < self.objects@.len() ==> #[trigger] self.objects@[i].wf()
    }

    /// A scene from the given primitives, with brightness clamped.
    pub fn new(objects: Vec<Object>, brightness: i64) -> (r: Scene)
        requires
            forall|i: int| 0 <= i < objects@.len() ==> #[trigger] objects@[i].wf(),
        ensures
            r.wf(),
            r.objects@ == objects@,
            r.brightness == spec_clamp_brightness(brightness as int),
    {
        let b = if brightness > SCALE {
            SCALE
        } else if brightness <= 0 {
            BRIGHTNESS_FLOOR
        } else {
            brightness
        };
        Scene { objects, brightness: b }
    }

    /// The demonstration scene: a ground disk, a cylinder, a sphere and a
    /// cube, all diffusive.
    pub fn init(brightness: i64) -> (r: Scene)
        ensures
            r.wf(),
            r.brightness == spec_clamp_brightness(brightness as int),
            r.objects@.len() == 4,
            r.objects@[0] == Object::FlatPlane(
                FlatPlane {
                    center: Vec3 { x: 0i64, y: 0i64, z: 0i64 },
                    radius: 10_000_000i64,
                    texture: Texture::Diffusive(
                        Vec3 { x: 135_000_000i64, y: 206_000_000i64, z: 250_000_000i64 },
                    ),
                },
            ),
            r.objects@[1] matches Object::Cylinder(c) && c.center == (Vec3 { x: 0i64, y: 0i64, z: 0i64 })
                && c.radius == 1_000_000i64 && c.height == 2_000_000i64,
            r.objects@[2] == Object::Sphere(
                Sphere {
                    center: Vec3 { x: 3_000_000i64, y: 1_000_000i64, z: 0i64 },
                    radius: 1_000_000i64,
                    texture: Texture::Diffusive(
                        Vec3 { x: 152_000_000i64, y: 251_000_000i64, z: 152_000_000i64 },
                    ),
                },
            ),
            r.objects@[3] == Object::Cube(
                Cube {
                    center: Vec3 { x: -3_000_000i64, y: 500_000i64, z: 0i64 },
                    size: 1_000_000i64,
                    texture: Texture::Diffusive(
                        Vec3 { x: 255_000_000i64, y: 127_000_000i64, z: 80_000_000i64 },
                    ),
                },
            ),
    {
        let flat_plane = FlatPlane::new(Vec3::zero(), 10 * SCALE, Texture::Diffusive(
            Vec3::light_blue(),
        ));
        let light = Cylinder::new(Vec3::zero(), SCALE, 2 * SCALE, Texture::Diffusive(
            Vec3::orange(),
        ));
        let sphere = Sphere::new(Vec3::new(3 * SCALE, SCALE, 0), SCALE, Texture::Diffusive(
            Vec3::mint_green(),
        ));
        let cube = Cube::new(Vec3::new(-3 * SCALE, SCALE / 2, 0), SCALE, Texture::Diffusive(
            Vec3::coral(),
        ));
        let mut objects: Vec<Object> = Vec::new();
        objects.push(Object::FlatPlane(flat_plane));
        objects.push(Object::Cylinder(light));
        objects.push(Object::Sphere(sphere));
        objects.push(Object::Cube(cube));
        proof {
            assert(forall|i: int| 0 <= i < objects@.len() ==> #[trigger] objects@[i].wf());
        }
        Self::new(objects, brightness)
    }

    /// The color a ray that met nothing resolves to.
    pub fn background(&self) -> (r: Color)
        requires
            self.wf(),
        ensures
            r == spec_background(self.brightness as int),
            r.color_wf(),
    {
        let ch = scaled_channel(self.brightness);
        Vec3 { x: ch, y: ch, z: ch }
    }
}

/// A brighter scene has a brighter background, channel for channel.
pub proof fn lemma_background_monotone(b1: int, b2: int)
    requires
        0 < b1 <= b2 <= SCALE,
    ensures
        spec_background(b1).x <= spec_background(b2).x,
        spec_background(b1).y <= spec_background(b2).y,
        spec_background(b1).z <= spec_background(b2).z,
{
    assert(0 <= tdiv(CHANNEL_MAX as int * b1, SCALE as int) <= tdiv(
        CHANNEL_MAX as int * b2,
        SCALE as int,
    ) && tdiv(CHANNEL_MAX as int * b2, SCALE as int) <= CHANNEL_MAX as int) by (nonlinear_arith)
        requires
            0 < b1 <= b2 <= SCALE,
            SCALE == 1_000_000i64,
            CHANNEL_MAX == 255_000_000i64,
    ;
}

/// One channel of the background: full white scaled by the brightness.
fn scaled_channel(b: i64) -> (r: i64)
    requires
        0 < b <= SCALE,
    ensures
        r == fxmul(CHANNEL_MAX as int, b as int),
        0 <= r <= CHANNEL_MAX,
{
    let w = crate::vec3::wide_mul(CHANNEL_MAX, b);
    let q = crate::fx::tdiv_i128(w, SCALE as i128);
    proof {
        assert(0 <= crate::fx::tdiv(w as int, SCALE as int) <= CHANNEL_MAX as int)
            by (nonlinear_arith)
            requires
                w == (CHANNEL_MAX as int) * (b as int),
                0 < b <= SCALE,
                SCALE == 1_000_000i64,
                CHANNEL_MAX == 255_000_000i64,
        ;
    }
    q as i64
}

} // verus!
