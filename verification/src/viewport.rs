//! The view plane a camera projects onto.

use vstd::prelude::*;
use crate::fx::{tdiv, fxmul, atan_fx, spec_atan, abs_int, SCALE, PI_FX};
use crate::vec3::{Vec3, Point, Color};

verus! {

/// The view plane: its extent, its distance from the eye, its field of view
/// in fixed-point degrees, and the pixel rows projected onto it.
#[derive(Debug)]
pub struct ViewPort {
    pub width: i64,
    pub height: i64,
    pub distance: i64,
    pub fov: i64,
    pub pixels: Vec<Vec<Color>>,
}

/// The field of view, in fixed-point degrees, of a plane of the given width
/// at the given distance.
pub open spec fn spec_field_of_view(width: int, distance: int) -> int {
    let radians = 2 * spec_atan(crate::fx::fxmul(tdiv(width, 2), distance));
    tdiv(radians * 180 * (SCALE as int), PI_FX as int)
}

/// The largest view-plane extent `field_of_view` accepts.
pub const VIEW_LIMIT: i64 = 1_000_000_000_000;

/// The field of view, in fixed-point degrees.
pub fn field_of_view(width: i64, distance: i64) -> (r: i64)
    requires
        0 <= width <= VIEW_LIMIT,
        0 <= distance <= VIEW_LIMIT,
    ensures
        r == spec_field_of_view(width as int, distance as int),
{
    let half = ((width as u64) / 2) as i64;
    let w = crate::vec3::wide_mul(half, distance);
    let scaled = crate::fx::tdiv_i128(w, SCALE as i128);
    proof {
        assert((half as int) * (distance as int) <= 1_000_000_000_000_000_000int * (SCALE as int))
            by (nonlinear_arith)
            requires
                0 <= half <= VIEW_LIMIT,
                0 <= distance <= VIEW_LIMIT,
                VIEW_LIMIT == 1_000_000_000_000i64,
                SCALE == 1_000_000i64,
        ;
        crate::fx::lemma_tdiv_bound(
            (half as int) * (distance as int),
            SCALE as int,
            1_000_000_000_000_000_000int,
        );
    }
    let arg = scaled as i64;
    let radians = atan_fx(arg);
    let num = 2 * (radians as i128) * 180 * (SCALE as i128);
    proof {
        assert(abs_int(tdiv(num as int, PI_FX as int)) <= 1_000_000_000int) by (nonlinear_arith)
            requires
                num == 2 * (radians as int) * 180 * (SCALE as int),
                abs_int(radians as int) <= 2 * SCALE as int,
                SCALE == 1_000_000i64,
                PI_FX == 3_141_593i64,
        ;
    }
    crate::fx::tdiv_i128(num, PI_FX as i128) as i64
}

impl ViewPort {
    pub fn new(width: i64, height: i64, distance: i64) -> (r: ViewPort)
        requires
            0 <= width <= VIEW_LIMIT,
            0 <= height <= VIEW_LIMIT,
            0 <= distance <= VIEW_LIMIT,
        ensures
            r.width == width,
            r.height == height,
            r.distance == distance,
            r.fov == spec_field_of_view(width as int, distance as int),
            r.pixels@.len() == 0,
    {
        ViewPort { width, height, distance, fov: field_of_view(width, distance), pixels: Vec::new() }
    }

    /// The corner at negative half width and negative half height.
    pub fn top_left(&self) -> (r: Point)
        requires
            0 <= self.width <= VIEW_LIMIT,
            0 <= self.height <= VIEW_LIMIT,
        ensures
            r.x == -tdiv(self.width as int, 2),
            r.y == -tdiv(self.height as int, 2),
            r.z == 0,
    {
        let hw = ((self.width as u64) / 2) as i64;
        let hh = ((self.height as u64) / 2) as i64;
        Vec3 { x: -hw, y: -hh, z: 0 }
    }

    /// The corner at positive half width and negative half height.
    pub fn top_right(&self) -> (r: Point)
        requires
            0 <= self.width <= VIEW_LIMIT,
            0 <= self.height <= VIEW_LIMIT,
        ensures
            r.x == tdiv(self.width as int, 2),
            r.y == -tdiv(self.height as int, 2),
            r.z == 0,
    {
        let hw = ((self.width as u64) / 2) as i64;
        let hh = ((self.height as u64) / 2) as i64;
        Vec3 { x: hw, y: -hh, z: 0 }
    }

    /// The corner at negative half width and positive half height.
    pub fn bottom_left(&self) -> (r: Point)
        requires
            0 <= self.width <= VIEW_LIMIT,
            0 <= self.height <= VIEW_LIMIT,
        ensures
            r.x == -tdiv(self.width as int, 2),
            r.y == tdiv(self.height as int, 2),
            r.z == 0,
    {
        let hw = ((self.width as u64) / 2) as i64;
        let hh = ((self.height as u64) / 2) as i64;
        Vec3 { x: -hw, y: hh, z: 0 }
    }

    /// The corner at positive half width and positive half height.
    pub fn bottom_right(&self) -> (r: Point)
        requires
            0 <= self.width <= VIEW_LIMIT,
            0 <= self.height <= VIEW_LIMIT,
        ensures
            r.x == tdiv(self.width as int, 2),
            r.y == tdiv(self.height as int, 2),
            r.z == 0,
    {
        let hw = ((self.width as u64) / 2) as i64;
        let hh = ((self.height as u64) / 2) as i64;
        Vec3 { x: hw, y: hh, z: 0 }
    }
}

} // verus!
