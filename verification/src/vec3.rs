//! Three-component fixed-point vectors.
//!
//! One type serves as point, direction, surface normal and RGB color, as the
//! renderer reads it; the aliases below name the roles.  A color channel
//! ranges over `0 ..= CHANNEL_MAX` (0.0 to 255.0 in fixed point).

use vstd::prelude::*;
use crate::fx::{abs_int, fxmul, tdiv, sqrt, SCALE, COORD_LIMIT, CHANNEL_MAX, isqrt_u128};

verus! {

/// The bound under which `wide_mul` accepts its factors.
pub const WIDE_LIMIT: i64 = 4_000_000_000_000_000_000;

#[derive(Clone, Copy, Debug, PartialEq, Eq, Structural)]
pub struct Vec3 {
    pub x: i64,
    pub y: i64,
    pub z: i64,
}

/// A location in world space.
pub type Point = Vec3;

/// A direction through world space, normalized wherever a ray stores it.
pub type Direction = Vec3;

/// The normal vector of a surface.
pub type Normal = Vec3;

/// An RGB color; each channel counts `SCALE`-ths of one 0-to-255 step.
pub type Color = Vec3;

/// The rendered pixel buffer.
pub type Pixels = Vec<Color>;

/// Image width and height in pixels.
pub type Resolution = (u32, u32);

/// Exact product of two 64-bit scalars, wide enough never to overflow.
pub fn wide_mul(a: i64, b: i64) -> (r: i128)
    requires
        abs_int(a as int) <= WIDE_LIMIT as int,
        abs_int(b as int) <= WIDE_LIMIT as int,
    ensures
        r == (a as int) * (b as int),
        abs_int(r as int) <= (WIDE_LIMIT as int) * (WIDE_LIMIT as int),
{
    proof {
        assert(abs_int((a as int) * (b as int)) <= (WIDE_LIMIT as int) * (WIDE_LIMIT as int))
            by (nonlinear_arith)
            requires
                abs_int(a as int) <= WIDE_LIMIT as int,
                abs_int(b as int) <= WIDE_LIMIT as int,
        ;
    }
    (a as i128) * (b as i128)
}

impl Vec3 {
    /// Every component lies inside the world box.
    pub open spec fn in_box(self) -> bool {
        &&& abs_int(self.x as int) <= COORD_LIMIT as int
        &&& abs_int(self.y as int) <= COORD_LIMIT as int
        &&& abs_int(self.z as int) <= COORD_LIMIT as int
    }

    /// Every component is at most one world unit: the shape of a normalized
    /// direction or normal.
    pub open spec fn unitish(self) -> bool {
        &&& abs_int(self.x as int) <= SCALE as int
        &&& abs_int(self.y as int) <= SCALE as int
        &&& abs_int(self.z as int) <= SCALE as int
    }

    /// A well-formed color: channels in `0 ..= CHANNEL_MAX`.
    pub open spec fn color_wf(self) -> bool {
        &&& 0 <= self.x <= CHANNEL_MAX
        &&& 0 <= self.y <= CHANNEL_MAX
        &&& 0 <= self.z <= CHANNEL_MAX
    }

    /// The unscaled inner product, over `int`.
    pub open spec fn dot2(self, o: Vec3) -> int {
        (self.x as int) * (o.x as int) + (self.y as int) * (o.y as int) + (self.z as int) * (
        o.z as int)
    }

    /// The squared Euclidean norm, unscaled.
    pub open spec fn norm2(self) -> int {
        self.dot2(self)
    }

    /// The fixed-point Euclidean norm.
    pub open spec fn spec_norm(self) -> int {
        sqrt(self.norm2())
    }

    /// What normalizing computes: components rescaled by the norm, or the
    /// zero vector when the norm vanishes.
    pub open spec fn spec_normalize(self) -> Vec3 {
        let n = self.spec_norm();
        if n == 0 {
            Vec3 { x: 0, y: 0, z: 0 }
        } else {
            Vec3 {
                x: tdiv((self.x as int) * (SCALE as int), n) as i64,
                y: tdiv((self.y as int) * (SCALE as int), n) as i64,
                z: tdiv((self.z as int) * (SCALE as int), n) as i64,
            }
        }
    }

    pub fn new(x: i64, y: i64, z: i64) -> (r: Vec3)
        ensures
            r == (Vec3 { x, y, z }),
    {
        Vec3 { x, y, z }
    }

    pub open spec fn spec_zero() -> Vec3 {
        Vec3 { x: 0, y: 0, z: 0 }
    }

    pub fn zero() -> (r: Vec3)
        ensures
            r == Self::spec_zero(),
    {
        Vec3 { x: 0, y: 0, z: 0 }
    }

    /// The unit vector along positive `y`.
    pub fn up() -> (r: Normal)
        ensures
            r == (Vec3 { x: 0, y: SCALE as i64, z: 0 }),
            r.unitish(),
    {
        Vec3 { x: 0, y: SCALE, z: 0 }
    }

    /// The unit vector along negative `y`.
    pub fn down() -> (r: Normal)
        ensures
            r == (Vec3 { x: 0, y: (-SCALE) as i64, z: 0 }),
            r.unitish(),
    {
        Vec3 { x: 0, y: -SCALE, z: 0 }
    }

    /// Componentwise sum.
    pub fn plus(self, o: Vec3) -> (r: Vec3)
        requires
            i64::MIN <= self.x + o.x <= i64::MAX,
            i64::MIN <= self.y + o.y <= i64::MAX,
            i64::MIN <= self.z + o.z <= i64::MAX,
        ensures
            r.x == self.x + o.x,
            r.y == self.y + o.y,
            r.z == self.z + o.z,
    {
        Vec3 { x: self.x + o.x, y: self.y + o.y, z: self.z + o.z }
    }

    /// Componentwise difference.
    pub fn minus(self, o: Vec3) -> (r: Vec3)
        requires
            i64::MIN <= self.x - o.x <= i64::MAX,
            i64::MIN <= self.y - o.y <= i64::MAX,
            i64::MIN <= self.z - o.z <= i64::MAX,
        ensures
            r.x == self.x - o.x,
            r.y == self.y - o.y,
            r.z == self.z - o.z,
    {
        Vec3 { x: self.x - o.x, y: self.y - o.y, z: self.z - o.z }
    }

    /// The vector scaled by the fixed-point factor `k`.
    pub fn scale_fx(self, k: i64) -> (r: Vec3)
        requires
            abs_int(self.x as int) <= WIDE_LIMIT as int,
            abs_int(self.y as int) <= WIDE_LIMIT as int,
            abs_int(self.z as int) <= WIDE_LIMIT as int,
            abs_int(k as int) <= WIDE_LIMIT as int,
            abs_int(fxmul(self.x as int, k as int)) <= i64::MAX as int,
            abs_int(fxmul(self.y as int, k as int)) <= i64::MAX as int,
            abs_int(fxmul(self.z as int, k as int)) <= i64::MAX as int,
        ensures
            r.x == fxmul(self.x as int, k as int),
            r.y == fxmul(self.y as int, k as int),
            r.z == fxmul(self.z as int, k as int),
    {
        let x = crate::fx::tdiv_i128(wide_mul(self.x, k), SCALE as i128);
        let y = crate::fx::tdiv_i128(wide_mul(self.y, k), SCALE as i128);
        let z = crate::fx::tdiv_i128(wide_mul(self.z, k), SCALE as i128);
        Vec3 { x: x as i64, y: y as i64, z: z as i64 }
    }

    /// The fixed-point inner product of a point-sized and a near-unit vector.
    pub fn dot_fx(self, o: Vec3) -> (r: i64)
        requires
            abs_int(self.x as int) <= 8 * COORD_LIMIT as int,
            abs_int(self.y as int) <= 8 * COORD_LIMIT as int,
            abs_int(self.z as int) <= 8 * COORD_LIMIT as int,
            abs_int(o.x as int) <= 4 * SCALE as int,
            abs_int(o.y as int) <= 4 * SCALE as int,
            abs_int(o.z as int) <= 4 * SCALE as int,
        ensures
            r == tdiv(self.dot2(o), SCALE as int),
            abs_int(r as int) <= 384_000_000_000_000_000,
    {
        let wx = wide_mul(self.x, o.x);
        let wy = wide_mul(self.y, o.y);
        let wz = wide_mul(self.z, o.z);
        proof {
            assert(abs_int(wx as int) <= 8 * (COORD_LIMIT as int) * 4 * (SCALE as int)
                && abs_int(wy as int) <= 8 * (COORD_LIMIT as int) * 4 * (SCALE as int)
                && abs_int(wz as int) <= 8 * (COORD_LIMIT as int) * 4 * (SCALE as int))
                by (nonlinear_arith)
                requires
                    abs_int(self.x as int) <= 8 * COORD_LIMIT as int,
                    abs_int(self.y as int) <= 8 * COORD_LIMIT as int,
                    abs_int(self.z as int) <= 8 * COORD_LIMIT as int,
                    abs_int(o.x as int) <= 4 * SCALE as int,
                    abs_int(o.y as int) <= 4 * SCALE as int,
                    abs_int(o.z as int) <= 4 * SCALE as int,
                    wx == (self.x as int) * (o.x as int),
                    wy == (self.y as int) * (o.y as int),
                    wz == (self.z as int) * (o.z as int),
            ;
        }
        let w = wx + wy + wz;
        let q = crate::fx::tdiv_i128(w, SCALE as i128);
        proof {
            assert(abs_int(q as int) <= 384_000_000_000_000_000) by (nonlinear_arith)
                requires
                    q == tdiv(w as int, SCALE as int),
                    abs_int(w as int) <= 24 * (COORD_LIMIT as int) * 4 * (SCALE as int),
                    SCALE == 1_000_000i64,
                    COORD_LIMIT == 4_000_000_000_000_000i64,
            ;
        }
        q as i64
    }

    /// The fixed-point cross product of a point-sized and a near-unit vector.
    pub fn cross(self, o: Vec3) -> (r: Vec3)
        requires
            self.in_box(),
            abs_int(o.x as int) <= 4 * SCALE as int,
            abs_int(o.y as int) <= 4 * SCALE as int,
            abs_int(o.z as int) <= 4 * SCALE as int,
        ensures
            r.x == tdiv(
                (self.y as int) * (o.z as int) - (self.z as int) * (o.y as int),
                SCALE as int,
            ),
            r.y == tdiv(
                (self.z as int) * (o.x as int) - (self.x as int) * (o.z as int),
                SCALE as int,
            ),
            r.z == tdiv(
                (self.x as int) * (o.y as int) - (self.y as int) * (o.x as int),
                SCALE as int,
            ),
            abs_int(r.x as int) <= 32_000_000_000_000_000,
            abs_int(r.y as int) <= 32_000_000_000_000_000,
            abs_int(r.z as int) <= 32_000_000_000_000_000,
            r == spec_cross(self, o),
    {
        let cx = self.cross_component(self.y, o.z, self.z, o.y);
        let cy = self.cross_component(self.z, o.x, self.x, o.z);
        let cz = self.cross_component(self.x, o.y, self.y, o.x);
        Vec3 { x: cx, y: cy, z: cz }
    }

    /// One component of `cross`: `(p1 * u1 - p2 * u2) / SCALE` for
    /// point-sized `p1, p2` and near-unit `u1, u2`.
    fn cross_component(self, p1: i64, u1: i64, p2: i64, u2: i64) -> (r: i64)
        requires
            abs_int(p1 as int) <= COORD_LIMIT as int,
            abs_int(p2 as int) <= COORD_LIMIT as int,
            abs_int(u1 as int) <= 4 * SCALE as int,
            abs_int(u2 as int) <= 4 * SCALE as int,
        ensures
            r == tdiv((p1 as int) * (u1 as int) - (p2 as int) * (u2 as int), SCALE as int),
            abs_int(r as int) <= 32_000_000_000_000_000,
    {
        let w1 = wide_mul(p1, u1);
        let w2 = wide_mul(p2, u2);
        proof {
            assert(abs_int(w1 as int) <= (COORD_LIMIT as int) * 4 * (SCALE as int)
                && abs_int(w2 as int) <= (COORD_LIMIT as int) * 4 * (SCALE as int))
                by (nonlinear_arith)
                requires
                    abs_int(p1 as int) <= COORD_LIMIT as int,
                    abs_int(p2 as int) <= COORD_LIMIT as int,
                    abs_int(u1 as int) <= 4 * SCALE as int,
                    abs_int(u2 as int) <= 4 * SCALE as int,
                    w1 == (p1 as int) * (u1 as int),
                    w2 == (p2 as int) * (u2 as int),
            ;
        }
        let w = w1 - w2;
        let q = crate::fx::tdiv_i128(w, SCALE as i128);
        proof {
            assert(abs_int(q as int) <= 32_000_000_000_000_000) by (nonlinear_arith)
                requires
                    q == tdiv(w as int, SCALE as int),
                    abs_int(w as int) <= 2 * (COORD_LIMIT as int) * 4 * (SCALE as int),
                    SCALE == 1_000_000i64,
                    COORD_LIMIT == 4_000_000_000_000_000i64,
            ;
        }
        q as i64
    }

    /// The fixed-point Euclidean norm.
    pub fn norm(self) -> (r: i64)
        requires
            abs_int(self.x as int) <= 16 * COORD_LIMIT as int,
            abs_int(self.y as int) <= 16 * COORD_LIMIT as int,
            abs_int(self.z as int) <= 16 * COORD_LIMIT as int,
        ensures
            r == self.spec_norm(),
            0 <= r <= 128_000_000_000_000_000,
            (r as int) * (r as int) <= self.norm2(),
    {
        let wx = wide_mul(self.x, self.x);
        let wy = wide_mul(self.y, self.y);
        let wz = wide_mul(self.z, self.z);
        proof {
            assert(wx >= 0 && wy >= 0 && wz >= 0 && wx + wy + wz <= (3 * 16 * 16) * (
            COORD_LIMIT as int) * (COORD_LIMIT as int)) by (nonlinear_arith)
                requires
                    abs_int(self.x as int) <= 16 * COORD_LIMIT as int,
                    abs_int(self.y as int) <= 16 * COORD_LIMIT as int,
                    abs_int(self.z as int) <= 16 * COORD_LIMIT as int,
                    wx == (self.x as int) * (self.x as int),
                    wy == (self.y as int) * (self.y as int),
                    wz == (self.z as int) * (self.z as int),
                    COORD_LIMIT > 0,
            ;
        }
        let n2 = (wx + wy + wz) as u128;
        let r = isqrt_u128(n2);
        proof {
            crate::fx::lemma_sqrt(n2 as int);
            assert((r as int) * (r as int) <= n2 as int);
            assert(r as int <= 128_000_000_000_000_000int) by (nonlinear_arith)
                requires
                    (r as int) * (r as int) <= n2 as int,
                    n2 as int <= (3 * 16 * 16) * (COORD_LIMIT as int) * (COORD_LIMIT as int),
                    COORD_LIMIT == 4_000_000_000_000_000i64,
                    r >= 0,
            ;
        }
        r as i64
    }

    /// Rescale to (nearly) unit length; the zero vector stays zero.
    pub fn normalize(self) -> (r: Vec3)
        requires
            abs_int(self.x as int) <= 16 * COORD_LIMIT as int,
            abs_int(self.y as int) <= 16 * COORD_LIMIT as int,
            abs_int(self.z as int) <= 16 * COORD_LIMIT as int,
        ensures
            r == self.spec_normalize(),
            r.unitish(),
    {
        let n = self.norm();
        if n == 0 {
            Vec3 { x: 0, y: 0, z: 0 }
        } else {
            proof {
                lemma_comp_le_norm(self);
            }
            let x = self.norm_div(self.x, n);
            let y = self.norm_div(self.y, n);
            let z = self.norm_div(self.z, n);
            Vec3 { x, y, z }
        }
    }

    /// One component of `normalize`: `c * SCALE / n` for `|c| <= n`.
    fn norm_div(self, c: i64, n: i64) -> (r: i64)
        requires
            n > 0,
            abs_int(c as int) <= n as int,
            n as int <= 128_000_000_000_000_000,
        ensures
            r == tdiv((c as int) * (SCALE as int), n as int),
            abs_int(r as int) <= SCALE as int,
    {
        let w = wide_mul(c, SCALE);
        let q = crate::fx::tdiv_i128(w, n as i128);
        proof {
            assert(abs_int(q as int) <= SCALE as int) by (nonlinear_arith)
                requires
                    q == tdiv(w as int, n as int),
                    w == (c as int) * (SCALE as int),
                    abs_int(c as int) <= n as int,
                    n > 0,
                    SCALE > 0,
            ;
        }
        q as i64
    }

    /// The componentwise test that catches degenerate directions: at this
    /// resolution a vector shorter than the hit tolerance is exactly zero.
    pub fn near_zero(&self) -> (r: bool)
        ensures
            r == (*self == Self::spec_zero()),
    {
        self.x == 0 && self.y == 0 && self.z == 0
    }
}

/// Componentwise sum, at the spec level.
pub open spec fn spec_plus(a: Vec3, b: Vec3) -> Vec3 {
    Vec3 { x: (a.x + b.x) as i64, y: (a.y + b.y) as i64, z: (a.z + b.z) as i64 }
}

/// The vector scaled by the fixed-point factor `k`, at the spec level.
pub open spec fn spec_scale_fx(v: Vec3, k: int) -> Vec3 {
    Vec3 {
        x: fxmul(v.x as int, k) as i64,
        y: fxmul(v.y as int, k) as i64,
        z: fxmul(v.z as int, k) as i64,
    }
}

/// The fixed-point cross product, at the spec level.
pub open spec fn spec_cross(a: Vec3, b: Vec3) -> Vec3 {
    Vec3 {
        x: tdiv((a.y as int) * (b.z as int) - (a.z as int) * (b.y as int), SCALE as int) as i64,
        y: tdiv((a.z as int) * (b.x as int) - (a.x as int) * (b.z as int), SCALE as int) as i64,
        z: tdiv((a.x as int) * (b.y as int) - (a.y as int) * (b.x as int), SCALE as int) as i64,
    }
}

/// Componentwise difference, at the spec level.
pub open spec fn spec_minus(a: Vec3, b: Vec3) -> Vec3 {
    Vec3 { x: (a.x - b.x) as i64, y: (a.y - b.y) as i64, z: (a.z - b.z) as i64 }
}

/// Scaling by a fixed-point factor multiplies magnitude bounds.
pub proof fn lemma_fxmul_le(v: int, k: int, m: int, kk: int)
    requires
        0 <= m,
        0 <= kk,
        abs_int(v) <= m * SCALE as int,
        abs_int(k) <= kk,
    ensures
        abs_int(fxmul(v, k)) <= m * kk,
{
    assert(abs_int(v * k) <= (m * kk) * SCALE as int) by (nonlinear_arith)
        requires
            0 <= m,
            0 <= kk,
            abs_int(v) <= m * SCALE as int,
            abs_int(k) <= kk,
            SCALE == 1_000_000i64,
    ;
    crate::fx::lemma_tdiv_bound(v * k, SCALE as int, m * kk);
}

/// The inner product of two near-unit vectors is at most three.
pub proof fn lemma_unit_dot_bound(a: Vec3, b: Vec3)
    requires
        a.unitish(),
        b.unitish(),
    ensures
        abs_int(tdiv(a.dot2(b), SCALE as int)) <= 3 * SCALE as int,
{
    assert(abs_int(a.dot2(b)) <= (3 * SCALE as int) * (SCALE as int)) by (nonlinear_arith)
        requires
            abs_int(a.x as int) <= SCALE as int,
            abs_int(a.y as int) <= SCALE as int,
            abs_int(a.z as int) <= SCALE as int,
            abs_int(b.x as int) <= SCALE as int,
            abs_int(b.y as int) <= SCALE as int,
            abs_int(b.z as int) <= SCALE as int,
            a.dot2(b) == (a.x as int) * (b.x as int) + (a.y as int) * (b.y as int) + (a.z as int)
                * (b.z as int),
            SCALE == 1_000_000i64,
    ;
    crate::fx::lemma_tdiv_bound(a.dot2(b), SCALE as int, 3 * SCALE as int);
}

/// The cross product of two near-unit vectors has components at most two.
pub proof fn lemma_unit_cross_bound(a: Vec3, b: Vec3)
    requires
        a.unitish(),
        b.unitish(),
    ensures
        abs_int(tdiv((a.y as int) * (b.z as int) - (a.z as int) * (b.y as int), SCALE as int)) <= 2
            * SCALE as int,
        abs_int(tdiv((a.z as int) * (b.x as int) - (a.x as int) * (b.z as int), SCALE as int)) <= 2
            * SCALE as int,
        abs_int(tdiv((a.x as int) * (b.y as int) - (a.y as int) * (b.x as int), SCALE as int)) <= 2
            * SCALE as int,
{
    assert(abs_int(tdiv((a.y as int) * (b.z as int) - (a.z as int) * (b.y as int), SCALE as int))
        <= 2 * SCALE as int && abs_int(
        tdiv((a.z as int) * (b.x as int) - (a.x as int) * (b.z as int), SCALE as int),
    ) <= 2 * SCALE as int && abs_int(
        tdiv((a.x as int) * (b.y as int) - (a.y as int) * (b.x as int), SCALE as int),
    ) <= 2 * SCALE as int) by (nonlinear_arith)
        requires
            abs_int(a.x as int) <= SCALE as int,
            abs_int(a.y as int) <= SCALE as int,
            abs_int(a.z as int) <= SCALE as int,
            abs_int(b.x as int) <= SCALE as int,
            abs_int(b.y as int) <= SCALE as int,
            abs_int(b.z as int) <= SCALE as int,
            SCALE == 1_000_000i64,
    ;
}

/// No component of a vector exceeds its Euclidean norm.
pub proof fn lemma_comp_le_norm(v: Vec3)
    ensures
        abs_int(v.x as int) <= v.spec_norm() || v.norm2() < 0,
        abs_int(v.y as int) <= v.spec_norm() || v.norm2() < 0,
        abs_int(v.z as int) <= v.spec_norm() || v.norm2() < 0,
{
    assert(v.norm2() >= (v.x as int) * (v.x as int) && v.norm2() >= (v.y as int) * (v.y as int)
        && v.norm2() >= (v.z as int) * (v.z as int) && v.norm2() >= 0) by (nonlinear_arith);
    crate::fx::lemma_sqrt(v.norm2());
    let s = v.spec_norm();
    lemma_abs_le_sqrt(v.x as int, v.norm2());
    lemma_abs_le_sqrt(v.y as int, v.norm2());
    lemma_abs_le_sqrt(v.z as int, v.norm2());
}

/// If `c * c <= n` then `|c| <= sqrt(n)`.
proof fn lemma_abs_le_sqrt(c: int, n: int)
    requires
        c * c <= n,
        n >= 0,
    ensures
        abs_int(c) <= sqrt(n),
{
    crate::fx::lemma_sqrt(n);
    let s = sqrt(n);
    if abs_int(c) > s {
        assert((s + 1) * (s + 1) <= abs_int(c) * abs_int(c) && abs_int(c) * abs_int(c) == c * c)
            by (nonlinear_arith)
            requires
                s >= 0,
                abs_int(c) >= s + 1,
        ;
    }
}


/// Color presets and byte conversion, mirroring the palette the scenes use.
impl Vec3 {
    /// The red channel as a byte, clamped to `0 ..= 255`.
    pub fn r(&self) -> (r: u8)
        ensures
            r == spec_channel_byte(self.x as int),
    {
        channel_byte(self.x)
    }

    /// The green channel as a byte, clamped to `0 ..= 255`.
    pub fn g(&self) -> (r: u8)
        ensures
            r == spec_channel_byte(self.y as int),
    {
        channel_byte(self.y)
    }

    /// The blue channel as a byte, clamped to `0 ..= 255`.
    pub fn b(&self) -> (r: u8)
        ensures
            r == spec_channel_byte(self.z as int),
    {
        channel_byte(self.z)
    }

    /// A color with uniformly random channels.
    pub fn random() -> (r: Color)
        ensures
            r.color_wf(),
    {
        let x = crate::rng::rand_below(CHANNEL_MAX as u64) as i64;
        let y = crate::rng::rand_below(CHANNEL_MAX as u64) as i64;
        let z = crate::rng::rand_below(CHANNEL_MAX as u64) as i64;
        Vec3 { x, y, z }
    }

    pub fn black() -> (r: Color)
        ensures
            r == (Vec3 { x: 0_000_000i64, y: 0_000_000i64, z: 0_000_000i64 }),
            r.color_wf(),
    {
        Vec3 { x: 0_000_000, y: 0_000_000, z: 0_000_000 }
    }

    pub fn white() -> (r: Color)
        ensures
            r == (Vec3 { x: 255_000_000i64, y: 255_000_000i64, z: 255_000_000i64 }),
            r.color_wf(),
    {
        Vec3 { x: 255_000_000, y: 255_000_000, z: 255_000_000 }
    }

    pub fn red() -> (r: Color)
        ensures
            r == (Vec3 { x: 255_000_000i64, y: 0_000_000i64, z: 0_000_000i64 }),
            r.color_wf(),
    {
        Vec3 { x: 255_000_000, y: 0_000_000, z: 0_000_000 }
    }

    pub fn green() -> (r: Color)
        ensures
            r == (Vec3 { x: 0_000_000i64, y: 255_000_000i64, z: 0_000_000i64 }),
            r.color_wf(),
    {
        Vec3 { x: 0_000_000, y: 255_000_000, z: 0_000_000 }
    }

    pub fn blue() -> (r: Color)
        ensures
            r == (Vec3 { x: 0_000_000i64, y: 0_000_000i64, z: 255_000_000i64 }),
            r.color_wf(),
    {
        Vec3 { x: 0_000_000, y: 0_000_000, z: 255_000_000 }
    }

    pub fn light_blue() -> (r: Color)
        ensures
            r == (Vec3 { x: 135_000_000i64, y: 206_000_000i64, z: 250_000_000i64 }),
            r.color_wf(),
    {
        Vec3 { x: 135_000_000, y: 206_000_000, z: 250_000_000 }
    }

    pub fn indigo() -> (r: Color)
        ensures
            r == (Vec3 { x: 75_000_000i64, y: 0_000_000i64, z: 130_000_000i64 }),
            r.color_wf(),
    {
        Vec3 { x: 75_000_000, y: 0_000_000, z: 130_000_000 }
    }

    pub fn yellow() -> (r: Color)
        ensures
            r == (Vec3 { x: 255_000_000i64, y: 255_000_000i64, z: 0_000_000i64 }),
            r.color_wf(),
    {
        Vec3 { x: 255_000_000, y: 255_000_000, z: 0_000_000 }
    }

    pub fn light_yellow() -> (r: Color)
        ensures
            r == (Vec3 { x: 255_000_000i64, y: 255_000_000i64, z: 224_000_000i64 }),
            r.color_wf(),
    {
        Vec3 { x: 255_000_000, y: 255_000_000, z: 224_000_000 }
    }

    pub fn grey() -> (r: Color)
        ensures
            r == (Vec3 { x: 169_000_000i64, y: 169_000_000i64, z: 169_000_000i64 }),
            r.color_wf(),
    {
        Vec3 { x: 169_000_000, y: 169_000_000, z: 169_000_000 }
    }

    pub fn pink() -> (r: Color)
        ensures
            r == (Vec3 { x: 255_000_000i64, y: 20_000_000i64, z: 147_000_000i64 }),
            r.color_wf(),
    {
        Vec3 { x: 255_000_000, y: 20_000_000, z: 147_000_000 }
    }

    pub fn cyan() -> (r: Color)
        ensures
            r == (Vec3 { x: 0_000_000i64, y: 255_000_000i64, z: 255_000_000i64 }),
            r.color_wf(),
    {
        Vec3 { x: 0_000_000, y: 255_000_000, z: 255_000_000 }
    }

    pub fn orange() -> (r: Color)
        ensures
            r == (Vec3 { x: 255_000_000i64, y: 165_000_000i64, z: 0_000_000i64 }),
            r.color_wf(),
    {
        Vec3 { x: 255_000_000, y: 165_000_000, z: 0_000_000 }
    }

    pub fn brown() -> (r: Color)
        ensures
            r == (Vec3 { x: 165_000_000i64, y: 42_000_000i64, z: 42_000_000i64 }),
            r.color_wf(),
    {
        Vec3 { x: 165_000_000, y: 42_000_000, z: 42_000_000 }
    }

    pub fn purple() -> (r: Color)
        ensures
            r == (Vec3 { x: 128_000_000i64, y: 0_000_000i64, z: 128_000_000i64 }),
            r.color_wf(),
    {
        Vec3 { x: 128_000_000, y: 0_000_000, z: 128_000_000 }
    }

    pub fn lavender() -> (r: Color)
        ensures
            r == (Vec3 { x: 230_000_000i64, y: 230_000_000i64, z: 250_000_000i64 }),
            r.color_wf(),
    {
        Vec3 { x: 230_000_000, y: 230_000_000, z: 250_000_000 }
    }

    pub fn magenta() -> (r: Color)
        ensures
            r == (Vec3 { x: 255_000_000i64, y: 0_000_000i64, z: 255_000_000i64 }),
            r.color_wf(),
    {
        Vec3 { x: 255_000_000, y: 0_000_000, z: 255_000_000 }
    }

    pub fn violet() -> (r: Color)
        ensures
            r == (Vec3 { x: 238_000_000i64, y: 130_000_000i64, z: 238_000_000i64 }),
            r.color_wf(),
    {
        Vec3 { x: 238_000_000, y: 130_000_000, z: 238_000_000 }
    }

    pub fn maroon() -> (r: Color)
        ensures
            r == (Vec3 { x: 128_000_000i64, y: 0_000_000i64, z: 0_000_000i64 }),
            r.color_wf(),
    {
        Vec3 { x: 128_000_000, y: 0_000_000, z: 0_000_000 }
    }

    pub fn olive() -> (r: Color)
        ensures
            r == (Vec3 { x: 128_000_000i64, y: 128_000_000i64, z: 0_000_000i64 }),
            r.color_wf(),
    {
        Vec3 { x: 128_000_000, y: 128_000_000, z: 0_000_000 }
    }

    pub fn navy() -> (r: Color)
        ensures
            r == (Vec3 { x: 0_000_000i64, y: 0_000_000i64, z: 128_000_000i64 }),
            r.color_wf(),
    {
        Vec3 { x: 0_000_000, y: 0_000_000, z: 128_000_000 }
    }

    pub fn teal() -> (r: Color)
        ensures
            r == (Vec3 { x: 0_000_000i64, y: 128_000_000i64, z: 128_000_000i64 }),
            r.color_wf(),
    {
        Vec3 { x: 0_000_000, y: 128_000_000, z: 128_000_000 }
    }

    pub fn peach() -> (r: Color)
        ensures
            r == (Vec3 { x: 255_000_000i64, y: 218_000_000i64, z: 185_000_000i64 }),
            r.color_wf(),
    {
        Vec3 { x: 255_000_000, y: 218_000_000, z: 185_000_000 }
    }

    pub fn gold() -> (r: Color)
        ensures
            r == (Vec3 { x: 255_000_000i64, y: 215_000_000i64, z: 0_000_000i64 }),
            r.color_wf(),
    {
        Vec3 { x: 255_000_000, y: 215_000_000, z: 0_000_000 }
    }

    pub fn silver() -> (r: Color)
        ensures
            r == (Vec3 { x: 192_000_000i64, y: 192_000_000i64, z: 192_000_000i64 }),
            r.color_wf(),
    {
        Vec3 { x: 192_000_000, y: 192_000_000, z: 192_000_000 }
    }

    pub fn beige() -> (r: Color)
        ensures
            r == (Vec3 { x: 245_000_000i64, y: 245_000_000i64, z: 220_000_000i64 }),
            r.color_wf(),
    {
        Vec3 { x: 245_000_000, y: 245_000_000, z: 220_000_000 }
    }

    pub fn turquoise() -> (r: Color)
        ensures
            r == (Vec3 { x: 64_000_000i64, y: 224_000_000i64, z: 208_000_000i64 }),
            r.color_wf(),
    {
        Vec3 { x: 64_000_000, y: 224_000_000, z: 208_000_000 }
    }

    pub fn coral() -> (r: Color)
        ensures
            r == (Vec3 { x: 255_000_000i64, y: 127_000_000i64, z: 80_000_000i64 }),
            r.color_wf(),
    {
        Vec3 { x: 255_000_000, y: 127_000_000, z: 80_000_000 }
    }

    pub fn mint_green() -> (r: Color)
        ensures
            r == (Vec3 { x: 152_000_000i64, y: 251_000_000i64, z: 152_000_000i64 }),
            r.color_wf(),
    {
        Vec3 { x: 152_000_000, y: 251_000_000, z: 152_000_000 }
    }

    pub fn sky_blue() -> (r: Color)
        ensures
            r == (Vec3 { x: 135_000_000i64, y: 206_000_000i64, z: 235_000_000i64 }),
            r.color_wf(),
    {
        Vec3 { x: 135_000_000, y: 206_000_000, z: 235_000_000 }
    }

    /// Each channel gamma-corrected: quantized to a byte, remapped through
    /// the gamma curve, and rescaled to fixed point.
    pub fn correct_gamma(&self) -> (r: Color)
        ensures
            r.x == crate::ppm::spec_gamma(spec_channel_byte(self.x as int) as int) * SCALE,
            r.y == crate::ppm::spec_gamma(spec_channel_byte(self.y as int) as int) * SCALE,
            r.z == crate::ppm::spec_gamma(spec_channel_byte(self.z as int) as int) * SCALE,
            r.color_wf(),
    {
        let gx = crate::ppm::gamma_byte(channel_byte(self.x));
        let gy = crate::ppm::gamma_byte(channel_byte(self.y));
        let gz = crate::ppm::gamma_byte(channel_byte(self.z));
        proof {
            crate::ppm::lemma_gamma_byte_range(spec_channel_byte(self.x as int) as int);
            crate::ppm::lemma_gamma_byte_range(spec_channel_byte(self.y as int) as int);
            crate::ppm::lemma_gamma_byte_range(spec_channel_byte(self.z as int) as int);
        }
        Vec3 { x: (gx as i64) * SCALE, y: (gy as i64) * SCALE, z: (gz as i64) * SCALE }
    }
}

/// A fixed-point channel as a byte: rescaled and clamped to `0 ..= 255`.
pub open spec fn spec_channel_byte(v: int) -> u8 {
    if v <= 0 {
        0u8
    } else if tdiv(v, SCALE as int) >= 255 {
        255u8
    } else {
        tdiv(v, SCALE as int) as u8
    }
}

/// A fixed-point channel as a byte: rescaled and clamped to `0 ..= 255`.
pub fn channel_byte(v: i64) -> (r: u8)
    ensures
        r == spec_channel_byte(v as int),
{
    if v <= 0 {
        0
    } else {
        let q = ((v as u64) / (SCALE as u64)) as i64;
        if q >= 255 {
            255
        } else {
            q as u8
        }
    }
}

} // verus!
