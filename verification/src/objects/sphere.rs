//! Ray-sphere intersection.

use vstd::prelude::*;
use crate::fx::{abs_int, tdiv, sqrt, EPS, DIST_MAX, COORD_LIMIT, SCALE};
use crate::objects::{
    Hit, Intersection, CandidateHit, cand_agrees, hit_filtered, to_intersection, discriminant,
    spec_ray_point, ray_point, QUAD_A_LIMIT, QUAD_B_LIMIT, QUAD_C_LIMIT,
};
use crate::ray::Ray;
use crate::textures::Texture;
use crate::vec3::{Vec3, Point, Normal, spec_minus, wide_mul};

verus! {

#[derive(Clone, Debug)]
pub struct Sphere {
    pub center: Point,
    pub radius: i64,
    pub texture: Texture,
}

impl Sphere {
    /// Center inside the world box, positive bounded radius, well-formed
    /// material.
    pub open spec fn wf(self) -> bool {
        &&& self.center.in_box()
        &&& 0 < self.radius <= COORD_LIMIT
        &&& self.texture.wf()
    }

    pub fn new(center: Point, radius: i64, texture: Texture) -> (r: Sphere)
        requires
            center.in_box(),
            0 < radius <= COORD_LIMIT,
            texture.wf(),
        ensures
            r == (Sphere { center, radius, texture }),
            r.wf(),
    {
        Sphere { center, radius, texture }
    }

    /// Quadratic coefficient `a`: the squared direction length, rescaled.
    pub open spec fn qa(self, dir: Vec3) -> int {
        tdiv(dir.dot2(dir), SCALE as int)
    }

    /// Quadratic coefficient `b`: twice the center-offset along the ray.
    pub open spec fn qb(self, origin: Vec3, dir: Vec3) -> int {
        2 * tdiv(spec_minus(origin, self.center).dot2(dir), SCALE as int)
    }

    /// Quadratic coefficient `c`: squared center distance minus squared
    /// radius, rescaled.
    pub open spec fn qc(self, origin: Vec3) -> int {
        let oc = spec_minus(origin, self.center);
        tdiv(oc.dot2(oc), SCALE as int) - tdiv((self.radius as int) * (self.radius as int),
            SCALE as int)
    }

    /// The outward surface normal at a point: away from the center.
    pub fn normal(&self, point: Point) -> (r: Normal)
        requires
            self.center.in_box(),
            point.in_box(),
        ensures
            r == spec_minus(point, self.center).spec_normalize(),
            r.unitish(),
    {
        point.minus(self.center).normalize()
    }

    /// The candidate hit: the smaller positive quadratic root in range (a
    /// zero discriminant - a grazing ray - yields its double root), surface
    /// point inside the world box, outward normal.
    pub open spec fn spec_hit(self, origin: Vec3, dir: Vec3) -> Option<Hit> {
        let a = self.qa(dir);
        let b = self.qb(origin, dir);
        let c = self.qc(origin);
        let disc = b * b - 4 * a * c;
        if a <= 0 || disc < 0 {
            None
        } else {
            let sq = sqrt(disc);
            let d1 = tdiv((-b - sq) * (SCALE as int), 2 * a);
            let d2 = tdiv((-b + sq) * (SCALE as int), 2 * a);
            let d = if EPS as int <= d1 && d1 < d2 {
                d1
            } else {
                d2
            };
            if !(EPS as int <= d < DIST_MAX as int) {
                None
            } else {
                let hit = spec_ray_point(origin, dir, d);
                if !hit.in_box() {
                    None
                } else {
                    Some(
                        Hit {
                            hit_point: hit,
                            normal: spec_minus(hit, self.center).spec_normalize(),
                            distance: d,
                            texture: self.texture,
                        },
                    )
                }
            }
        }
    }

    /// The candidate hit, bound-independent, as executable code carries it.
    pub fn candidate(&self, origin: Point, dir: Vec3) -> (r: Option<CandidateHit>)
        requires
            self.wf(),
            origin.in_box(),
            dir.unitish(),
        ensures
            ({
                let h = self.spec_hit(origin, dir);
                cand_agrees(r, h) && (r matches Some(c) ==> c.wf())
            }),
    {
        let a64 = dir.dot_fx(dir);
        if a64 <= 0 {
            return None;
        }
        let a = a64 as i128;
        let oc = origin.minus(self.center);
        let b = 2 * (oc.dot_fx(dir) as i128);
        let oc2 = wide_mul(oc.x, oc.x) + wide_mul(oc.y, oc.y) + wide_mul(oc.z, oc.z);
        let c = crate::fx::tdiv_i128(oc2, SCALE as i128) - crate::fx::tdiv_i128(
            wide_mul(self.radius, self.radius),
            SCALE as i128,
        );
        proof {
            assert(a == self.qa(dir) && b == self.qb(origin, dir) && c == self.qc(origin));
            assert(a <= 3_000_000 + 3) by (nonlinear_arith)
                requires
                    a == tdiv(dir.dot2(dir), SCALE as int),
                    dir.unitish(),
                    dir.dot2(dir) == (dir.x as int) * (dir.x as int) + (dir.y as int) * (
                    dir.y as int) + (dir.z as int) * (dir.z as int),
                    SCALE == 1_000_000i64,
            ;
            assert(abs_int(c as int) <= QUAD_C_LIMIT as int) by (nonlinear_arith)
                requires
                    c == tdiv(oc2 as int, SCALE as int) - tdiv(
                        (self.radius as int) * (self.radius as int),
                        SCALE as int,
                    ),
                    oc2 == (oc.x as int) * (oc.x as int) + (oc.y as int) * (oc.y as int) + (
                    oc.z as int) * (oc.z as int),
                    abs_int(oc.x as int) <= 2 * COORD_LIMIT as int,
                    abs_int(oc.y as int) <= 2 * COORD_LIMIT as int,
                    abs_int(oc.z as int) <= 2 * COORD_LIMIT as int,
                    0 < self.radius <= COORD_LIMIT,
                    SCALE == 1_000_000i64,
                    COORD_LIMIT == 4_000_000_000_000_000i64,
            ;
        }
        let disc = match discriminant(a, b, c) {
            Some(d) => d,
            None => {
                return None;
            },
        };
        let sq = crate::fx::isqrt_u128(disc as u128) as i128;
        proof {
            crate::fx::lemma_sqrt(disc as int);
            assert(sq <= 3_000_000_000_000_000_000i128) by (nonlinear_arith)
                requires
                    sq == sqrt(disc as int),
                    (sq as int) * (sq as int) <= disc as int,
                    disc as int <= 8_000_000_000_000_000_000_000_000_000_000_000_000,
                    sq >= 0,
            ;
        }
        let d1 = crate::objects::root_dist(b, sq, a, true);
        let d2 = crate::objects::root_dist(b, sq, a, false);
        let d = if EPS as i128 <= d1 && d1 < d2 {
            d1
        } else {
            d2
        };
        if !(EPS as i128 <= d && d < DIST_MAX as i128) {
            return None;
        }
        match ray_point(origin, dir, d) {
            None => None,
            Some(hit) => {
                let normal = hit.minus(self.center).normalize();
                Some(CandidateHit { hit_point: hit, normal, distance: d })
            },
        }
    }

    /// The nearest hit along `ray` that still beats its current bound.
    pub fn intersection(&self, ray: &Ray) -> (r: Option<Intersection>)
        requires
            self.wf(),
            ray.wf(),
        ensures
            hit_filtered(
                self.spec_hit(ray.origin, ray.direction),
                ray.intersection_dist as int,
                r,
            ),
            r matches Some(i) ==> i.wf() && i.texture == self.texture,
    {
        let c = self.candidate(ray.origin, ray.direction);
        to_intersection(c, ray.intersection_dist, self.texture)
    }

    pub fn texture(&self) -> (r: Texture)
        ensures
            r == self.texture,
    {
        self.texture
    }

    pub fn center(&self) -> (r: Point)
        ensures
            r == self.center,
    {
        self.center
    }

    pub fn is_light(&self) -> (r: bool)
        ensures
            r == self.texture.spec_is_light(),
    {
        self.texture.is_light()
    }
}

/// A sphere centered on the ray's line of sight at distance `d` with radius
/// `r < d` is hit at distance exactly `d - r`, whenever `d` and `r` are
/// whole multiples of a thousandth of a unit, so that their squares are
/// exactly representable.
pub proof fn lemma_on_axis_distance(o: Vec3, d: i64, r: i64, texture: Texture)
    requires
        o.in_box(),
        0 < r < d,
        d + o.x <= COORD_LIMIT as int,
        d % 1000 == 0,
        r % 1000 == 0,
        r <= COORD_LIMIT,
    ensures
        ({
            let sphere = Sphere {
                center: Vec3 { x: (o.x + d) as i64, y: o.y, z: o.z },
                radius: r,
                texture,
            };
            let u = Vec3 { x: crate::fx::SCALE, y: 0, z: 0 };
            &&& sphere.spec_hit(o, u) matches Some(h)
            &&& sphere.spec_hit(o, u)->Some_0.distance == d - r
        }),
{
    let sphere = Sphere {
        center: Vec3 { x: (o.x + d) as i64, y: o.y, z: o.z },
        radius: r,
        texture,
    };
    let u = Vec3 { x: crate::fx::SCALE, y: 0, z: 0 };
    let s = SCALE as int;
    let oc = spec_minus(o, sphere.center);
    assert(oc.x == -d && oc.y == 0 && oc.z == 0);
    let a = sphere.qa(u);
    let b = sphere.qb(o, u);
    let c = sphere.qc(o);
    assert(u.dot2(u) == s * s) by (nonlinear_arith)
        requires
            u.x == s,
            u.y == 0,
            u.z == 0,
            s == 1_000_000int,
    ;
    assert(a == s) by {
        assert(tdiv(s * s, s) == s) by (nonlinear_arith)
            requires
                s == 1_000_000int,
        ;
    }
    assert(oc.dot2(u) == -d * s) by (nonlinear_arith)
        requires
            oc.x == -d,
            oc.y == 0,
            oc.z == 0,
            u.x == s,
            u.y == 0,
            u.z == 0,
    ;
    assert(b == -2 * d) by {
        assert(tdiv(-d * s, s) == -d) by (nonlinear_arith)
            requires
                d > 0,
                s == 1_000_000int,
        ;
    }
    let md = d / 1000;
    let mr = r / 1000;
    assert(d == 1000 * md && r == 1000 * mr);
    assert(oc.dot2(oc) == d * d) by (nonlinear_arith)
        requires
            oc.x == -d,
            oc.y == 0,
            oc.z == 0,
    ;
    assert(d * d == s * (md * md) && r * r == s * (mr * mr) && md * md >= 0 && mr * mr >= 0)
        by (nonlinear_arith)
        requires
            d == 1000 * md,
            r == 1000 * mr,
            s == 1_000_000int,
    ;
    crate::fx::lemma_tdiv_exact(md * md, s);
    crate::fx::lemma_tdiv_exact(mr * mr, s);
    assert(c == md * md - mr * mr);
    let disc = b * b - 4 * a * c;
    assert(b * b == 4 * (d * d)) by (nonlinear_arith)
        requires
            b == -2 * d,
    ;
    assert(4 * a * c == 4 * (d * d) - 4 * (r * r)) by (nonlinear_arith)
        requires
            a == s,
            c == md * md - mr * mr,
            d * d == s * (md * md),
            r * r == s * (mr * mr),
    ;
    assert(disc == 4 * (r * r));
    assert(disc > 0) by (nonlinear_arith)
        requires
            disc == 4 * (r * r),
            r > 0,
    ;
    assert(crate::fx::is_sqrt(disc, 2 * r)) by (nonlinear_arith)
        requires
            disc == 4 * (r * r),
            r > 0,
    ;
    crate::fx::lemma_sqrt_unique(disc, 2 * r);
    let sq = sqrt(disc);
    assert(sq == 2 * r);
    let d1 = tdiv((-b - sq) * s, 2 * a);
    let d2 = tdiv((-b + sq) * s, 2 * a);
    assert((-b - sq) * s == (2 * s) * (d - r) && (-b + sq) * s == (2 * s) * (d + r))
        by (nonlinear_arith)
        requires
            b == -2 * d,
            sq == 2 * r,
            s == 1_000_000int,
    ;
    crate::fx::lemma_tdiv_exact(d - r, 2 * s);
    crate::fx::lemma_tdiv_exact(d + r, 2 * s);
    assert(d1 == d - r && d2 == d + r);
    assert(EPS as int <= d1 && d1 < d2);
    assert(EPS as int <= d1 < DIST_MAX as int);
    let hit = spec_ray_point(o, u, d1);
    assert(tdiv(s * (d - r), s) == d - r) by (nonlinear_arith)
        requires
            0 < d - r,
            s == 1_000_000int,
    ;
    assert(tdiv(0 * (d - r), s) == 0) by (nonlinear_arith)
        requires
            s == 1_000_000int,
    ;
    assert(hit.x == o.x + (d - r) && hit.y == o.y && hit.z == o.z);
    assert(hit.in_box()) by {
        assert(abs_int(hit.x as int) <= COORD_LIMIT as int);
    }
}

/// The general form of the on-axis law: for any radius of at least one
/// world unit and any distance at least two ticks beyond it, the sphere on
/// the line of sight is hit within one fixed-point unit (1e-6 world units)
/// of `d - r`, whatever rounding the squared terms suffered.
pub proof fn lemma_on_axis_distance_bound(o: Vec3, d: i64, r: i64, texture: Texture)
    requires
        o.in_box(),
        SCALE <= r,
        r + 2 <= d,
        d + o.x <= COORD_LIMIT as int,
    ensures
        ({
            let sphere = Sphere {
                center: Vec3 { x: (o.x + d) as i64, y: o.y, z: o.z },
                radius: r,
                texture,
            };
            let u = Vec3 { x: crate::fx::SCALE, y: 0, z: 0 };
            &&& sphere.spec_hit(o, u) matches Some(h)
            &&& abs_int(sphere.spec_hit(o, u)->Some_0.distance - (d - r)) <= 1
        }),
{
    let sphere = Sphere {
        center: Vec3 { x: (o.x + d) as i64, y: o.y, z: o.z },
        radius: r,
        texture,
    };
    let u = Vec3 { x: crate::fx::SCALE, y: 0, z: 0 };
    let s = SCALE as int;
    let oc = spec_minus(o, sphere.center);
    assert(oc.x == -d && oc.y == 0 && oc.z == 0);
    let a = sphere.qa(u);
    let b = sphere.qb(o, u);
    let c = sphere.qc(o);
    assert(u.dot2(u) == s * s) by (nonlinear_arith)
        requires
            u.x == s,
            u.y == 0,
            u.z == 0,
            s == 1_000_000int,
    ;
    assert(a == s) by {
        crate::fx::lemma_tdiv_exact(s, s);
    }
    assert(oc.dot2(u) == -d * s) by (nonlinear_arith)
        requires
            oc.x == -d,
            oc.y == 0,
            oc.z == 0,
            u.x == s,
            u.y == 0,
            u.z == 0,
    ;
    assert(b == -2 * d) by {
        assert(tdiv(-d * s, s) == -d) by (nonlinear_arith)
            requires
                d > 0,
                s == 1_000_000int,
        ;
    }
    assert(oc.dot2(oc) == d * d) by (nonlinear_arith)
        requires
            oc.x == -d,
            oc.y == 0,
            oc.z == 0,
    ;
    // remainder bounds for the two rounded squares
    let qd = tdiv(d * d as int, s);
    let qr = tdiv(r * r as int, s);
    assert(d * d >= 0 && r * r >= 0) by (nonlinear_arith)
        requires
            d > 0,
            r > 0,
    ;
    crate::fx::lemma_tdiv_rem(d * d, s);
    crate::fx::lemma_tdiv_rem(r * r, s);
    assert(c == qd - qr);
    let disc = b * b - 4 * a * c;
    assert(b * b == 4 * (d * d)) by (nonlinear_arith)
        requires
            b == -2 * d,
    ;
    assert(4 * a * c == 4 * (s * qd) - 4 * (s * qr)) by (nonlinear_arith)
        requires
            a == s,
            c == qd - qr,
    ;
    assert(4 * (r * r) - 4 * s < disc < 4 * (r * r) + 4 * s);
    assert(4 * (r * r) - 4 * s > 0 && disc > 0) by (nonlinear_arith)
        requires
            r >= SCALE as int,
            s == 1_000_000int,
            disc > 4 * (r * r) - 4 * s,
    ;
    // the square root lands within two ticks of 2r
    let sq = sqrt(disc);
    crate::fx::lemma_sqrt(disc);
    assert(sq <= 2 * r + 1) by {
        if sq >= 2 * r + 2 {
            assert(sq * sq >= (2 * r + 2) * (2 * r + 2) && (2 * r + 2) * (2 * r + 2) > 4 * (r
                * r) + 4 * s) by (nonlinear_arith)
                requires
                    sq >= 2 * r + 2,
                    r >= SCALE as int,
                    s == 1_000_000int,
            ;
        }
    }
    assert(sq >= 2 * r - 2) by {
        if sq <= 2 * r - 3 {
            assert((sq + 1) * (sq + 1) <= (2 * r - 2) * (2 * r - 2) && (2 * r - 2) * (2 * r - 2)
                <= 4 * (r * r) - 4 * s) by (nonlinear_arith)
                requires
                    0 <= sq <= 2 * r - 3,
                    r >= SCALE as int,
                    s == 1_000_000int,
            ;
        }
    }
    // both roots, halved exactly
    let m1 = -b - sq;
    let m2 = -b + sq;
    assert(m1 == 2 * d - sq && m2 == 2 * d + sq);
    assert(0 <= 2 * (d - r) - 1 <= m1 <= 2 * (d - r) + 2);
    assert(m2 >= 2 * d + 2 * r - 2);
    crate::fx::lemma_tdiv_half_scaled(m1, s);
    crate::fx::lemma_tdiv_half_scaled(m2, s);
    let d1 = tdiv(m1 * s, 2 * s);
    let d2 = tdiv(m2 * s, 2 * s);
    assert(d1 == m1 / 2 && d2 == m2 / 2);
    assert(d - r - 1 <= d1 <= d - r + 1) by (nonlinear_arith)
        requires
            d1 == m1 / 2,
            2 * (d - r) - 1 <= m1 <= 2 * (d - r) + 2,
            m1 >= 0,
    ;
    assert(d2 >= d + r - 1) by (nonlinear_arith)
        requires
            d2 == m2 / 2,
            m2 >= 2 * d + 2 * r - 2,
            m2 >= 0,
    ;
    assert(EPS as int <= d1 && d1 < d2) by {
        assert(d1 >= d - r - 1 >= 1);
        assert(d1 <= d - r + 1 < d + r - 1 <= d2) by {
            assert(r >= SCALE as int >= 2);
        }
    }
    assert(d1 < DIST_MAX as int) by {
        assert(d <= 2 * COORD_LIMIT as int);
    }
    let hit = spec_ray_point(o, u, d1);
    assert(tdiv(s * d1, s) == d1) by {
        crate::fx::lemma_tdiv_exact(d1, s);
    }
    assert(tdiv(0 * d1, s) == 0) by (nonlinear_arith)
        requires
            s == 1_000_000int,
    ;
    assert(hit.x == o.x + d1 && hit.y == o.y && hit.z == o.z);
    assert(hit.in_box()) by {
        assert(o.x + d1 <= o.x + d - r + 1 <= COORD_LIMIT as int);
        assert(o.x + d1 >= o.x + 1 >= -COORD_LIMIT as int);
    }
    assert(sphere.spec_hit(o, u) matches Some(h) && h.distance == d1);
}

} // verus!
