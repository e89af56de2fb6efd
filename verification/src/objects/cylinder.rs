//! Ray-cylinder intersection: a vertical lateral surface plus two disk caps.

use vstd::prelude::*;
use crate::fx::{abs_int, tdiv, sqrt, fxmul, EPS, DIST_MAX, COORD_LIMIT, SCALE};
use crate::objects::{
    Hit, Intersection, CandidateHit, cand_agrees, hit_filtered, to_intersection, discriminant,
    spec_ray_point, ray_point, root_dist, better_cand, spec_better_hit, QUAD_A_LIMIT, QUAD_B_LIMIT,
    QUAD_C_LIMIT, FlatPlane,
};
use crate::ray::Ray;
use crate::textures::Texture;
use crate::vec3::{Vec3, Point, Normal, spec_minus, spec_scale_fx};

verus! {

#[derive(Clone, Debug)]
pub struct Cylinder {
    pub center: Point,
    pub radius: i64,
    pub height: i64,
    pub bottom: FlatPlane,
    pub top: FlatPlane,
    pub texture: Texture,
}

impl Cylinder {
    /// The center of the top cap: the bottom center raised by `height`.
    pub open spec fn spec_top_center(self) -> Point {
        Vec3 { x: self.center.x, y: (self.center.y + self.height) as i64, z: self.center.z }
    }

    /// Bounded positive extents, caps tied to the body: same radius and
    /// material, bottom at `center`, top at `center + height` up.
    pub open spec fn wf(self) -> bool {
        &&& self.center.in_box()
        &&& 0 < self.radius <= COORD_LIMIT
        &&& 0 < self.height
        &&& self.center.y + self.height <= COORD_LIMIT
        &&& self.bottom == (FlatPlane {
            center: self.center,
            radius: self.radius,
            texture: self.texture,
        })
        &&& self.top == (FlatPlane {
            center: self.spec_top_center(),
            radius: self.radius,
            texture: self.texture,
        })
        &&& self.texture.wf()
    }

    pub fn new(center: Point, radius: i64, height: i64, texture: Texture) -> (r: Cylinder)
        requires
            center.in_box(),
            0 < radius <= COORD_LIMIT,
            0 < height,
            center.y + height <= COORD_LIMIT,
            texture.wf(),
        ensures
            r.wf(),
            r.center == center,
            r.radius == radius,
            r.height == height,
            r.texture == texture,
    {
        let bottom = FlatPlane::new(center, radius, texture);
        let top = FlatPlane::new(Vec3 { x: center.x, y: center.y + height, z: center.z },
            radius, texture);
        Cylinder { center, radius, height, bottom, top, texture }
    }

    /// The surface normal at a point: up on the top cap, down on the bottom
    /// cap, else horizontal away from the axis.
    pub open spec fn spec_normal(self, point: Point) -> Normal {
        if sqrt(spec_minus(point, self.spec_top_center()).norm2()) <= self.radius as int {
            Vec3 { x: 0, y: SCALE as i64, z: 0 }
        } else if sqrt(spec_minus(point, self.center).norm2()) <= self.radius as int {
            Vec3 { x: 0, y: (-SCALE) as i64, z: 0 }
        } else {
            let axis = Vec3 { x: 0, y: (-SCALE) as i64, z: 0 };
            let off = spec_minus(point, self.center);
            let k = tdiv(off.dot2(axis), SCALE as int);
            let proj = spec_scale_fx(axis, k);
            spec_minus(off, proj).spec_normalize()
        }
    }

    /// The surface normal at `point`.
    pub fn normal(&self, point: Point) -> (r: Normal)
        requires
            self.wf(),
            point.in_box(),
        ensures
            r == self.spec_normal(point),
            r.unitish(),
    {
        let to_top = point.minus(self.top.center);
        if to_top.norm() <= self.radius {
            Vec3::up()
        } else {
            let to_bottom = point.minus(self.bottom.center);
            if to_bottom.norm() <= self.radius {
                Vec3::down()
            } else {
                let axis = Vec3::down();
                let off = point.minus(self.center);
                let k = off.dot_fx(axis);
                proof {
                    assert(abs_int(fxmul(axis.x as int, k as int)) <= i64::MAX as int && abs_int(
                        fxmul(axis.y as int, k as int),
                    ) <= i64::MAX as int && abs_int(fxmul(axis.z as int, k as int))
                        <= i64::MAX as int) by (nonlinear_arith)
                        requires
                            axis.x == 0 && axis.z == 0 && axis.y == -1_000_000i64,
                            abs_int(k as int) <= 384_000_000_000_000_000,
                            fxmul(axis.x as int, k as int) == tdiv(
                                (axis.x as int) * (k as int),
                                SCALE as int,
                            ),
                            fxmul(axis.y as int, k as int) == tdiv(
                                (axis.y as int) * (k as int),
                                SCALE as int,
                            ),
                            fxmul(axis.z as int, k as int) == tdiv(
                                (axis.z as int) * (k as int),
                                SCALE as int,
                            ),
                            SCALE == 1_000_000i64,
                    ;
                }
                let proj = axis.scale_fx(k);
                proof {
                    assert(abs_int(proj.y as int) <= 384_000_000_000_000_000int
                        && proj.x == 0 && proj.z == 0) by (nonlinear_arith)
                        requires
                            proj.x == fxmul(0int, k as int),
                            proj.z == fxmul(0int, k as int),
                            proj.y == tdiv((-1_000_000int) * (k as int), SCALE as int),
                            abs_int(k as int) <= 384_000_000_000_000_000,
                            SCALE == 1_000_000i64,
                    ;
                }
                off.minus(proj).normalize()
            }
        }
    }

    /// One lateral-surface candidate: a positive quadratic root whose hit
    /// lies inside the world box with axial height within `[0, height]`.
    pub open spec fn spec_lateral(self, origin: Vec3, dir: Vec3, first: bool) -> Option<Hit> {
        let eo = Vec3 {
            x: (origin.x - self.center.x) as i64,
            y: 0,
            z: (origin.z - self.center.z) as i64,
        };
        let ed = Vec3 { x: dir.x, y: 0, z: dir.z };
        let a = tdiv(ed.dot2(ed), SCALE as int);
        let b = 2 * tdiv(eo.dot2(ed), SCALE as int);
        let c = tdiv(eo.dot2(eo), SCALE as int) - tdiv(
            (self.radius as int) * (self.radius as int),
            SCALE as int,
        );
        let disc = b * b - 4 * a * c;
        if a <= 0 || disc < 0 {
            None
        } else {
            let sq = sqrt(disc);
            let d = if first {
                tdiv((-b - sq) * (SCALE as int), 2 * a)
            } else {
                tdiv((-b + sq) * (SCALE as int), 2 * a)
            };
            if !(EPS as int <= d < DIST_MAX as int) {
                None
            } else {
                let hit = spec_ray_point(origin, dir, d);
                if !hit.in_box() {
                    None
                } else {
                    let h = hit.y - self.center.y;
                    if !(0 <= h <= self.height) {
                        None
                    } else {
                        Some(
                            Hit {
                                hit_point: hit,
                                normal: self.spec_normal(hit),
                                distance: d,
                                texture: self.texture,
                            },
                        )
                    }
                }
            }
        }
    }

    /// The candidate hit of the whole cylinder: the nearest of the two
    /// lateral roots and the two cap hits, in that order of preference.
    pub open spec fn spec_hit(self, origin: Vec3, dir: Vec3) -> Option<Hit> {
        spec_better_hit(
            spec_better_hit(
                spec_better_hit(
                    self.spec_lateral(origin, dir, true),
                    self.spec_lateral(origin, dir, false),
                ),
                self.bottom.spec_hit(origin, dir),
            ),
            self.top.spec_hit(origin, dir),
        )
    }

    /// One lateral-surface candidate, as executable code carries it.
    fn lateral(&self, origin: Point, dir: Vec3, first: bool) -> (r: Option<CandidateHit>)
        requires
            self.wf(),
            origin.in_box(),
            dir.unitish(),
        ensures
            ({
                let h = self.spec_lateral(origin, dir, first);
                cand_agrees(r, h) && (r matches Some(c) ==> c.wf())
            }),
    {
        let eo = Vec3 { x: origin.x - self.center.x, y: 0, z: origin.z - self.center.z };
        let ed = Vec3 { x: dir.x, y: 0, z: dir.z };
        let a64 = ed.dot_fx(ed);
        if a64 <= 0 {
            return None;
        }
        let a = a64 as i128;
        let b = 2 * (eo.dot_fx(ed) as i128);
        let eo2 = crate::vec3::wide_mul(eo.x, eo.x) + crate::vec3::wide_mul(eo.z, eo.z);
        let c = crate::fx::tdiv_i128(eo2, SCALE as i128) - crate::fx::tdiv_i128(
            crate::vec3::wide_mul(self.radius, self.radius),
            SCALE as i128,
        );
        proof {
            assert(eo.dot2(eo) == eo2 && ed.dot2(ed) == (ed.x as int) * (ed.x as int) + (
            ed.z as int) * (ed.z as int));
            assert(a == tdiv(ed.dot2(ed), SCALE as int) && b == 2 * tdiv(
                eo.dot2(ed),
                SCALE as int,
            ) && c == tdiv(eo.dot2(eo), SCALE as int) - tdiv(
                (self.radius as int) * (self.radius as int),
                SCALE as int,
            ));
            assert(a <= 3_000_000 + 3) by (nonlinear_arith)
                requires
                    a == tdiv(ed.dot2(ed), SCALE as int),
                    ed.dot2(ed) == (ed.x as int) * (ed.x as int) + (ed.y as int) * (ed.y as int) + (
                    ed.z as int) * (ed.z as int),
                    abs_int(ed.x as int) <= SCALE as int,
                    ed.y == 0,
                    abs_int(ed.z as int) <= SCALE as int,
                    SCALE == 1_000_000i64,
            ;
            assert(abs_int(c as int) <= QUAD_C_LIMIT as int) by (nonlinear_arith)
                requires
                    c == tdiv(eo2 as int, SCALE as int) - tdiv(
                        (self.radius as int) * (self.radius as int),
                        SCALE as int,
                    ),
                    eo2 == (eo.x as int) * (eo.x as int) + (eo.z as int) * (eo.z as int),
                    abs_int(eo.x as int) <= 2 * COORD_LIMIT as int,
                    abs_int(eo.z as int) <= 2 * COORD_LIMIT as int,
                    0 < self.radius <= COORD_LIMIT,
                    SCALE == 1_000_000i64,
                    COORD_LIMIT == 4_000_000_000_000_000i64,
            ;
        }
        let disc = match discriminant(a, b, c) {
            Some(d) => d,
            None => {
                return None;
            },
        };
        let sq = crate::fx::isqrt_u128(disc as u128) as i128;
        proof {
            crate::fx::lemma_sqrt(disc as int);
            assert(sq <= 3_000_000_000_000_000_000i128) by (nonlinear_arith)
                requires
                    sq == sqrt(disc as int),
                    (sq as int) * (sq as int) <= disc as int,
                    disc as int <= 8_000_000_000_000_000_000_000_000_000_000_000_000,
                    sq >= 0,
            ;
        }
        let d = root_dist(b, sq, a, first);
        if !(EPS as i128 <= d && d < DIST_MAX as i128) {
            return None;
        }
        match ray_point(origin, dir, d) {
            None => None,
            Some(hit) => {
                let h = hit.y - self.center.y;
                if !(0 <= h && h <= self.height) {
                    None
                } else {
                    let normal = self.normal(hit);
                    Some(CandidateHit { hit_point: hit, normal, distance: d })
                }
            },
        }
    }

    /// The candidate hit, bound-independent, as executable code carries it.
    pub fn candidate(&self, origin: Point, dir: Vec3) -> (r: Option<CandidateHit>)
        requires
            self.wf(),
            origin.in_box(),
            dir.unitish(),
        ensures
            ({
                let h = self.spec_hit(origin, dir);
                cand_agrees(r, h) && (r matches Some(c) ==> c.wf())
            }),
    {
        let lat1 = self.lateral(origin, dir, true);
        let lat2 = self.lateral(origin, dir, false);
        let bot = self.bottom.candidate(origin, dir);
        let top = self.top.candidate(origin, dir);
        better_cand(better_cand(better_cand(lat1, lat2), bot), top)
    }

    /// The nearest hit along `ray` that still beats its current bound.
    pub fn intersection(&self, ray: &Ray) -> (r: Option<Intersection>)
        requires
            self.wf(),
            ray.wf(),
        ensures
            hit_filtered(
                self.spec_hit(ray.origin, ray.direction),
                ray.intersection_dist as int,
                r,
            ),
            r matches Some(i) ==> i.wf() && i.texture == self.texture,
    {
        let c = self.candidate(ray.origin, ray.direction);
        to_intersection(c, ray.intersection_dist, self.texture)
    }

    pub fn texture(&self) -> (r: Texture)
        ensures
            r == self.texture,
    {
        self.texture
    }

    pub fn center(&self) -> (r: Point)
        ensures
            r == self.center,
    {
        self.center
    }

    pub fn is_light(&self) -> (r: bool)
        ensures
            r == self.texture.spec_is_light(),
    {
        self.texture.is_light()
    }
}

} // verus!
