//! Ray-disk intersection: a flat plane bounded by a radius.

use vstd::prelude::*;
use crate::fx::{abs_int, tdiv, sqrt, EPS, DIST_MAX, COORD_LIMIT, SCALE};
use crate::objects::{
    Hit, Intersection, CandidateHit, cand_agrees, hit_filtered, to_intersection, spec_ray_point,
    ray_point,
};
use crate::ray::Ray;
use crate::textures::Texture;
use crate::vec3::{Vec3, Point, Normal, spec_minus};

verus! {

#[derive(Clone, Debug)]
pub struct FlatPlane {
    pub center: Point,
    pub radius: i64,
    pub texture: Texture,
}

impl FlatPlane {
    /// Center inside the world box, positive bounded radius, well-formed
    /// material.
    pub open spec fn wf(self) -> bool {
        &&& self.center.in_box()
        &&& 0 < self.radius <= COORD_LIMIT
        &&& self.texture.wf()
    }

    pub fn new(center: Point, radius: i64, texture: Texture) -> (r: FlatPlane)
        requires
            center.in_box(),
            0 < radius <= COORD_LIMIT,
            texture.wf(),
        ensures
            r == (FlatPlane { center, radius, texture }),
            r.wf(),
    {
        FlatPlane { center, radius, texture }
    }

    /// The normal faces the side of the plane the ray comes from.
    pub open spec fn spec_normal(self, origin: Point) -> Normal {
        if origin.y < self.center.y {
            Vec3 { x: 0, y: (-SCALE) as i64, z: 0 }
        } else {
            Vec3 { x: 0, y: SCALE as i64, z: 0 }
        }
    }

    pub fn normal(&self, ray: &Ray) -> (r: Normal)
        ensures
            r == self.spec_normal(ray.origin),
            r.unitish(),
    {
        if ray.origin.y < self.center.y {
            Vec3::down()
        } else {
            Vec3::up()
        }
    }

    /// The candidate hit: the ray meets the plane of the disk at a distance
    /// in range, inside the world box, and within `radius` of the center.
    pub open spec fn spec_hit(self, origin: Vec3, dir: Vec3) -> Option<Hit> {
        let n = self.spec_normal(origin);
        let denom = tdiv(dir.dot2(n), SCALE as int);
        if abs_int(denom) <= EPS as int {
            None
        } else {
            let k = tdiv(spec_minus(self.center, origin).dot2(n), SCALE as int);
            let d = tdiv(k * (SCALE as int), denom);
            if !(EPS as int <= d < DIST_MAX as int) {
                None
            } else {
                let hit = spec_ray_point(origin, dir, d);
                if !hit.in_box() {
                    None
                } else {
                    let off = spec_minus(hit, self.center);
                    if sqrt(off.norm2()) > self.radius as int {
                        None
                    } else {
                        Some(Hit { hit_point: hit, normal: n, distance: d, texture: self.texture })
                    }
                }
            }
        }
    }

    /// The candidate hit, bound-independent, as executable code carries it.
    pub fn candidate(&self, origin: Point, dir: Vec3) -> (r: Option<CandidateHit>)
        requires
            self.wf(),
            origin.in_box(),
            dir.unitish(),
        ensures
            ({
                let h = self.spec_hit(origin, dir);
                cand_agrees(r, h) && (r matches Some(c) ==> c.wf())
            }),
    {
        let n = if origin.y < self.center.y {
            Vec3::down()
        } else {
            Vec3::up()
        };
        let denom = dir.dot_fx(n);
        if -EPS <= denom && denom <= EPS {
            return None;
        }
        let k = self.center.minus(origin).dot_fx(n);
        proof {
            assert(abs_int((k as int) * (SCALE as int)) <= 384_000_000_000_000_000i128
                * 1_000_000i128) by (nonlinear_arith)
                requires
                    abs_int(k as int) <= 384_000_000_000_000_000,
                    SCALE == 1_000_000i64,
            ;
        }
        let d = crate::fx::tdiv_i128((k as i128) * (SCALE as i128), denom as i128);
        if !(EPS as i128 <= d && d < DIST_MAX as i128) {
            return None;
        }
        match ray_point(origin, dir, d) {
            None => None,
            Some(hit) => {
                let off = hit.minus(self.center);
                let dist_from_center = off.norm();
                if dist_from_center > self.radius {
                    None
                } else {
                    Some(CandidateHit { hit_point: hit, normal: n, distance: d })
                }
            },
        }
    }

    /// The nearest hit along `ray` that still beats its current bound.
    pub fn intersection(&self, ray: &Ray) -> (r: Option<Intersection>)
        requires
            self.wf(),
            ray.wf(),
        ensures
            hit_filtered(
                self.spec_hit(ray.origin, ray.direction),
                ray.intersection_dist as int,
                r,
            ),
            r matches Some(i) ==> i.wf() && i.texture == self.texture,
    {
        let c = self.candidate(ray.origin, ray.direction);
        to_intersection(c, ray.intersection_dist, self.texture)
    }

    pub fn texture(&self) -> (r: Texture)
        ensures
            r == self.texture,
    {
        self.texture
    }

    pub fn center(&self) -> (r: Point)
        ensures
            r == self.center,
    {
        self.center
    }

    pub fn is_light(&self) -> (r: bool)
        ensures
            r == self.texture.spec_is_light(),
    {
        self.texture.is_light()
    }
}

} // verus!
