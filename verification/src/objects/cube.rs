//! Ray-cube intersection: an axis-aligned cube tested face by face.

use vstd::prelude::*;
use crate::fx::{abs_int, tdiv, EPS, DIST_MAX, COORD_LIMIT, SCALE};
use crate::objects::{
    Hit, Intersection, CandidateHit, cand_agrees, hit_filtered, to_intersection, spec_ray_point,
    ray_point,
};
use crate::ray::Ray;
use crate::textures::Texture;
use crate::vec3::{Vec3, Point, Normal, spec_minus};

verus! {

#[derive(Clone, Debug)]
pub struct Cube {
    pub center: Point,
    pub size: i64,
    pub texture: Texture,
}

/// The sign of a scalar, scaled to a unit component: `SCALE`, `-SCALE`, or 0.
pub open spec fn spec_signum_unit(v: int) -> int {
    if v > 0 {
        SCALE as int
    } else if v < 0 {
        -SCALE as int
    } else {
        0
    }
}

/// A signed unit axis vector: the only shapes a cube face normal takes away
/// from the center.
pub open spec fn is_axis_normal(n: Vec3) -> bool {
    ||| n == (Vec3 { x: SCALE as i64, y: 0i64, z: 0i64 })
    ||| n == (Vec3 { x: (-SCALE) as i64, y: 0i64, z: 0i64 })
    ||| n == (Vec3 { x: 0i64, y: SCALE as i64, z: 0i64 })
    ||| n == (Vec3 { x: 0i64, y: (-SCALE) as i64, z: 0i64 })
    ||| n == (Vec3 { x: 0i64, y: 0i64, z: SCALE as i64 })
    ||| n == (Vec3 { x: 0i64, y: 0i64, z: (-SCALE) as i64 })
}

impl Cube {
    /// Center inside the world box, positive bounded edge, well-formed
    /// material.
    pub open spec fn wf(self) -> bool {
        &&& self.center.in_box()
        &&& 0 < self.size <= COORD_LIMIT
        &&& self.texture.wf()
    }

    pub fn new(center: Point, size: i64, texture: Texture) -> (r: Cube)
        requires
            center.in_box(),
            0 < size <= COORD_LIMIT,
            texture.wf(),
        ensures
            r == (Cube { center, size, texture }),
            r.wf(),
    {
        Cube { center, size, texture }
    }

    /// The face normal at a surface point: the axis of the largest local
    /// coordinate, ties resolved in the fixed order x, y, z.
    pub open spec fn spec_normal(self, point: Point) -> Normal {
        let l = spec_minus(point, self.center);
        let ax = abs_int(l.x as int);
        let ay = abs_int(l.y as int);
        let az = abs_int(l.z as int);
        if ax >= ay && ax >= az {
            Vec3 { x: spec_signum_unit(l.x as int) as i64, y: 0, z: 0 }
        } else if ay >= az {
            Vec3 { x: 0, y: spec_signum_unit(l.y as int) as i64, z: 0 }
        } else {
            Vec3 { x: 0, y: 0, z: spec_signum_unit(l.z as int) as i64 }
        }
    }

    /// The face normal at `point`, by largest local coordinate; on an edge or
    /// corner the tie goes to the first of x, y, z.  Anywhere but at the
    /// exact center the result is a signed unit axis; at the center every
    /// local coordinate vanishes and so does the normal.
    pub fn normal(&self, point: Point) -> (r: Normal)
        requires
            self.center.in_box(),
            point.in_box(),
        ensures
            r == self.spec_normal(point),
            r.unitish(),
            point != self.center ==> is_axis_normal(r),
    {
        let l = point.minus(self.center);
        proof {
            if l.x == 0 && l.y == 0 && l.z == 0 {
                assert(point == self.center);
            }
        }
        let ax = if l.x < 0 {
            -l.x
        } else {
            l.x
        };
        let ay = if l.y < 0 {
            -l.y
        } else {
            l.y
        };
        let az = if l.z < 0 {
            -l.z
        } else {
            l.z
        };
        if ax >= ay && ax >= az {
            Vec3 { x: signum_unit(l.x), y: 0, z: 0 }
        } else if ay >= az {
            Vec3 { x: 0, y: signum_unit(l.y), z: 0 }
        } else {
            Vec3 { x: 0, y: 0, z: signum_unit(l.z) }
        }
    }

    /// The local coordinate of the face plane `(axis, positive)`: where the
    /// face's center sits along its axis, relative to the cube center.
    pub open spec fn spec_half(self) -> int {
        tdiv(self.size as int, 2)
    }

    /// The candidate of one face: the ray meets the face plane at a distance
    /// in range, inside the world box, with every local coordinate within the
    /// tolerant half-size.  Yields the distance and surface point.
    pub open spec fn spec_face(self, origin: Vec3, dir: Vec3, axis: int, positive: bool) -> Option<
        (int, Vec3),
    > {
        let o_a = axis_of(origin, axis);
        let u_a = axis_of(dir, axis);
        let c_a = axis_of(self.center, axis);
        let denom = if positive {
            u_a
        } else {
            -u_a
        };
        let face_c = if positive {
            c_a + self.spec_half()
        } else {
            c_a - self.spec_half()
        };
        if abs_int(denom) <= EPS as int {
            None
        } else {
            let num = if positive {
                face_c - o_a
            } else {
                -(face_c - o_a)
            };
            let d = tdiv(num * (SCALE as int), denom);
            if !(EPS as int <= d < DIST_MAX as int) {
                None
            } else {
                let hit = spec_ray_point(origin, dir, d);
                if !hit.in_box() {
                    None
                } else {
                    let l = spec_minus(hit, self.center);
                    let tol = self.spec_half() + 1 + tdiv(self.spec_half(), SCALE as int);
                    if abs_int(l.x as int) <= tol && abs_int(l.y as int) <= tol && abs_int(
                        l.z as int,
                    ) <= tol {
                        Some((d, hit))
                    } else {
                        None
                    }
                }
            }
        }
    }

    /// The nearer of two face candidates; the earlier face wins ties.
    pub open spec fn spec_better(
        cur: Option<(int, Vec3)>,
        nxt: Option<(int, Vec3)>,
    ) -> Option<(int, Vec3)> {
        match (cur, nxt) {
            (None, _) => nxt,
            (Some(_), None) => cur,
            (Some(c), Some(n)) => if n.0 < c.0 {
                nxt
            } else {
                cur
            },
        }
    }

    /// The candidate hit of the cube: the nearest face candidate, faces
    /// visited in the order +x, -x, +y, -y, +z, -z.
    pub open spec fn spec_hit(self, origin: Vec3, dir: Vec3) -> Option<Hit> {
        let best = Self::spec_better(
            Self::spec_better(
                Self::spec_better(
                    Self::spec_better(
                        Self::spec_better(
                            self.spec_face(origin, dir, 0, true),
                            self.spec_face(origin, dir, 0, false),
                        ),
                        self.spec_face(origin, dir, 1, true),
                    ),
                    self.spec_face(origin, dir, 1, false),
                ),
                self.spec_face(origin, dir, 2, true),
            ),
            self.spec_face(origin, dir, 2, false),
        );
        match best {
            None => None,
            Some((d, hit)) => Some(
                Hit {
                    hit_point: hit,
                    normal: self.spec_normal(hit),
                    distance: d,
                    texture: self.texture,
                },
            ),
        }
    }

    /// One face's candidate, as executable code carries it.
    #[verifier::rlimit(60)]
    fn face(&self, origin: Point, dir: Vec3, axis: u8, positive: bool) -> (r: Option<(i128, Vec3)>)
        requires
            self.wf(),
            origin.in_box(),
            dir.unitish(),
            axis < 3,
        ensures
            ({
                let h = self.spec_face(origin, dir, axis as int, positive);
                match (r, h) {
                    (Some(c), Some(s)) => c.0 == s.0 && c.1 == s.1 && EPS as int <= c.0
                        < DIST_MAX as int && c.1.in_box(),
                    (None, None) => true,
                    _ => false,
                }
            }),
    {
        let o_a = axis_component(origin, axis);
        let u_a = axis_component(dir, axis);
        let c_a = axis_component(self.center, axis);
        let denom: i64 = if positive {
            u_a
        } else {
            -u_a
        };
        if -EPS <= denom && denom <= EPS {
            return None;
        }
        let half = self.size / 2;
        let face_c: i64 = if positive {
            c_a + half
        } else {
            c_a - half
        };
        let num: i64 = if positive {
            face_c - o_a
        } else {
            -(face_c - o_a)
        };
        proof {
            assert(half == self.spec_half());
            assert(abs_int((num as int) * (SCALE as int)) <= 16_000_000_000_000_000i128
                * 1_000_000i128) by (nonlinear_arith)
                requires
                    abs_int(num as int) <= 16_000_000_000_000_000i128,
                    SCALE == 1_000_000i64,
            ;
        }
        let d = crate::fx::tdiv_i128((num as i128) * (SCALE as i128), denom as i128);
        if !(EPS as i128 <= d && d < DIST_MAX as i128) {
            return None;
        }
        match ray_point(origin, dir, d) {
            None => None,
            Some(hit) => {
                let l = hit.minus(self.center);
                let tol = half + 1 + ((half as u64) / (SCALE as u64)) as i64;
                let lx = if l.x < 0 {
                    -l.x
                } else {
                    l.x
                };
                let ly = if l.y < 0 {
                    -l.y
                } else {
                    l.y
                };
                let lz = if l.z < 0 {
                    -l.z
                } else {
                    l.z
                };
                if lx <= tol && ly <= tol && lz <= tol {
                    Some((d, hit))
                } else {
                    None
                }
            },
        }
    }

    /// The candidate hit, bound-independent, as executable code carries it.
    #[verifier::rlimit(60)]
    pub fn candidate(&self, origin: Point, dir: Vec3) -> (r: Option<CandidateHit>)
        requires
            self.wf(),
            origin.in_box(),
            dir.unitish(),
        ensures
            ({
                let h = self.spec_hit(origin, dir);
                cand_agrees(r, h) && (r matches Some(c) ==> c.wf())
            }),
    {
        let mut best: Option<(i128, Vec3)> = self.face(origin, dir, 0, true);
        best = better(best, self.face(origin, dir, 0, false));
        best = better(best, self.face(origin, dir, 1, true));
        best = better(best, self.face(origin, dir, 1, false));
        best = better(best, self.face(origin, dir, 2, true));
        best = better(best, self.face(origin, dir, 2, false));
        match best {
            None => None,
            Some((d, hit)) => {
                let normal = self.normal(hit);
                Some(CandidateHit { hit_point: hit, normal, distance: d })
            },
        }
    }

    /// The nearest hit along `ray` that still beats its current bound.
    pub fn intersection(&self, ray: &Ray) -> (r: Option<Intersection>)
        requires
            self.wf(),
            ray.wf(),
        ensures
            hit_filtered(
                self.spec_hit(ray.origin, ray.direction),
                ray.intersection_dist as int,
                r,
            ),
            r matches Some(i) ==> i.wf() && i.texture == self.texture,
    {
        let c = self.candidate(ray.origin, ray.direction);
        to_intersection(c, ray.intersection_dist, self.texture)
    }

    pub fn texture(&self) -> (r: Texture)
        ensures
            r == self.texture,
    {
        self.texture
    }

    pub fn center(&self) -> (r: Point)
        ensures
            r == self.center,
    {
        self.center
    }

    pub fn is_light(&self) -> (r: bool)
        ensures
            r == self.texture.spec_is_light(),
    {
        self.texture.is_light()
    }
}

/// The component of `v` along axis 0, 1 or 2.
pub open spec fn axis_of(v: Vec3, axis: int) -> int {
    if axis == 0 {
        v.x as int
    } else if axis == 1 {
        v.y as int
    } else {
        v.z as int
    }
}

fn axis_component(v: Vec3, axis: u8) -> (r: i64)
    requires
        axis < 3,
    ensures
        r == axis_of(v, axis as int),
{
    if axis == 0 {
        v.x
    } else if axis == 1 {
        v.y
    } else {
        v.z
    }
}

/// The sign of `v`, scaled to a unit component.
fn signum_unit(v: i64) -> (r: i64)
    ensures
        r == spec_signum_unit(v as int),
{
    if v > 0 {
        SCALE
    } else if v < 0 {
        -SCALE
    } else {
        0
    }
}

/// The nearer of two face candidates; the earlier wins ties.
fn better(cur: Option<(i128, Vec3)>, nxt: Option<(i128, Vec3)>) -> (r: Option<(i128, Vec3)>)
    ensures
        ({
            let cs = match cur {
                Some(c) => Some((c.0 as int, c.1)),
                None => None,
            };
            let ns = match nxt {
                Some(n) => Some((n.0 as int, n.1)),
                None => None,
            };
            let rs = match r {
                Some(v) => Some((v.0 as int, v.1)),
                None => None,
            };
            rs == Cube::spec_better(cs, ns)
        }),
{
    match (cur, nxt) {
        (None, _) => nxt,
        (Some(_), None) => cur,
        (Some(c), Some(n)) => if n.0 < c.0 {
            nxt
        } else {
            cur
        },
    }
}

} // verus!
