//! Geometric primitives and their ray-intersection tests.
//!
//! Each shape states what it computes through a bound-independent *candidate*
//! hit ([`Hit`]): the nearest surface point the shape offers along a ray,
//! beyond the self-intersection tolerance and inside the world box.  The
//! executable test returns that candidate exactly when its distance still
//! beats the ray's current nearest hit.

use vstd::prelude::*;
use crate::fx::{abs_int, tdiv, EPS, DIST_MAX, COORD_LIMIT};
use crate::textures::Texture;
use crate::vec3::{Vec3, Point, Normal};

pub mod sphere;
pub mod flat_plane;
pub mod cube;
pub mod cylinder;

pub use sphere::Sphere;
pub use flat_plane::FlatPlane;
pub use cube::Cube;
pub use cylinder::Cylinder;

verus! {

/// The largest `|a|` that `discriminant` accepts.
pub const QUAD_A_LIMIT: i128 = 4_000_000;

/// The largest `|b|` that `discriminant` accepts.
pub const QUAD_B_LIMIT: i128 = 2_000_000_000_000_000_000;

/// The largest `|c|` that `discriminant` accepts.
pub const QUAD_C_LIMIT: i128 = 1_000_000_000_000_000_000_000_000_000;

/// The discriminant `b^2 - 4 a c` of a quadratic, or `None` when it is
/// negative and the quadratic has no real root.
pub fn discriminant(a: i128, b: i128, c: i128) -> (r: Option<i128>)
    requires
        abs_int(a as int) <= QUAD_A_LIMIT as int,
        abs_int(b as int) <= QUAD_B_LIMIT as int,
        abs_int(c as int) <= QUAD_C_LIMIT as int,
    ensures
        r is Some <==> (b as int) * (b as int) - 4 * (a as int) * (c as int) >= 0,
        r matches Some(d) ==> d == (b as int) * (b as int) - 4 * (a as int) * (c as int),
        r matches Some(d) ==> abs_int(d as int)
            <= 8_000_000_000_000_000_000_000_000_000_000_000_000,
{
    proof {
        assert(abs_int((b as int) * (b as int)) <= 4_000_000_000_000_000_000_000_000_000_000_000_000
            && abs_int((a as int) * (c as int)) <= 4_000_000_000_000_000_000_000_000_000_000_000)
            by (nonlinear_arith)
            requires
                abs_int(a as int) <= QUAD_A_LIMIT as int,
                abs_int(b as int) <= QUAD_B_LIMIT as int,
                abs_int(c as int) <= QUAD_C_LIMIT as int,
                QUAD_A_LIMIT == 4_000_000i128,
                QUAD_B_LIMIT == 2_000_000_000_000_000_000i128,
                QUAD_C_LIMIT == 1_000_000_000_000_000_000_000_000_000i128,
        ;
    }
    let bb = b * b;
    let ac = a * c;
    let d = bb - 4 * ac;
    proof {
        assert((bb as int) - 4 * (ac as int) == (b as int) * (b as int) - 4 * (a as int) * (
        c as int)) by (nonlinear_arith)
            requires
                bb == (b as int) * (b as int),
                ac == (a as int) * (c as int),
        ;
    }
    if d >= 0 {
        Some(d)
    } else {
        None
    }
}

/// A surface hit: where, how the surface faces, how far along the ray, and
/// what material was struck.  Produced fresh by every intersection test.
pub struct Intersection {
    pub hit_point: Point,
    pub normal: Normal,
    pub distance: i64,
    pub texture: Texture,
}

impl Intersection {
    /// Hit point inside the world box, unit-sized normal, distance in the
    /// accepted range, well-formed material color.
    pub open spec fn wf(self) -> bool {
        &&& self.hit_point.in_box()
        &&& self.normal.unitish()
        &&& EPS as int <= self.distance < DIST_MAX as int
        &&& self.texture.wf()
    }

    pub fn new(hit_point: Point, normal: Normal, distance: i64, texture: Texture) -> (r:
        Intersection)
        ensures
            r == (Intersection { hit_point, normal, distance, texture }),
    {
        Intersection { hit_point, normal, distance, texture }
    }
}

/// A candidate hit of one shape along one ray, independent of the ray's
/// running nearest-hit bound.  `distance` is unbounded at the spec level.
pub struct Hit {
    pub hit_point: Point,
    pub normal: Normal,
    pub distance: int,
    pub texture: Texture,
}

impl Hit {
    /// The ranges a candidate accepted by any shape satisfies.
    pub open spec fn wf(self) -> bool {
        &&& self.hit_point.in_box()
        &&& self.normal.unitish()
        &&& EPS as int <= self.distance < DIST_MAX as int
        &&& self.texture.wf()
    }
}

/// The point `origin + dir * (d / SCALE)`, componentwise in fixed point.
pub open spec fn spec_ray_point(origin: Vec3, dir: Vec3, d: int) -> Vec3 {
    Vec3 {
        x: (origin.x + tdiv((dir.x as int) * d, crate::fx::SCALE as int)) as i64,
        y: (origin.y + tdiv((dir.y as int) * d, crate::fx::SCALE as int)) as i64,
        z: (origin.z + tdiv((dir.z as int) * d, crate::fx::SCALE as int)) as i64,
    }
}

/// Walk `d / SCALE` world units along `dir` from `origin`; `None` when the
/// point leaves the world box.
pub fn ray_point(origin: Vec3, dir: Vec3, d: i128) -> (r: Option<Vec3>)
    requires
        origin.in_box(),
        dir.unitish(),
        EPS as int <= d < DIST_MAX as int,
    ensures
        ({
            let h = spec_ray_point(origin, dir, d as int);
            match r {
                Some(v) => v == h && v.in_box(),
                None => !h.in_box(),
            }
        }),
{
    let x = ray_point_component(origin.x, dir.x, d);
    let y = ray_point_component(origin.y, dir.y, d);
    let z = ray_point_component(origin.z, dir.z, d);
    let v = Vec3 { x, y, z };
    if x <= COORD_LIMIT && -COORD_LIMIT <= x && y <= COORD_LIMIT && -COORD_LIMIT <= y && z
        <= COORD_LIMIT && -COORD_LIMIT <= z {
        Some(v)
    } else {
        None
    }
}

/// One component of `ray_point`.
fn ray_point_component(o: i64, u: i64, d: i128) -> (r: i64)
    requires
        abs_int(o as int) <= COORD_LIMIT as int,
        abs_int(u as int) <= crate::fx::SCALE as int,
        EPS as int <= d < DIST_MAX as int,
    ensures
        r == (o + tdiv((u as int) * (d as int), crate::fx::SCALE as int)) as i64,
        r == o + tdiv((u as int) * (d as int), crate::fx::SCALE as int),
{
    proof {
        assert(abs_int((u as int) * (d as int)) <= (crate::fx::SCALE as int) * (DIST_MAX as int))
            by (nonlinear_arith)
            requires
                abs_int(u as int) <= crate::fx::SCALE as int,
                0 <= d < DIST_MAX as int,
        ;
    }
    let w = (u as i128) * d;
    let t = crate::fx::tdiv_i128(w, crate::fx::SCALE as i128);
    proof {
        assert(abs_int(t as int) <= DIST_MAX as int) by (nonlinear_arith)
            requires
                t == tdiv(w as int, crate::fx::SCALE as int),
                abs_int(w as int) <= (crate::fx::SCALE as int) * (DIST_MAX as int),
                crate::fx::SCALE == 1_000_000i64,
                DIST_MAX == 100_000_000_000_000_000i64,
        ;
    }
    let s = (o as i128) + t;
    s as i64
}

/// A candidate hit as executable code carries it: the distance still wide,
/// the texture implied by the shape that produced it.
#[derive(Clone, Copy)]
pub struct CandidateHit {
    pub hit_point: Point,
    pub normal: Normal,
    pub distance: i128,
}

impl CandidateHit {
    /// The ranges every accepted candidate satisfies.
    pub open spec fn wf(self) -> bool {
        &&& self.hit_point.in_box()
        &&& self.normal.unitish()
        &&& EPS as int <= self.distance < DIST_MAX as int
    }
}

/// The executable candidate `r` carries exactly the spec-level candidate `h`.
pub open spec fn cand_agrees(r: Option<CandidateHit>, h: Option<Hit>) -> bool {
    match (r, h) {
        (Some(c), Some(hh)) => c.hit_point == hh.hit_point && c.normal == hh.normal && c.distance
            == hh.distance,
        (None, None) => true,
        _ => false,
    }
}

/// Turn a shape's candidate into its intersection result: accepted exactly
/// when the candidate's distance beats the ray's current nearest hit.
pub fn to_intersection(c: Option<CandidateHit>, bound: i64, texture: Texture) -> (r: Option<
    Intersection>)
    requires
        c matches Some(cc) ==> cc.wf(),
        texture.wf(),
    ensures
        ({
            let h = match c {
                Some(cc) => Some(
                    Hit {
                        hit_point: cc.hit_point,
                        normal: cc.normal,
                        distance: cc.distance as int,
                        texture,
                    },
                ),
                None => None,
            };
            hit_filtered(h, bound as int, r)
        }),
        r matches Some(i) ==> i.wf() && i.texture == texture,
{
    match c {
        Some(cc) => {
            if cc.distance < bound as i128 {
                Some(
                    Intersection {
                        hit_point: cc.hit_point,
                        normal: cc.normal,
                        distance: cc.distance as i64,
                        texture,
                    },
                )
            } else {
                None
            }
        },
        None => None,
    }
}

/// One root of a ray-surface quadratic, as a fixed-point ray distance:
/// `(-b -/+ sq) * SCALE / (2 a)`.
pub fn root_dist(b: i128, sq: i128, a: i128, minus: bool) -> (r: i128)
    requires
        0 < a <= 4_000_000,
        abs_int(b as int) <= 2_000_000_000_000_000_000,
        0 <= sq <= 3_000_000_000_000_000_000,
    ensures
        minus ==> r == tdiv((-(b as int) - sq) * (crate::fx::SCALE as int), 2 * a),
        !minus ==> r == tdiv((-(b as int) + sq) * (crate::fx::SCALE as int), 2 * a),
{
    let num0 = if minus {
        -b - sq
    } else {
        -b + sq
    };
    proof {
        assert(abs_int((num0 as int) * (crate::fx::SCALE as int)) <= 5_000_000_000_000_000_000i128
            * 1_000_000i128) by (nonlinear_arith)
            requires
                abs_int(num0 as int) <= 5_000_000_000_000_000_000i128,
                crate::fx::SCALE == 1_000_000i64,
        ;
    }
    let num = num0 * (crate::fx::SCALE as i128);
    crate::fx::tdiv_i128(num, 2 * a)
}

/// The nearer of two candidate hits; the earlier wins ties.
pub open spec fn spec_better_hit(cur: Option<Hit>, nxt: Option<Hit>) -> Option<Hit> {
    match (cur, nxt) {
        (None, _) => nxt,
        (Some(_), None) => cur,
        (Some(c), Some(n)) => if n.distance < c.distance {
            nxt
        } else {
            cur
        },
    }
}

/// The nearer of two executable candidates; the earlier wins ties.
pub fn better_cand(cur: Option<CandidateHit>, nxt: Option<CandidateHit>) -> (r: Option<
    CandidateHit>)
    ensures
        ({
            match (cur, nxt) {
                (None, _) => r == nxt,
                (Some(_), None) => r == cur,
                (Some(c), Some(n)) => r == (if n.distance < c.distance {
                    nxt
                } else {
                    cur
                }),
            }
        }),
{
    match (cur, nxt) {
        (None, _) => nxt,
        (Some(_), None) => cur,
        (Some(c), Some(n)) => if n.distance < c.distance {
            nxt
        } else {
            cur
        },
    }
}

/// The shared shape of every intersection result: `r` is the candidate `cand`
/// exactly when the candidate's distance beats `bound`, and `None` otherwise.
pub open spec fn hit_filtered(cand: Option<Hit>, bound: int, r: Option<Intersection>) -> bool {
    match r {
        Some(i) => {
            &&& cand matches Some(h)
            &&& h.distance < bound
            &&& i.hit_point == h.hit_point
            &&& i.normal == h.normal
            &&& i.distance == h.distance
            &&& i.texture == h.texture
        },
        None => match cand {
            Some(h) => h.distance >= bound,
            None => true,
        },
    }
}

/// One scene primitive, dispatched by shape.
#[derive(Clone, Debug)]
pub enum Object {
    Sphere(Sphere),
    Cube(Cube),
    Cylinder(Cylinder),
    FlatPlane(FlatPlane),
}

impl Object {
    pub open spec fn wf(self) -> bool {
        match self {
            Object::Sphere(s) => s.wf(),
            Object::Cube(c) => c.wf(),
            Object::Cylinder(c) => c.wf(),
            Object::FlatPlane(p) => p.wf(),
        }
    }

    /// The candidate hit of the primitive along a ray.
    pub open spec fn spec_hit(self, origin: Point, dir: Vec3) -> Option<Hit> {
        match self {
            Object::Sphere(s) => s.spec_hit(origin, dir),
            Object::Cube(c) => c.spec_hit(origin, dir),
            Object::Cylinder(c) => c.spec_hit(origin, dir),
            Object::FlatPlane(p) => p.spec_hit(origin, dir),
        }
    }

    pub open spec fn spec_texture(self) -> Texture {
        match self {
            Object::Sphere(s) => s.texture,
            Object::Cube(c) => c.texture,
            Object::Cylinder(c) => c.texture,
            Object::FlatPlane(p) => p.texture,
        }
    }

    pub open spec fn spec_center(self) -> Point {
        match self {
            Object::Sphere(s) => s.center,
            Object::Cube(c) => c.center,
            Object::Cylinder(c) => c.center,
            Object::FlatPlane(p) => p.center,
        }
    }

    /// The nearest hit along `ray` that still beats its current bound.
    pub fn intersection(&self, ray: &crate::ray::Ray) -> (r: Option<Intersection>)
        requires
            self.wf(),
            ray.wf(),
        ensures
            hit_filtered(
                self.spec_hit(ray.origin, ray.direction),
                ray.intersection_dist as int,
                r,
            ),
            r matches Some(i) ==> i.wf() && i.texture == self.spec_texture(),
    {
        match self {
            Object::Sphere(s) => s.intersection(ray),
            Object::Cube(c) => c.intersection(ray),
            Object::Cylinder(c) => c.intersection(ray),
            Object::FlatPlane(p) => p.intersection(ray),
        }
    }

    pub fn texture(&self) -> (r: Texture)
        ensures
            r == self.spec_texture(),
    {
        match self {
            Object::Sphere(s) => s.texture,
            Object::Cube(c) => c.texture,
            Object::Cylinder(c) => c.texture,
            Object::FlatPlane(p) => p.texture,
        }
    }

    pub fn center(&self) -> (r: Point)
        ensures
            r == self.spec_center(),
    {
        match self {
            Object::Sphere(s) => s.center,
            Object::Cube(c) => c.center,
            Object::Cylinder(c) => c.center,
            Object::FlatPlane(p) => p.center,
        }
    }

    pub fn is_light(&self) -> (r: bool)
        ensures
            r == self.spec_texture().spec_is_light(),
    {
        self.texture().is_light()
    }
}

/// The primitive offers a hit nearer than `bound` along the ray.
pub open spec fn hit_below(o: Object, origin: Point, dir: Vec3, bound: int) -> bool {
    match o.spec_hit(origin, dir) {
        Some(h) => h.distance < bound,
        None => false,
    }
}

/// The primitive's candidate carries exactly the fields of `i`.
pub open spec fn hit_is(o: Object, origin: Point, dir: Vec3, i: Intersection) -> bool {
    match o.spec_hit(origin, dir) {
        Some(h) => h.hit_point == i.hit_point && h.normal == i.normal && h.distance == i.distance
            && h.texture == i.texture,
        None => false,
    }
}

/// `h` is the unique nearest candidate the objects offer along the ray:
/// some object offers exactly `h`, and every other candidate is farther.
pub open spec fn nearest_hit(objects: Seq<Object>, origin: Point, dir: Vec3, h: Hit) -> bool {
    &&& exists|j: int|
        0 <= j < objects.len() && #[trigger] objects[j].spec_hit(origin, dir) == Some(h)
    &&& forall|j: int|
        0 <= j < objects.len() ==> match #[trigger] objects[j].spec_hit(origin, dir) {
            Some(h2) => h2.distance > h.distance || h2 == h,
            None => true,
        }
}

} // verus!
