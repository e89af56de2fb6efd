//! Rays and the recursive path tracer.

use vstd::prelude::*;
use crate::fx::{
    abs_int, tdiv, fxmul, EPS, DIST_MAX, COORD_LIMIT, SCALE, CHANNEL_MAX, sin_turn, cos_turn,
};
use crate::objects::{Intersection, Hit, hit_below, hit_is, nearest_hit};
use crate::scene::Scene;
use crate::textures::Texture;
use crate::vec3::{
    Vec3, Point, Direction, Normal, Color, spec_minus, spec_scale_fx, lemma_unit_dot_bound,
    lemma_unit_cross_bound,
};

verus! {

/// Recursion stops once a ray's depth reaches this bound.
pub const MAX_DEPTH: u8 = 50;

/// How many secondary rays a scattering surface spawns at depth zero; the
/// fan-out is halved at depth one, quartered at depth two, and one deeper.
pub const NUM_SECONDARY_RAYS: u8 = 4;

/// The boost applied by `average_color` to a path that reached a light:
/// one and a half, in fixed point.
pub const LIGHT_BOOST: i64 = 1_500_000;

/// The fan-out at a given depth.
pub open spec fn spec_fan_out(depth: u8) -> int {
    if depth == 0 {
        NUM_SECONDARY_RAYS as int
    } else if depth == 1 {
        NUM_SECONDARY_RAYS as int / 2
    } else {
        1
    }
}

/// The fan-out at a given depth: the full fan at the surface, half after one
/// bounce, and a single ray deeper down.
pub fn fan_out(depth: u8) -> (r: u8)
    ensures
        r == spec_fan_out(depth),
        1 <= r <= NUM_SECONDARY_RAYS,
{
    if depth == 0 {
        NUM_SECONDARY_RAYS
    } else if depth == 1 {
        NUM_SECONDARY_RAYS / 2
    } else {
        1
    }
}

/// One sampled light path.  `collisions` collects the colors of the surfaces
/// met, parents before children; `intersection_dist` is the running nearest
/// hit, which only ever tightens.
#[derive(Clone, Debug)]
pub struct Ray {
    pub origin: Point,
    pub direction: Direction,
    pub collisions: Vec<Color>,
    pub hit_light_source: bool,
    pub intersection_dist: i64,
    pub depth: u8,
}

/// The sum of `collisions[i] / (i + 1)` from entry `from` on, per channel:
/// the exponential-decay weighting of `average_color`.
pub open spec fn decay_total(cs: Seq<Color>, from: int) -> (int, int, int)
    decreases cs.len() - from,
{
    if from < 0 || from >= cs.len() {
        (0, 0, 0)
    } else {
        let rest = decay_total(cs, from + 1);
        (
            tdiv(cs[from].x as int, from + 1) + rest.0,
            tdiv(cs[from].y as int, from + 1) + rest.1,
            tdiv(cs[from].z as int, from + 1) + rest.2,
        )
    }
}

/// The ambient boost `average_color` applies to a path that found no light:
/// halfway between the scene's brightness and one.
pub open spec fn spec_ambient_boost(brightness: int) -> int {
    tdiv(SCALE as int + brightness, 2)
}

/// What `average_color` returns: a single collision unchanged; otherwise the
/// decay-weighted sum divided by the collision count, scaled by the light or
/// the ambient boost.
pub open spec fn spec_average_color(cs: Seq<Color>, hit_light: bool, brightness: int) -> Vec3 {
    if cs.len() == 1 {
        cs[0]
    } else {
        let t = decay_total(cs, 0);
        let n = cs.len() as int;
        let boost = if hit_light {
            LIGHT_BOOST as int
        } else {
            spec_ambient_boost(brightness)
        };
        Vec3 {
            x: fxmul(tdiv(t.0, n), boost) as i64,
            y: fxmul(tdiv(t.1, n), boost) as i64,
            z: fxmul(tdiv(t.2, n), boost) as i64,
        }
    }
}

/// A rendered color channel: non-negative and at most twice the channel
/// maximum, which covers every boost the tracer applies.
pub open spec fn pixel_wf(c: Vec3) -> bool {
    &&& 0 <= c.x <= 2 * CHANNEL_MAX
    &&& 0 <= c.y <= 2 * CHANNEL_MAX
    &&& 0 <= c.z <= 2 * CHANNEL_MAX
}

impl Ray {
    /// The invariant every ray keeps: origin inside the world box, direction
    /// normalized, nearest-hit distance in range, collisions well-formed.
    pub open spec fn wf(self) -> bool {
        &&& self.origin.in_box()
        &&& self.direction.unitish()
        &&& EPS as int <= self.intersection_dist <= DIST_MAX as int
        &&& forall|i: int|
            0 <= i < self.collisions@.len() ==> #[trigger] self.collisions@[i].color_wf()
    }

    /// The ray's origin, direction and depth agree with `o`.
    pub open spec fn same_path_as(self, o: Ray) -> bool {
        &&& self.origin == o.origin
        &&& self.direction == o.direction
        &&& self.depth == o.depth
    }

    /// A fresh ray: direction normalized, no collisions yet, nearest hit at
    /// the sentinel distance.
    pub fn new(origin: Point, direction: Point, depth: u8) -> (r: Ray)
        requires
            origin.in_box(),
            abs_int(direction.x as int) <= 16 * COORD_LIMIT as int,
            abs_int(direction.y as int) <= 16 * COORD_LIMIT as int,
            abs_int(direction.z as int) <= 16 * COORD_LIMIT as int,
        ensures
            r.wf(),
            r.origin == origin,
            r.direction == direction.spec_normalize(),
            r.collisions@ == Seq::<Color>::empty(),
            r.hit_light_source == false,
            r.intersection_dist == DIST_MAX,
            r.depth == depth,
    {
        let r = Ray {
            origin,
            direction: direction.normalize(),
            collisions: Vec::new(),
            hit_light_source: false,
            intersection_dist: DIST_MAX,
            depth,
        };
        proof {
            assert(r.collisions@ =~= Seq::<Color>::empty());
        }
        r
    }

    /// The ray's depth has reached the recursion bound.
    pub fn reached_max_depth(&self) -> (r: bool)
        ensures
            r == (self.depth >= MAX_DEPTH),
    {
        self.depth >= MAX_DEPTH
    }

    /// Scan every object and keep the globally nearest hit, tightening the
    /// ray's nearest-hit distance as it goes; the first of equally near
    /// objects wins.
    pub fn closest_intersection(&mut self, scene: &Scene) -> (r: Option<Intersection>)
        requires
            old(self).wf(),
            scene.wf(),
        ensures
            final(self).wf(),
            final(self).same_path_as(*old(self)),
            final(self).collisions == old(self).collisions,
            final(self).hit_light_source == old(self).hit_light_source,
            final(self).intersection_dist <= old(self).intersection_dist,
            match r {
                Some(i) => {
                    &&& i.wf()
                    &&& final(self).intersection_dist == i.distance
                    &&& i.distance < old(self).intersection_dist
                    &&& exists|j: int|
                        0 <= j < scene.objects@.len() && #[trigger] hit_is(
                            scene.objects@[j],
                            old(self).origin,
                            old(self).direction,
                            i,
                        )
                    &&& forall|j: int|
                        0 <= j < scene.objects@.len() ==> !#[trigger] hit_below(
                            scene.objects@[j],
                            old(self).origin,
                            old(self).direction,
                            i.distance as int,
                        )
                },
                None => {
                    &&& final(self).intersection_dist == old(self).intersection_dist
                    &&& forall|j: int|
                        0 <= j < scene.objects@.len() ==> !#[trigger] hit_below(
                            scene.objects@[j],
                            old(self).origin,
                            old(self).direction,
                            old(self).intersection_dist as int,
                        )
                },
            },
    {
        let mut best: Option<Intersection> = None;
        let mut idx: usize = 0;
        let ghost orig = *old(self);
        while idx < scene.objects.len()
            invariant
                self.wf(),
                scene.wf(),
                idx <= scene.objects@.len(),
                self.same_path_as(orig),
                self.collisions == orig.collisions,
                self.hit_light_source == orig.hit_light_source,
                self.intersection_dist <= orig.intersection_dist,
                match best {
                    Some(i) => {
                        &&& i.wf()
                        &&& self.intersection_dist == i.distance
                        &&& i.distance < orig.intersection_dist
                        &&& exists|j: int|
                            0 <= j < scene.objects@.len() && #[trigger] hit_is(
                                scene.objects@[j],
                                self.origin,
                                self.direction,
                                i,
                            )
                    },
                    None => self.intersection_dist == orig.intersection_dist,
                },
                forall|j: int|
                    0 <= j < idx ==> !#[trigger] hit_below(
                        scene.objects@[j],
                        self.origin,
                        self.direction,
                        self.intersection_dist as int,
                    ),
            decreases scene.objects@.len() - idx,
        {
            let ghost bound_before = self.intersection_dist;
            let obj = &scene.objects[idx];
            let found = obj.intersection(self);
            if let Some(intersection) = found {
                if intersection.distance < self.intersection_dist {
                    proof {
                        assert(hit_is(
                            scene.objects@[idx as int],
                            self.origin,
                            self.direction,
                            intersection,
                        ));
                    }
                    self.intersection_dist = intersection.distance;
                    best = Some(intersection);
                }
            }
            proof {
                assert forall|j: int| 0 <= j < idx + 1 implies !#[trigger] hit_below(
                    scene.objects@[j],
                    self.origin,
                    self.direction,
                    self.intersection_dist as int,
                ) by {
                    if j < idx {
                        assert(!hit_below(
                            scene.objects@[j],
                            self.origin,
                            self.direction,
                            bound_before as int,
                        ));
                    }
                }
            }
            idx = idx + 1;
        }
        best
    }

    /// Find the closest intersection, scatter off its surface per the
    /// material, and fold every secondary ray's findings into this one.
    #[verifier::rlimit(90)]
    pub fn trace(&mut self, scene: &Scene)
        requires
            old(self).wf(),
            scene.wf(),
        ensures
            final(self).wf(),
            final(self).same_path_as(*old(self)),
            final(self).intersection_dist <= old(self).intersection_dist,
            old(self).collisions@.is_prefix_of(final(self).collisions@),
            old(self).hit_light_source ==> final(self).hit_light_source,
            old(self).depth >= MAX_DEPTH ==> final(self).collisions == old(self).collisions
                && final(self).hit_light_source == old(self).hit_light_source && final(self).intersection_dist == old(self).intersection_dist,
            (old(self).depth < MAX_DEPTH && (forall|j: int|
                0 <= j < scene.objects@.len() ==> !#[trigger] hit_below(
                    scene.objects@[j],
                    old(self).origin,
                    old(self).direction,
                    old(self).intersection_dist as int,
                ))) ==> final(self).collisions@ == old(self).collisions@ && final(self).hit_light_source == old(self).hit_light_source && final(self).intersection_dist
                == old(self).intersection_dist,
            forall|h: Hit|
                (old(self).depth < MAX_DEPTH && #[trigger] nearest_hit(
                    scene.objects@,
                    old(self).origin,
                    old(self).direction,
                    h,
                ) && h.distance < old(self).intersection_dist as int) ==> {
                    &&& final(self).intersection_dist == h.distance
                    &&& match h.texture {
                        Texture::Light(c) => final(self).collisions@ == old(self).collisions@.push(c) && final(self).hit_light_source,
                        Texture::Diffusive(c) => final(self).collisions@.len() > old(self).collisions@.len() && final(self).collisions@[old(self).collisions@.len() as int] == c,
                        Texture::Glossy(c) => final(self).collisions@.len() > old(self).collisions@.len() && final(self).collisions@[old(self).collisions@.len() as int] == c,
                        Texture::Reflective => true,
                    }
                },
        decreases 5 * (MAX_DEPTH as int - old(self).depth),
    {
        if self.reached_max_depth() {
            return ;
        }
        let ghost pre = *old(self);
        let found = self.closest_intersection(scene);
        match found {
            None => {
                proof {
                    lemma_no_nearest_below(
                        scene.objects@,
                        pre.origin,
                        pre.direction,
                        pre.intersection_dist as int,
                    );
                }
            },
            Some(intersection) => {
                proof {
                    lemma_nearest_matches(
                        scene.objects@,
                        pre.origin,
                        pre.direction,
                        intersection,
                        pre.intersection_dist as int,
                    );
                    let ji = choose|j: int|
                        0 <= j < scene.objects@.len() && #[trigger] hit_is(
                            scene.objects@[j],
                            pre.origin,
                            pre.direction,
                            intersection,
                        );
                    assert(hit_below(
                        scene.objects@[ji],
                        pre.origin,
                        pre.direction,
                        pre.intersection_dist as int,
                    ));
                }
                self.handle_hit(intersection, scene);
            },
        }
    }

    /// Scatter off one intersection per its material: push the surface color
    /// where the material has one, mark lights terminal, and recurse into
    /// secondary rays for the scattering materials.
    fn handle_hit(&mut self, intersection: Intersection, scene: &Scene)
        requires
            old(self).wf(),
            scene.wf(),
            intersection.wf(),
            old(self).depth < MAX_DEPTH,
        ensures
            final(self).wf(),
            final(self).same_path_as(*old(self)),
            final(self).intersection_dist == old(self).intersection_dist,
            old(self).collisions@.is_prefix_of(final(self).collisions@),
            old(self).hit_light_source ==> final(self).hit_light_source,
            match intersection.texture {
                Texture::Light(c) => final(self).collisions@ == old(self).collisions@.push(c)
                    && final(self).hit_light_source,
                Texture::Diffusive(c) => final(self).collisions@.len() > old(self).collisions@.len() && final(self).collisions@[old(self).collisions@.len() as int]
                    == c,
                Texture::Glossy(c) => final(self).collisions@.len() > old(self).collisions@.len()
                    && final(self).collisions@[old(self).collisions@.len() as int] == c,
                Texture::Reflective => true,
            },
        decreases 5 * (MAX_DEPTH as int - old(self).depth) - 1,
    {
        let ghost pre = *old(self);
        let hit_origin = intersection.hit_point;
        let hit_normal = intersection.normal;
        match intersection.texture {
            Texture::Diffusive(color) => {
                self.collisions.push(color);
                let ghost mid = self.collisions@;
                self.scatter(hit_origin, hit_normal, scene, false);
                proof {
                    assert(self.collisions@[pre.collisions@.len() as int] == color) by {
                        assert(mid =~= self.collisions@.subrange(0, mid.len() as int));
                        assert(mid[pre.collisions@.len() as int] == color);
                    }
                }
            },
            Texture::Glossy(color) => {
                self.collisions.push(color);
                let ghost mid = self.collisions@;
                self.scatter(hit_origin, hit_normal, scene, true);
                proof {
                    assert(self.collisions@[pre.collisions@.len() as int] == color) by {
                        assert(mid =~= self.collisions@.subrange(0, mid.len() as int));
                        assert(mid[pre.collisions@.len() as int] == color);
                    }
                }
            },
            Texture::Reflective => {
                let dir = self.perfect_reflection(hit_normal);
                self.reflect(hit_origin, dir, scene);
            },
            Texture::Light(color) => {
                self.collisions.push(color);
                self.hit_light_source = true;
            },
        }
    }

    /// Spawn the fan-out of secondary scatter rays off a surface point:
    /// diffusive samples, or glossy blends of mirror and sample.
    fn scatter(&mut self, hit_origin: Point, hit_normal: Normal, scene: &Scene, glossy: bool)
        requires
            old(self).wf(),
            scene.wf(),
            hit_origin.in_box(),
            hit_normal.unitish(),
            old(self).depth < MAX_DEPTH,
        ensures
            final(self).wf(),
            final(self).same_path_as(*old(self)),
            final(self).intersection_dist == old(self).intersection_dist,
            old(self).collisions@.is_prefix_of(final(self).collisions@),
            old(self).hit_light_source ==> final(self).hit_light_source,
        decreases 5 * (MAX_DEPTH as int - old(self).depth) - 2,
    {
        let n = fan_out(self.depth);
        self.scatter_once(hit_origin, hit_normal, scene, glossy);
        if n >= 2 {
            self.scatter_once(hit_origin, hit_normal, scene, glossy);
        }
        if n >= 3 {
            self.scatter_once(hit_origin, hit_normal, scene, glossy);
        }
        if n >= 4 {
            self.scatter_once(hit_origin, hit_normal, scene, glossy);
        }
    }

    /// Spawn one secondary scatter ray off a surface point.
    fn scatter_once(&mut self, hit_origin: Point, hit_normal: Normal, scene: &Scene, glossy: bool)
        requires
            old(self).wf(),
            scene.wf(),
            hit_origin.in_box(),
            hit_normal.unitish(),
            old(self).depth < MAX_DEPTH,
        ensures
            final(self).wf(),
            final(self).same_path_as(*old(self)),
            final(self).intersection_dist == old(self).intersection_dist,
            old(self).collisions@.is_prefix_of(final(self).collisions@),
            old(self).hit_light_source ==> final(self).hit_light_source,
        decreases 5 * (MAX_DEPTH as int - old(self).depth) - 3,
    {
        let sample = self.diffusive_direction(hit_normal);
        let dir: Vec3 = if glossy {
            let mirror = self.perfect_reflection(hit_normal);
            let blended = glossy_blend(mirror, sample);
            if blended.near_zero() {
                mirror
            } else {
                blended
            }
        } else {
            if sample.near_zero() {
                hit_normal
            } else {
                sample
            }
        };
        self.reflect(hit_origin, dir, scene);
    }

    /// Trace one secondary ray and fold its collisions and its light flag
    /// into this ray.  The secondary's first bounce is deterministic in the
    /// arguments: its nearest hit along the normalized `direction` leaves
    /// the same mark here that `trace` would leave one level down.
    pub fn reflect(&mut self, origin: Point, direction: Direction, scene: &Scene)
        requires
            old(self).wf(),
            scene.wf(),
            origin.in_box(),
            abs_int(direction.x as int) <= 16 * COORD_LIMIT as int,
            abs_int(direction.y as int) <= 16 * COORD_LIMIT as int,
            abs_int(direction.z as int) <= 16 * COORD_LIMIT as int,
            old(self).depth < MAX_DEPTH,
        ensures
            final(self).wf(),
            final(self).same_path_as(*old(self)),
            final(self).intersection_dist == old(self).intersection_dist,
            old(self).collisions@.is_prefix_of(final(self).collisions@),
            old(self).hit_light_source ==> final(self).hit_light_source,
            (old(self).depth + 1 < MAX_DEPTH && (forall|j: int|
                0 <= j < scene.objects@.len() ==> !#[trigger] hit_below(
                    scene.objects@[j],
                    origin,
                    direction.spec_normalize(),
                    DIST_MAX as int,
                ))) ==> final(self).collisions@ == old(self).collisions@ && final(self).hit_light_source == old(self).hit_light_source,
            old(self).depth + 1 >= MAX_DEPTH ==> final(self).collisions@ == old(self).collisions@
                && final(self).hit_light_source == old(self).hit_light_source,
            forall|h: Hit|
                (old(self).depth + 1 < MAX_DEPTH && #[trigger] nearest_hit(
                    scene.objects@,
                    origin,
                    direction.spec_normalize(),
                    h,
                ) && h.distance < DIST_MAX as int) ==> match h.texture {
                    Texture::Light(c) => final(self).collisions@ == old(self).collisions@.push(c) && final(self).hit_light_source,
                    Texture::Diffusive(c) => final(self).collisions@.len() > old(self).collisions@.len() && final(self).collisions@[old(self).collisions@.len() as int] == c,
                    Texture::Glossy(c) => final(self).collisions@.len() > old(self).collisions@.len() && final(self).collisions@[old(self).collisions@.len() as int] == c,
                    Texture::Reflective => true,
                },
        decreases 5 * (MAX_DEPTH as int - old(self).depth) - 4,
    {
        let mut secondary = Ray::new(origin, direction, self.depth + 1);
        secondary.trace(scene);
        let ghost pre = *old(self);
        let ghost sec = secondary.collisions@;
        self.collisions.append(&mut secondary.collisions);
        proof {
            assert(pre.collisions@.is_prefix_of(self.collisions@)) by {
                assert(self.collisions@.subrange(0, pre.collisions@.len() as int)
                    =~= pre.collisions@);
            }
            assert forall|i: int| 0 <= i < self.collisions@.len() implies #[trigger] self.collisions@[i].color_wf() by {
                if i >= pre.collisions@.len() {
                    assert(self.collisions@[i] == sec[i - pre.collisions@.len()]);
                }
            }
            if sec.len() == 0 {
                assert(self.collisions@ =~= pre.collisions@);
            }
            assert forall|h: Hit|
                pre.depth + 1 < MAX_DEPTH && #[trigger] nearest_hit(
                    scene.objects@,
                    origin,
                    direction.spec_normalize(),
                    h,
                ) && h.distance < DIST_MAX as int implies match h.texture {
                Texture::Light(c) => self.collisions@ == pre.collisions@.push(c)
                    && secondary.hit_light_source,
                Texture::Diffusive(c) => self.collisions@.len() > pre.collisions@.len()
                    && self.collisions@[pre.collisions@.len() as int] == c,
                Texture::Glossy(c) => self.collisions@.len() > pre.collisions@.len()
                    && self.collisions@[pre.collisions@.len() as int] == c,
                Texture::Reflective => true,
            } by {
                match h.texture {
                    Texture::Light(c) => {
                        assert(sec == Seq::<Color>::empty().push(c));
                        assert(self.collisions@ =~= pre.collisions@.push(c));
                    },
                    Texture::Diffusive(c) => {
                        assert(sec.len() > 0 && sec[0] == c);
                        assert(self.collisions@[pre.collisions@.len() as int] == sec[0]);
                    },
                    Texture::Glossy(c) => {
                        assert(sec.len() > 0 && sec[0] == c);
                        assert(self.collisions@[pre.collisions@.len() as int] == sec[0]);
                    },
                    Texture::Reflective => {},
                }
            }
        }
        if secondary.hit_light_source {
            self.hit_light_source = true;
        }
    }

    /// The mirror image of the ray's direction about a surface normal.
    pub fn perfect_reflection(&self, normal: Normal) -> (r: Direction)
        requires
            self.direction.unitish(),
            normal.unitish(),
        ensures
            r == spec_perfect_reflection(self.direction, normal),
            abs_int(r.x as int) <= 7 * SCALE as int,
            abs_int(r.y as int) <= 7 * SCALE as int,
            abs_int(r.z as int) <= 7 * SCALE as int,
    {
        let k = self.direction.dot_fx(normal);
        proof {
            lemma_unit_dot_bound(self.direction, normal);
            assert(abs_int(fxmul(normal.x as int, (2 * k) as int)) <= 6 * SCALE as int && abs_int(
                fxmul(normal.y as int, (2 * k) as int),
            ) <= 6 * SCALE as int && abs_int(fxmul(normal.z as int, (2 * k) as int)) <= 6
                * SCALE as int) by (nonlinear_arith)
                requires
                    normal.unitish(),
                    abs_int(k as int) <= 3 * SCALE as int,
                    SCALE == 1_000_000i64,
            ;
        }
        let scaled = normal.scale_fx(2 * k);
        self.direction.minus(scaled)
    }

    /// A random scatter direction over the hemisphere around `normal`:
    /// cosine-biased, built from an orthonormal basis around the normal and
    /// two random parameters.
    pub fn diffusive_direction(&self, normal: Normal) -> (r: Direction)
        requires
            normal.unitish(),
        ensures
            exists|t: int, r2: int|
                0 <= t < SCALE && 0 <= r2 < SCALE && r == #[trigger] spec_hemisphere_direction(
                    normal,
                    t,
                    r2,
                ),
            abs_int(r.x as int) <= 4 * SCALE as int,
            abs_int(r.y as int) <= 4 * SCALE as int,
            abs_int(r.z as int) <= 4 * SCALE as int,
    {
        let t = crate::rng::rand_below(SCALE as u64) as i64;
        let r2 = crate::rng::rand_below(SCALE as u64) as i64;
        let r = hemisphere_direction(normal, t, r2);
        proof {
            assert(0 <= (t as int) && (t as int) < SCALE as int);
            assert(0 <= (r2 as int) && (r2 as int) < SCALE as int);
            assert(r == spec_hemisphere_direction(normal, t as int, r2 as int));
        }
        r
    }

    /// The weighted average the path resolves to: a single collision is
    /// returned unchanged; otherwise later collisions decay as `1 / (i + 1)`,
    /// the sum is averaged, and a light or ambient boost is applied.
    pub fn average_color(&self, scene: &Scene) -> (r: Color)
        requires
            self.wf(),
            scene.wf(),
            self.collisions@.len() >= 1,
        ensures
            r == spec_average_color(
                self.collisions@,
                self.hit_light_source,
                scene.brightness as int,
            ),
            self.collisions@.len() == 1 ==> r == self.collisions@[0],
            pixel_wf(r),
    {
        let len = self.collisions.len();
        if len == 1 {
            let c = self.collisions[0];
            proof {
                assert(c.color_wf());
            }
            return c;
        }
        let mut tx: i128 = 0;
        let mut ty: i128 = 0;
        let mut tz: i128 = 0;
        let mut i: usize = 0;
        while i < len
            invariant
                self.wf(),
                len == self.collisions@.len(),
                i <= len,
                0 <= tx <= i * CHANNEL_MAX,
                0 <= ty <= i * CHANNEL_MAX,
                0 <= tz <= i * CHANNEL_MAX,
                len <= usize::MAX,
                decay_total(self.collisions@, 0).0 == tx + decay_total(
                    self.collisions@,
                    i as int,
                ).0,
                decay_total(self.collisions@, 0).1 == ty + decay_total(
                    self.collisions@,
                    i as int,
                ).1,
                decay_total(self.collisions@, 0).2 == tz + decay_total(
                    self.collisions@,
                    i as int,
                ).2,
            decreases len - i,
        {
            let c = self.collisions[i];
            proof {
                assert(c.color_wf());
                lemma_decay_step(self.collisions@, i as int);
                lemma_tdiv_nonneg_le(c.x as int, i as int + 1);
                lemma_tdiv_nonneg_le(c.y as int, i as int + 1);
                lemma_tdiv_nonneg_le(c.z as int, i as int + 1);
            }
            let w = (i as i128) + 1;
            tx = tx + crate::fx::tdiv_i128(c.x as i128, w);
            ty = ty + crate::fx::tdiv_i128(c.y as i128, w);
            tz = tz + crate::fx::tdiv_i128(c.z as i128, w);
            i = i + 1;
        }
        let boost = if self.hit_light_source {
            LIGHT_BOOST
        } else {
            let b = scene.brightness;
            (SCALE + b) / 2
        };
        proof {
            assert((SCALE + scene.brightness) / 2 == spec_ambient_boost(scene.brightness as int))
                by {
                assert(0 < SCALE + scene.brightness);
            }
            assert(0 < boost <= LIGHT_BOOST);
        }
        let ax = averaged_channel(tx, len, boost);
        let ay = averaged_channel(ty, len, boost);
        let az = averaged_channel(tz, len, boost);
        Vec3 { x: ax, y: ay, z: az }
    }
}

/// If no object offers a hit below `bound`, no nearest hit below `bound`
/// exists either.
proof fn lemma_no_nearest_below(objects: Seq<crate::objects::Object>, origin: Point, dir: Vec3, bound: int)
    requires
        forall|j: int|
            0 <= j < objects.len() ==> !#[trigger] hit_below(objects[j], origin, dir, bound),
    ensures
        forall|h: Hit|
            !(#[trigger] nearest_hit(objects, origin, dir, h) && h.distance < bound),
{
    assert forall|h: Hit| !(#[trigger] nearest_hit(objects, origin, dir, h) && h.distance < bound)
        by {
        if nearest_hit(objects, origin, dir, h) && h.distance < bound {
            let j = choose|j: int|
                0 <= j < objects.len() && #[trigger] objects[j].spec_hit(origin, dir) == Some(h);
            assert(hit_below(objects[j], origin, dir, bound));
        }
    }
}

/// A returned nearest intersection carries the distance and texture of every
/// unique nearest candidate below the prior bound.
proof fn lemma_nearest_matches(
    objects: Seq<crate::objects::Object>,
    origin: Point,
    dir: Vec3,
    i: Intersection,
    bound: int,
)
    requires
        i.distance < bound,
        exists|j: int| 0 <= j < objects.len() && #[trigger] hit_is(objects[j], origin, dir, i),
        forall|j: int|
            0 <= j < objects.len() ==> !#[trigger] hit_below(
                objects[j],
                origin,
                dir,
                i.distance as int,
            ),
    ensures
        forall|h: Hit|
            (#[trigger] nearest_hit(objects, origin, dir, h) && h.distance < bound) ==> h.distance
                == i.distance && h.texture == i.texture,
{
    assert forall|h: Hit|
        #[trigger] nearest_hit(objects, origin, dir, h) && h.distance < bound implies h.distance
        == i.distance && h.texture == i.texture by {
        let ji = choose|j: int|
            0 <= j < objects.len() && #[trigger] hit_is(objects[j], origin, dir, i);
        let jh = choose|j: int|
            0 <= j < objects.len() && #[trigger] objects[j].spec_hit(origin, dir) == Some(h);
        assert(!hit_below(objects[jh], origin, dir, i.distance as int));
        assert(h.distance >= i.distance);
        let hi = objects[ji].spec_hit(origin, dir)->Some_0;
        assert(hi.distance > h.distance || hi == h);
    }
}

/// The glossy scatter direction before its degeneracy check: the diffuse
/// sample scaled by its alignment with the mirror direction.
fn glossy_blend(mirror: Direction, sample: Direction) -> (r: Vec3)
    requires
        abs_int(mirror.x as int) <= 7 * SCALE as int,
        abs_int(mirror.y as int) <= 7 * SCALE as int,
        abs_int(mirror.z as int) <= 7 * SCALE as int,
        abs_int(sample.x as int) <= 4 * SCALE as int,
        abs_int(sample.y as int) <= 4 * SCALE as int,
        abs_int(sample.z as int) <= 4 * SCALE as int,
    ensures
        r == spec_scale_fx(sample, tdiv(mirror.dot2(sample), SCALE as int)),
        abs_int(r.x as int) <= 400 * SCALE as int,
        abs_int(r.y as int) <= 400 * SCALE as int,
        abs_int(r.z as int) <= 400 * SCALE as int,
{
    let k = mirror.dot_fx(sample);
    proof {
        assert(abs_int(mirror.dot2(sample)) <= (84 * SCALE as int) * (SCALE as int))
            by (nonlinear_arith)
            requires
                mirror.dot2(sample) == (mirror.x as int) * (sample.x as int) + (mirror.y as int)
                    * (sample.y as int) + (mirror.z as int) * (sample.z as int),
                abs_int(mirror.x as int) <= 7 * SCALE as int,
                abs_int(mirror.y as int) <= 7 * SCALE as int,
                abs_int(mirror.z as int) <= 7 * SCALE as int,
                abs_int(sample.x as int) <= 4 * SCALE as int,
                abs_int(sample.y as int) <= 4 * SCALE as int,
                abs_int(sample.z as int) <= 4 * SCALE as int,
                SCALE == 1_000_000i64,
        ;
        crate::fx::lemma_tdiv_bound(mirror.dot2(sample), SCALE as int, 84 * SCALE as int);
        assert(abs_int(fxmul(sample.x as int, k as int)) <= 400 * SCALE as int && abs_int(
            fxmul(sample.y as int, k as int),
        ) <= 400 * SCALE as int && abs_int(fxmul(sample.z as int, k as int)) <= 400
            * SCALE as int) by (nonlinear_arith)
            requires
                abs_int(k as int) <= 84 * SCALE as int,
                abs_int(sample.x as int) <= 4 * SCALE as int,
                abs_int(sample.y as int) <= 4 * SCALE as int,
                abs_int(sample.z as int) <= 4 * SCALE as int,
                SCALE == 1_000_000i64,
        ;
    }
    sample.scale_fx(k)
}

/// What `perfect_reflection` computes: `d - 2 (d . n) n` in fixed point.
pub open spec fn spec_perfect_reflection(d: Vec3, n: Vec3) -> Vec3 {
    spec_minus(d, spec_scale_fx(n, 2 * tdiv(d.dot2(n), SCALE as int)))
}

/// What `hemisphere_direction` computes: the local hemisphere sample
/// `(cos(2 pi t) sin_theta, sin(2 pi t) sin_theta, sqrt(r2))` carried into
/// world space by the orthonormal-ish basis derived from the normal.
pub open spec fn spec_hemisphere_direction(normal: Normal, t: int, r2: int) -> Vec3 {
    let incident = normal.spec_normalize();
    let tangent_a = if incident.x > 900_000 || incident.x < -900_000 {
        Vec3 { x: 0, y: (-SCALE) as i64, z: 0 }
    } else {
        Vec3 { x: (-SCALE) as i64, y: 0, z: 0 }
    };
    let tangent_v = crate::vec3::spec_cross(incident, tangent_a).spec_normalize();
    let tangent_u = crate::vec3::spec_cross(incident, tangent_v);
    let st2 = SCALE as int - fxmul(r2, r2);
    let sin_theta = crate::fx::sqrt(st2 * (SCALE as int));
    let local_x = fxmul(crate::fx::spec_cos_turn(t), sin_theta);
    let local_y = fxmul(crate::fx::spec_sin_turn(t), sin_theta);
    let local_z = crate::fx::sqrt(r2 * (SCALE as int));
    crate::vec3::spec_plus(
        crate::vec3::spec_plus(
            spec_scale_fx(tangent_u, local_x),
            spec_scale_fx(tangent_v, local_y),
        ),
        spec_scale_fx(incident, local_z),
    )
}

/// A cosine-biased direction on the hemisphere around `normal`, from a turn
/// fraction `t` and a height parameter `r2`, both in `[0, SCALE)`.
pub fn hemisphere_direction(normal: Normal, t: i64, r2: i64) -> (r: Direction)
    requires
        normal.unitish(),
        0 <= t < SCALE,
        0 <= r2 < SCALE,
    ensures
        r == spec_hemisphere_direction(normal, t as int, r2 as int),
        abs_int(r.x as int) <= 4 * SCALE as int,
        abs_int(r.y as int) <= 4 * SCALE as int,
        abs_int(r.z as int) <= 4 * SCALE as int,
{
    let incident = normal.normalize();
    let tangent_a = if incident.x > 900_000 || incident.x < -900_000 {
        Vec3::down()
    } else {
        Vec3 { x: -SCALE, y: 0, z: 0 }
    };
    let crossed = incident.cross(tangent_a);
    proof {
        lemma_unit_cross_bound(incident, tangent_a);
    }
    let tangent_v = crossed.normalize();
    let tangent_u = incident.cross(tangent_v);
    proof {
        lemma_unit_cross_bound(incident, tangent_v);
    }
    let st2 = SCALE - fxmul_small(r2, r2);
    let sin_theta = sqrt_fx(st2);
    let local_x = fxmul_small(cos_turn(t), sin_theta);
    let local_y = fxmul_small(sin_turn(t), sin_theta);
    let local_z = sqrt_fx(r2);
    proof {
        lemma_scaled_unit_bounds(tangent_u, local_x, 2);
        lemma_scaled_unit_bounds(tangent_v, local_y, 1);
        lemma_scaled_unit_bounds(incident, local_z, 1);
    }
    let a = tangent_u.scale_fx(local_x);
    let b = tangent_v.scale_fx(local_y);
    let c = incident.scale_fx(local_z);
    proof {
        lemma_scaled_unit_result(tangent_u, local_x, 2);
        lemma_scaled_unit_result(tangent_v, local_y, 1);
        lemma_scaled_unit_result(incident, local_z, 1);
    }
    a.plus(b).plus(c)
}

/// Scaling a vector with components at most `m * SCALE` by a fixed-point
/// factor at most one keeps each component within `m * SCALE`.
proof fn lemma_scaled_unit_bounds(v: Vec3, k: i64, m: int)
    requires
        1 <= m <= 2,
        abs_int(v.x as int) <= m * SCALE as int,
        abs_int(v.y as int) <= m * SCALE as int,
        abs_int(v.z as int) <= m * SCALE as int,
        abs_int(k as int) <= SCALE as int,
    ensures
        abs_int(fxmul(v.x as int, k as int)) <= i64::MAX as int,
        abs_int(fxmul(v.y as int, k as int)) <= i64::MAX as int,
        abs_int(fxmul(v.z as int, k as int)) <= i64::MAX as int,
{
    lemma_scaled_unit_result(v, k, m);
}

/// The precise component bound behind `lemma_scaled_unit_bounds`.
proof fn lemma_scaled_unit_result(v: Vec3, k: i64, m: int)
    requires
        1 <= m <= 2,
        abs_int(v.x as int) <= m * SCALE as int,
        abs_int(v.y as int) <= m * SCALE as int,
        abs_int(v.z as int) <= m * SCALE as int,
        abs_int(k as int) <= SCALE as int,
    ensures
        abs_int(fxmul(v.x as int, k as int)) <= m * SCALE as int,
        abs_int(fxmul(v.y as int, k as int)) <= m * SCALE as int,
        abs_int(fxmul(v.z as int, k as int)) <= m * SCALE as int,
{
    assert(abs_int(fxmul(v.x as int, k as int)) <= m * SCALE as int && abs_int(
        fxmul(v.y as int, k as int),
    ) <= m * SCALE as int && abs_int(fxmul(v.z as int, k as int)) <= m * SCALE as int)
        by (nonlinear_arith)
        requires
            1 <= m <= 2,
            abs_int(v.x as int) <= m * SCALE as int,
            abs_int(v.y as int) <= m * SCALE as int,
            abs_int(v.z as int) <= m * SCALE as int,
            abs_int(k as int) <= SCALE as int,
            SCALE == 1_000_000i64,
    ;
}

/// The product of two small fixed-point scalars, both at most one in
/// magnitude.
fn fxmul_small(a: i64, b: i64) -> (r: i64)
    requires
        abs_int(a as int) <= SCALE as int,
        abs_int(b as int) <= SCALE as int,
    ensures
        r == fxmul(a as int, b as int),
        abs_int(r as int) <= SCALE as int,
{
    let w = crate::vec3::wide_mul(a, b);
    let q = crate::fx::tdiv_i128(w, SCALE as i128);
    proof {
        assert(abs_int(q as int) <= SCALE as int) by (nonlinear_arith)
            requires
                q == tdiv(w as int, SCALE as int),
                w == (a as int) * (b as int),
                abs_int(a as int) <= SCALE as int,
                abs_int(b as int) <= SCALE as int,
                SCALE == 1_000_000i64,
        ;
    }
    q as i64
}

/// The fixed-point square root of a fixed-point value in `[0, SCALE]`.
fn sqrt_fx(v: i64) -> (r: i64)
    requires
        0 <= v <= SCALE,
    ensures
        r == crate::fx::sqrt((v as int) * (SCALE as int)),
        0 <= r <= SCALE,
{
    let w = (v as u128) * (SCALE as u128);
    let r = crate::fx::isqrt_u128(w);
    proof {
        crate::fx::lemma_sqrt(w as int);
        assert(r <= SCALE) by (nonlinear_arith)
            requires
                (r as int) * (r as int) <= w as int,
                w == (v as int) * (SCALE as int),
                0 <= v <= SCALE,
                r >= 0,
                SCALE == 1_000_000i64,
        ;
    }
    r as i64
}

/// One step of the decay sum, unfolded.
proof fn lemma_decay_step(cs: Seq<Color>, i: int)
    requires
        0 <= i < cs.len(),
    ensures
        decay_total(cs, i).0 == tdiv(cs[i].x as int, i + 1) + decay_total(cs, i + 1).0,
        decay_total(cs, i).1 == tdiv(cs[i].y as int, i + 1) + decay_total(cs, i + 1).1,
        decay_total(cs, i).2 == tdiv(cs[i].z as int, i + 1) + decay_total(cs, i + 1).2,
{
}

/// Truncating division of a channel by a positive weight keeps it within
/// `[0, CHANNEL_MAX]`.
proof fn lemma_tdiv_nonneg_le(v: int, w: int)
    requires
        0 <= v <= CHANNEL_MAX,
        1 <= w,
    ensures
        0 <= tdiv(v, w) <= CHANNEL_MAX,
{
    assert(0 <= tdiv(v, w) <= v) by (nonlinear_arith)
        requires
            0 <= v,
            1 <= w,
    ;
}

/// One channel of the boosted average: the decayed total divided by the
/// collision count, scaled by the boost.
fn averaged_channel(total: i128, n: usize, boost: i64) -> (r: i64)
    requires
        2 <= n,
        0 <= total <= n * CHANNEL_MAX as int,
        0 < boost <= LIGHT_BOOST,
    ensures
        r == fxmul(tdiv(total as int, n as int), boost as int),
        0 <= r <= 2 * CHANNEL_MAX,
{
    let avg = crate::fx::tdiv_i128(total, n as i128);
    proof {
        assert(0 <= avg <= CHANNEL_MAX as int) by (nonlinear_arith)
            requires
                avg == tdiv(total as int, n as int),
                0 <= total <= n * CHANNEL_MAX as int,
                2 <= n,
                CHANNEL_MAX == 255_000_000i64,
        ;
    }
    let w = crate::vec3::wide_mul(avg as i64, boost);
    let q = crate::fx::tdiv_i128(w, SCALE as i128);
    proof {
        assert(0 <= q <= 2 * CHANNEL_MAX as int && q == fxmul(avg as int, boost as int))
            by (nonlinear_arith)
            requires
                q == tdiv(w as int, SCALE as int),
                w == (avg as int) * (boost as int),
                0 <= avg <= CHANNEL_MAX as int,
                0 < boost <= LIGHT_BOOST,
                SCALE == 1_000_000i64,
                CHANNEL_MAX == 255_000_000i64,
                LIGHT_BOOST == 1_500_000i64,
        ;
    }
    q as i64
}

} // verus!
