use rt::fx::{SCALE, DIST_MAX};
use rt::objects::{Cube, Cylinder, FlatPlane, Sphere};
use rt::ray::Ray;
use rt::textures::Texture;
use rt::vec3::Vec3;

fn fresh_ray(origin: Vec3, direction: Vec3) -> Ray {
    Ray::new(origin, direction, 0)
}

#[test]
fn sphere_on_axis_distance_is_d_minus_r() {
    // a sphere at distance d = 10 with radius r = 2 on the line of sight
    let sphere = Sphere::new(
        Vec3::new(10 * SCALE, 0, 0),
        2 * SCALE,
        Texture::Diffusive(Vec3::red()),
    );
    let ray = fresh_ray(Vec3::zero(), Vec3::new(SCALE, 0, 0));
    let hit = sphere.intersection(&ray).expect("sphere ahead must be hit");
    let expected = 8 * SCALE;
    assert!((hit.distance - expected).abs() <= 1, "within 1e-6");
    assert_eq!(hit.hit_point, Vec3::new(8 * SCALE, 0, 0));
    assert_eq!(hit.normal, Vec3::new(-SCALE, 0, 0));
}

#[test]
fn sphere_on_axis_distance_without_round_values() {
    // distance and radius not multiples of a thousandth: still within 1e-6
    let d = 10 * SCALE + 7;
    let r = 2 * SCALE + 3;
    let sphere = Sphere::new(Vec3::new(d, 0, 0), r, Texture::Diffusive(Vec3::red()));
    let ray = fresh_ray(Vec3::zero(), Vec3::new(SCALE, 0, 0));
    let hit = sphere.intersection(&ray).expect("sphere ahead must be hit");
    assert!((hit.distance - (d - r)).abs() <= 1, "within one fixed-point unit");
}

#[test]
fn sphere_tangent_ray_hits_at_the_boundary() {
    // a grazing ray: discriminant exactly zero, double root at distance 5
    let sphere = Sphere::new(
        Vec3::new(0, 0, 5 * SCALE),
        SCALE,
        Texture::Diffusive(Vec3::red()),
    );
    let ray = fresh_ray(Vec3::new(SCALE, 0, 0), Vec3::new(0, 0, SCALE));
    let hit = sphere.intersection(&ray).expect("the boundary counts as a hit");
    assert_eq!(hit.distance, 5 * SCALE);
    assert_eq!(hit.hit_point, Vec3::new(SCALE, 0, 5 * SCALE));
    assert_eq!(hit.normal, Vec3::new(SCALE, 0, 0));
}

#[test]
fn sphere_behind_ray_is_missed() {
    let sphere = Sphere::new(
        Vec3::new(-10 * SCALE, 0, 0),
        2 * SCALE,
        Texture::Diffusive(Vec3::red()),
    );
    let ray = fresh_ray(Vec3::zero(), Vec3::new(SCALE, 0, 0));
    assert!(sphere.intersection(&ray).is_none());
}

#[test]
fn sphere_farther_than_current_best_is_pruned() {
    let sphere = Sphere::new(
        Vec3::new(10 * SCALE, 0, 0),
        2 * SCALE,
        Texture::Diffusive(Vec3::red()),
    );
    let mut ray = fresh_ray(Vec3::zero(), Vec3::new(SCALE, 0, 0));
    ray.intersection_dist = 5 * SCALE; // nearer hit already known
    assert!(sphere.intersection(&ray).is_none());
}

#[test]
fn flat_plane_bounded_disk() {
    let plane = FlatPlane::new(Vec3::zero(), 3 * SCALE, Texture::Diffusive(Vec3::grey()));
    // straight down from above the center: hit
    let ray = fresh_ray(Vec3::new(0, 5 * SCALE, 0), Vec3::new(0, -SCALE, 0));
    let hit = plane.intersection(&ray).expect("disk below must be hit");
    assert_eq!(hit.distance, 5 * SCALE);
    assert_eq!(hit.normal, Vec3::new(0, SCALE, 0));
    // outside the radius: miss
    let ray = fresh_ray(Vec3::new(4 * SCALE, 5 * SCALE, 0), Vec3::new(0, -SCALE, 0));
    assert!(plane.intersection(&ray).is_none());
    // parallel to the plane: miss
    let ray = fresh_ray(Vec3::new(0, 5 * SCALE, 0), Vec3::new(SCALE, 0, 0));
    assert!(plane.intersection(&ray).is_none());
}

#[test]
fn cube_face_hit() {
    let cube = Cube::new(Vec3::new(10 * SCALE, 0, 0), 2 * SCALE, Texture::Reflective);
    let ray = fresh_ray(Vec3::zero(), Vec3::new(SCALE, 0, 0));
    let hit = cube.intersection(&ray).expect("cube ahead must be hit");
    assert_eq!(hit.distance, 9 * SCALE);
    assert_eq!(hit.normal, Vec3::new(-SCALE, 0, 0));
}

#[test]
fn cube_normal_tie_prefers_x_then_y_then_z() {
    let cube = Cube::new(Vec3::zero(), 2 * SCALE, Texture::Reflective);
    // interior of the +y face
    assert_eq!(
        cube.normal(Vec3::new(200_000, SCALE, 0)),
        Vec3::new(0, SCALE, 0)
    );
    // exactly on the edge between +x and +y: x wins
    assert_eq!(
        cube.normal(Vec3::new(SCALE, SCALE, 0)),
        Vec3::new(SCALE, 0, 0)
    );
    // exactly on the corner of +x, +y, +z: x wins
    assert_eq!(
        cube.normal(Vec3::new(SCALE, SCALE, SCALE)),
        Vec3::new(SCALE, 0, 0)
    );
    // edge between +y and +z: y wins over z
    assert_eq!(
        cube.normal(Vec3::new(0, SCALE, SCALE)),
        Vec3::new(0, SCALE, 0)
    );
    // negative side picks the negative normal
    assert_eq!(
        cube.normal(Vec3::new(-SCALE, 200_000, 0)),
        Vec3::new(-SCALE, 0, 0)
    );
}

#[test]
fn cylinder_top_cap_and_lateral() {
    let cyl = Cylinder::new(Vec3::zero(), SCALE, 2 * SCALE, Texture::Diffusive(Vec3::teal()));
    // straight down onto the top cap
    let ray = fresh_ray(Vec3::new(200_000, 5 * SCALE, 0), Vec3::new(0, -SCALE, 0));
    let hit = cyl.intersection(&ray).expect("top cap must be hit");
    assert_eq!(hit.distance, 3 * SCALE);
    assert_eq!(hit.normal, Vec3::new(0, SCALE, 0));
    // sideways into the lateral surface at half height
    let ray = fresh_ray(Vec3::new(10 * SCALE, SCALE, 0), Vec3::new(-SCALE, 0, 0));
    let hit = cyl.intersection(&ray).expect("lateral surface must be hit");
    assert_eq!(hit.distance, 9 * SCALE);
    // above the body, pointing sideways: miss
    let ray = fresh_ray(Vec3::new(10 * SCALE, 3 * SCALE, 0), Vec3::new(-SCALE, 0, 0));
    assert!(cyl.intersection(&ray).is_none());
}

#[test]
fn intersection_distance_only_tightens() {
    // a trace may only shrink intersection_dist (never re-widen)
    let sphere = Sphere::new(
        Vec3::new(10 * SCALE, 0, 0),
        2 * SCALE,
        Texture::Light(Vec3::white()),
    );
    let objects = vec![rt::objects::Object::Sphere(sphere)];
    let scene = rt::scene::Scene::new(objects, SCALE);
    let mut ray = fresh_ray(Vec3::zero(), Vec3::new(SCALE, 0, 0));
    assert_eq!(ray.intersection_dist, DIST_MAX);
    ray.trace(&scene);
    assert_eq!(ray.intersection_dist, 8 * SCALE);
    assert!(ray.intersection_dist <= DIST_MAX);
}
