use rt::fx::{DIST_MAX, SCALE};
use rt::objects::{Object, Sphere};
use rt::ray::{Ray, MAX_DEPTH};
use rt::scene::Scene;
use rt::textures::Texture;
use rt::vec3::Vec3;

#[test]
fn ray_that_hits_nothing_stays_empty() {
    let scene = Scene::new(Vec::new(), 500_000);
    let mut ray = Ray::new(Vec3::zero(), Vec3::new(SCALE, 0, 0), 0);
    ray.trace(&scene);
    assert!(ray.collisions.is_empty());
    assert!(!ray.hit_light_source);
    assert_eq!(ray.intersection_dist, DIST_MAX);
}

#[test]
fn nearest_light_terminates_with_one_collision() {
    let color = Vec3::new(200 * SCALE, 150 * SCALE, 50 * SCALE);
    let light = Sphere::new(Vec3::new(10 * SCALE, 0, 0), 2 * SCALE, Texture::Light(color));
    let scene = Scene::new(vec![Object::Sphere(light)], SCALE);
    let mut ray = Ray::new(Vec3::zero(), Vec3::new(SCALE, 0, 0), 0);
    ray.trace(&scene);
    assert_eq!(ray.collisions, vec![color]);
    assert!(ray.hit_light_source);
}

#[test]
fn nearest_light_ignores_remaining_depth_budget() {
    let color = Vec3::new(200 * SCALE, 150 * SCALE, 50 * SCALE);
    let light = Sphere::new(Vec3::new(10 * SCALE, 0, 0), 2 * SCALE, Texture::Light(color));
    let scene = Scene::new(vec![Object::Sphere(light)], SCALE);
    // one step of depth budget left: the light is still recorded
    let mut ray = Ray::new(Vec3::zero(), Vec3::new(SCALE, 0, 0), MAX_DEPTH - 1);
    ray.trace(&scene);
    assert_eq!(ray.collisions, vec![color]);
    assert!(ray.hit_light_source);
}

#[test]
fn past_max_depth_nothing_happens() {
    let color = Vec3::white();
    let light = Sphere::new(Vec3::new(10 * SCALE, 0, 0), 2 * SCALE, Texture::Light(color));
    let scene = Scene::new(vec![Object::Sphere(light)], SCALE);
    let mut ray = Ray::new(Vec3::zero(), Vec3::new(SCALE, 0, 0), MAX_DEPTH);
    ray.trace(&scene);
    assert!(ray.collisions.is_empty());
    assert!(!ray.hit_light_source);
}

#[test]
fn average_color_single_collision_is_identity() {
    let color = Vec3::new(123 * SCALE, 45 * SCALE, 6 * SCALE);
    let light = Sphere::new(Vec3::new(10 * SCALE, 0, 0), 2 * SCALE, Texture::Light(color));
    let scene = Scene::new(vec![Object::Sphere(light)], 300_000);
    let mut ray = Ray::new(Vec3::zero(), Vec3::new(SCALE, 0, 0), 0);
    ray.trace(&scene);
    assert_eq!(ray.collisions.len(), 1);
    assert_eq!(ray.average_color(&scene), color);
}

#[test]
fn average_color_decay_weighting_exact() {
    let scene = Scene::new(Vec::new(), 500_000);
    let ray = Ray {
        origin: Vec3::zero(),
        direction: Vec3::new(SCALE, 0, 0),
        collisions: vec![
            Vec3::new(255 * SCALE, 0, 100 * SCALE),
            Vec3::new(100 * SCALE, 200 * SCALE, 50 * SCALE),
        ],
        hit_light_source: false,
        intersection_dist: DIST_MAX,
        depth: 0,
    };
    // total = c0 + c1/2, averaged over 2, then the ambient boost (1 + b)/2
    let averaged = ray.average_color(&scene);
    assert_eq!(averaged, Vec3::new(114_375_000, 37_500_000, 46_875_000));
}

#[test]
fn diffusive_surface_scatters_and_keeps_own_color_first() {
    let color = Vec3::new(10 * SCALE, 20 * SCALE, 30 * SCALE);
    let sphere = Sphere::new(Vec3::new(10 * SCALE, 0, 0), 2 * SCALE, Texture::Diffusive(color));
    let scene = Scene::new(vec![Object::Sphere(sphere)], SCALE);
    let mut ray = Ray::new(Vec3::zero(), Vec3::new(SCALE, 0, 0), 0);
    ray.trace(&scene);
    assert!(!ray.collisions.is_empty());
    assert_eq!(ray.collisions[0], color);
    assert_eq!(ray.intersection_dist, 8 * SCALE);
}

#[test]
fn reflective_surface_reflects_into_the_light() {
    // mirror at x=10 sends the ray straight back through a light behind it
    let mirror = Sphere::new(Vec3::new(10 * SCALE, 0, 0), 2 * SCALE, Texture::Reflective);
    let light = Sphere::new(Vec3::new(-10 * SCALE, 0, 0), SCALE, Texture::Light(Vec3::gold()));
    let scene = Scene::new(
        vec![Object::Sphere(mirror), Object::Sphere(light)],
        SCALE,
    );
    let mut ray = Ray::new(Vec3::zero(), Vec3::new(SCALE, 0, 0), 0);
    ray.trace(&scene);
    assert!(ray.hit_light_source);
    assert_eq!(ray.collisions, vec![Vec3::gold()]);
}

#[test]
fn random_color_is_well_formed() {
    // channels are drawn from the half-open range: strictly below the maximum
    for _ in 0..32 {
        let c = Vec3::random();
        assert!(0 <= c.x && c.x < 255 * SCALE);
        assert!(0 <= c.y && c.y < 255 * SCALE);
        assert!(0 <= c.z && c.z < 255 * SCALE);
    }
}
