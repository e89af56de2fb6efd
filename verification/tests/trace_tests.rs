use rt::fx::SCALE;
use rt::objects::{Object, Sphere};
use rt::ray::{hemisphere_direction, Ray};
use rt::scene::Scene;
use rt::textures::Texture;
use rt::vec3::Vec3;

#[test]
fn hemisphere_sample_is_deterministic_in_its_parameters() {
    let normal = Vec3::new(0, SCALE, 0);
    let a = hemisphere_direction(normal, 123_456, 654_321);
    let b = hemisphere_direction(normal, 123_456, 654_321);
    assert_eq!(a, b);
    // the sample leans along the normal: its vertical part is non-negative
    assert!(a.y >= 0);
    // a different turn fraction moves the sample
    let c = hemisphere_direction(normal, 400_000, 654_321);
    assert!(a != c);
}

#[test]
fn glossy_surface_scatters_and_keeps_own_color_first() {
    let color = Vec3::new(40 * SCALE, 50 * SCALE, 60 * SCALE);
    let sphere = Sphere::new(Vec3::new(10 * SCALE, 0, 0), 2 * SCALE, Texture::Glossy(color));
    let scene = Scene::new(vec![Object::Sphere(sphere)], SCALE);
    let mut ray = Ray::new(Vec3::zero(), Vec3::new(SCALE, 0, 0), 0);
    ray.trace(&scene);
    assert!(!ray.collisions.is_empty());
    assert_eq!(ray.collisions[0], color);
}

#[test]
fn perfect_reflection_mirrors_about_the_normal() {
    let ray = Ray::new(Vec3::zero(), Vec3::new(SCALE, -SCALE, 0), 0);
    let reflected = ray.perfect_reflection(Vec3::new(0, SCALE, 0));
    // the horizontal part is kept, the vertical part flips
    assert_eq!(reflected.x, ray.direction.x);
    assert_eq!(reflected.y, -ray.direction.y);
    assert_eq!(reflected.z, 0);
}

#[test]
fn object_accessors_dispatch_by_shape() {
    let color = Vec3::gold();
    let sphere = Sphere::new(Vec3::new(5 * SCALE, 0, 0), SCALE, Texture::Light(color));
    let obj = Object::Sphere(sphere);
    assert_eq!(obj.center(), Vec3::new(5 * SCALE, 0, 0));
    assert!(obj.is_light());
    assert!(matches!(obj.texture(), Texture::Light(c) if c == color));
}

#[test]
fn correct_gamma_rescales_channels() {
    let c = Vec3::new(128 * SCALE, 0, 255 * SCALE);
    let g = c.correct_gamma();
    // gamma of byte 128 is 187; endpoints are fixed
    assert_eq!(g, Vec3::new(187 * SCALE, 0, 255 * SCALE));
}

#[test]
fn ceiling_light_holds_its_fields() {
    let panel = rt::light_sources::Ceiling::new(Vec3::white(), 200);
    assert_eq!(panel.color, Vec3::white());
    assert_eq!(panel.brightness, 200);
}
