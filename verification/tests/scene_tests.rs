use rt::fx::SCALE;
use rt::scene::{Scene, BRIGHTNESS_FLOOR};
use rt::vec3::Vec3;
use rt::viewport::ViewPort;

#[test]
fn brightness_is_clamped_into_unit_range() {
    assert_eq!(Scene::new(Vec::new(), 500_000).brightness, 500_000);
    assert_eq!(Scene::new(Vec::new(), 2 * SCALE).brightness, SCALE);
    assert_eq!(Scene::new(Vec::new(), 0).brightness, BRIGHTNESS_FLOOR);
    assert_eq!(Scene::new(Vec::new(), -5).brightness, BRIGHTNESS_FLOOR);
}

#[test]
fn demo_scene_has_four_objects() {
    let scene = Scene::init(500_000);
    assert_eq!(scene.objects.len(), 4);
    assert_eq!(scene.brightness, 500_000);
}

#[test]
fn background_is_white_scaled_by_brightness() {
    let scene = Scene::new(Vec::new(), 500_000);
    let bg = scene.background();
    assert_eq!(bg, Vec3::new(127_500_000, 127_500_000, 127_500_000));
    let full = Scene::new(Vec::new(), SCALE);
    assert_eq!(full.background(), Vec3::white());
}

#[test]
fn viewport_corners_are_half_extents() {
    let vp = ViewPort::new(4 * SCALE, 2 * SCALE, SCALE);
    assert_eq!(vp.top_left(), Vec3::new(-2 * SCALE, -SCALE, 0));
    assert_eq!(vp.top_right(), Vec3::new(2 * SCALE, -SCALE, 0));
    assert_eq!(vp.bottom_left(), Vec3::new(-2 * SCALE, SCALE, 0));
    assert_eq!(vp.bottom_right(), Vec3::new(2 * SCALE, SCALE, 0));
    // 2 * atan(2.0) in degrees, in fixed point: about 126.45
    assert_eq!(vp.fov, 126_452_573);
}

#[test]
fn color_presets_are_well_formed() {
    for c in [
        Vec3::black(),
        Vec3::white(),
        Vec3::red(),
        Vec3::green(),
        Vec3::blue(),
        Vec3::light_blue(),
        Vec3::orange(),
        Vec3::mint_green(),
        Vec3::coral(),
        Vec3::sky_blue(),
    ] {
        assert!(0 <= c.x && c.x <= 255 * SCALE);
        assert!(0 <= c.y && c.y <= 255 * SCALE);
        assert!(0 <= c.z && c.z <= 255 * SCALE);
    }
    assert_eq!(Vec3::light_blue(), Vec3::new(135 * SCALE, 206 * SCALE, 250 * SCALE));
    // byte getters clamp and rescale
    let c = Vec3::new(255 * SCALE, 500 * SCALE, -5);
    assert_eq!(c.r(), 255);
    assert_eq!(c.g(), 255);
    assert_eq!(c.b(), 0);
}
