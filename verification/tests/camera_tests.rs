use rt::camera::{
    Camera, CameraBuilder, DEFAULT_FOCAL_LENGTH, DEFAULT_RESOLUTION_HEIGHT,
    DEFAULT_RESOLUTION_WIDTH, DEFAULT_SAMPLE_SIZE, DEFAULT_SENSOR_WIDTH,
};
use rt::fx::SCALE;
use rt::objects::{FlatPlane, Object};
use rt::scene::Scene;
use rt::textures::Texture;
use rt::vec3::Vec3;

#[test]
fn builder_reproduces_every_field_set() {
    let camera = CameraBuilder::new()
        .sample_size(7)
        .position_by_coordinates(Vec3::new(SCALE, 2 * SCALE, 3 * SCALE))
        .look_at(Vec3::new(0, 0, SCALE))
        .up_direction_by_coordinates(Vec3::new(0, SCALE, 0))
        .resolution(320, 240)
        .focal_length(2 * SCALE)
        .sensor_width(3 * SCALE)
        .build();
    assert_eq!(camera.sample_size, 7);
    assert_eq!(camera.position, Vec3::new(SCALE, 2 * SCALE, 3 * SCALE));
    assert_eq!(camera.look_at, Vec3::new(0, 0, SCALE));
    assert_eq!(camera.up_direction, Vec3::new(0, SCALE, 0));
    assert_eq!(camera.resolution, (320, 240));
    assert_eq!(camera.focal_length, 2 * SCALE);
    assert_eq!(camera.sensor_width, 3 * SCALE);
    // derived: aspect = 320/240 = 4/3 in fixed point
    assert_eq!(camera.aspect_ratio, 1_333_333);
    assert!(camera.pixels.is_empty());
}

#[test]
fn builder_fills_documented_defaults() {
    let camera = CameraBuilder::new().build();
    assert_eq!(camera.sample_size, DEFAULT_SAMPLE_SIZE);
    assert_eq!(camera.position, Vec3::new(SCALE, 500_000, 0));
    assert_eq!(camera.look_at, Vec3::zero());
    assert_eq!(camera.up_direction, Vec3::new(0, SCALE, 0));
    assert_eq!(
        camera.resolution,
        (DEFAULT_RESOLUTION_WIDTH, DEFAULT_RESOLUTION_HEIGHT)
    );
    assert_eq!(camera.focal_length, DEFAULT_FOCAL_LENGTH);
    assert_eq!(camera.sensor_width, DEFAULT_SENSOR_WIDTH);
    // 2 * atan(0.5) in fixed-point radians, by the rational approximation
    assert_eq!(camera.fov, 934_578);
}

#[test]
fn builder_omitting_single_fields_never_panics() {
    let c1 = CameraBuilder::new().sample_size(3).build();
    assert_eq!(c1.sample_size, 3);
    assert_eq!(c1.focal_length, DEFAULT_FOCAL_LENGTH);
    let c2 = CameraBuilder::new().resolution(10, 10).build();
    assert_eq!(c2.resolution, (10, 10));
    assert_eq!(c2.sample_size, DEFAULT_SAMPLE_SIZE);
    let c3 = CameraBuilder::new().position_by_degrees(90, 45).build();
    assert_eq!(c3.look_at, Vec3::zero());
    let c4 = CameraBuilder::new().up_direction_by_rotation(30).build();
    assert_eq!(c4.up_direction, Vec3::new(0, SCALE, 0));
}

fn white_plane_camera(sample_size: u16) -> Camera {
    CameraBuilder::new()
        .sample_size(sample_size)
        .position_by_coordinates(Vec3::new(3 * SCALE, 4 * SCALE, 0))
        .look_at(Vec3::zero())
        .up_direction_by_coordinates(Vec3::new(0, SCALE, 0))
        .resolution(2, 2)
        .focal_length(SCALE)
        .sensor_width(SCALE)
        .build()
}

fn white_plane_scene(brightness: i64) -> Scene {
    let plane = FlatPlane::new(
        Vec3::zero(),
        1000 * SCALE,
        Texture::Diffusive(Vec3::white()),
    );
    Scene::new(vec![Object::FlatPlane(plane)], brightness)
}

#[test]
fn white_plane_fills_frustum_with_background() {
    // a single diffusive plane filling the view and no reachable light:
    // every path collects exactly the plane's white once, so every pixel is
    // white dimmed by the scene brightness, which equals the background
    let scene = white_plane_scene(500_000);
    let mut camera = white_plane_camera(4);
    camera.send_rays(&scene);
    assert_eq!(camera.pixels.len(), 4);
    let background = scene.background();
    for p in &camera.pixels {
        assert_eq!(*p, background);
    }
}

#[test]
fn brightness_increase_brightens_every_pixel() {
    let dim_scene = white_plane_scene(100_000);
    let bright_scene = white_plane_scene(900_000);
    let mut dim_cam = white_plane_camera(2);
    let mut bright_cam = white_plane_camera(2);
    dim_cam.send_rays(&dim_scene);
    bright_cam.send_rays(&bright_scene);
    let dim_avg: i64 = dim_cam.pixels.iter().map(|p| p.x + p.y + p.z).sum();
    let bright_avg: i64 = bright_cam.pixels.iter().map(|p| p.x + p.y + p.z).sum();
    assert!(bright_avg > dim_avg);
}

#[test]
fn ppm_header_and_triplet_count() {
    let mut camera = CameraBuilder::new()
        .sample_size(1)
        .resolution(3, 2)
        .position_by_coordinates(Vec3::new(3 * SCALE, 4 * SCALE, 0))
        .look_at(Vec3::zero())
        .up_direction_by_coordinates(Vec3::new(0, SCALE, 0))
        .build();
    let scene = white_plane_scene(SCALE);
    camera.send_rays(&scene);
    let bytes = camera.ppm_bytes();
    let text = String::from_utf8(bytes).expect("ascii image");
    let mut lines = text.lines();
    assert_eq!(lines.next(), Some("P3"));
    // header line 2 is exactly "<width> <height>"
    assert_eq!(lines.next(), Some("3 2"));
    assert_eq!(lines.next(), Some("255"));
    // one "r g b" triplet per pixel: width * height triplets in total
    let numbers: Vec<&str> = lines.flat_map(|l| l.split_whitespace()).collect();
    assert_eq!(numbers.len(), 3 * 3 * 2);
    for n in numbers {
        let v: u32 = n.parse().expect("decimal channel");
        assert!(v <= 255);
    }
    // two pixel rows after the three header lines
    assert_eq!(text.lines().count(), 5);
}

#[test]
fn render_pixel_stays_in_range() {
    let scene = white_plane_scene(700_000);
    let camera = white_plane_camera(2);
    for idx in 0..4 {
        let p = rt::camera::render_pixel(&camera, &scene, idx);
        assert!(0 <= p.x && p.x <= 2 * 255 * SCALE);
        assert!(0 <= p.y && p.y <= 2 * 255 * SCALE);
        assert!(0 <= p.z && p.z <= 2 * 255 * SCALE);
    }
}

#[test]
fn empty_scene_renders_pure_background() {
    let scene = Scene::new(Vec::new(), 700_000);
    let mut camera = white_plane_camera(3);
    camera.send_rays(&scene);
    let background = scene.background();
    assert_eq!(camera.pixels.len(), 4);
    for p in &camera.pixels {
        assert_eq!(*p, background);
    }
}
