use raytracer::camera::Camera;
use raytracer::movement::{movement_deltas, update_look, MovementKeys, MovementState};
use raytracer::ray::Ray;
use raytracer::renderer::Renderer;
use raytracer::vec3::Vec3;

#[test]
fn first_mouse_position_only_latches() {
    let mut s = MovementState::new();
    assert!(s.first_mouse);
    let moved = update_look(&mut s, 400_000, 300_000);
    assert!(!moved);
    assert!(!s.first_mouse);
    assert_eq!(s.last_mouse_x, 400_000);
    assert_eq!(s.last_mouse_y, 300_000);
    assert_eq!(s.yaw, 0);
    assert_eq!(s.pitch, 0);
}

#[test]
fn mouse_deltas_turn_the_view_by_a_tenth() {
    let mut s = MovementState::new();
    update_look(&mut s, 0, 0);
    let moved = update_look(&mut s, -1000, 500);
    assert!(moved);
    // x offset: (0 - (-1000)) / 10; y offset: (0 - 500) / 10.
    assert_eq!(s.yaw, 100);
    assert_eq!(s.pitch, -50);
}

#[test]
fn pitch_clamps_at_the_limit() {
    let mut s = MovementState::new();
    update_look(&mut s, 0, 0);
    update_look(&mut s, 0, -10_000_000);
    assert_eq!(s.pitch, 89_000);
    update_look(&mut s, 0, 30_000_000);
    assert_eq!(s.pitch, -89_000);
}

#[test]
fn keys_become_movement_coefficients() {
    let none = MovementKeys {
        forward: false,
        backward: false,
        left: false,
        right: false,
        up: false,
        down: false,
    };
    assert_eq!(movement_deltas(&none, 70), (0, 0, 0, false));

    let run = MovementKeys { forward: true, right: true, down: true, ..none };
    assert_eq!(movement_deltas(&run, 70), (70, 70, -70, true));

    let stuck = MovementKeys { forward: true, backward: true, ..none };
    assert_eq!(movement_deltas(&stuck, 70), (0, 0, 0, false));

    let back = MovementKeys { backward: true, left: true, up: true, ..none };
    assert_eq!(movement_deltas(&back, 70), (-70, -70, 70, true));
}

#[test]
fn camera_keeps_its_viewport_and_ray() {
    let eye = Ray::new(Vec3::new(0, 0, 5000), Vec3::new(0, 0, -1000));
    let mut cam = Camera::new(800, 600, eye);
    assert_eq!(cam.width(), 800);
    assert_eq!(cam.height(), 600);
    assert_eq!(cam.ray(), eye);
    cam.resize(1024, 768);
    assert_eq!(cam.width(), 1024);
    let turned = Ray::new(Vec3::new(0, 0, 5000), Vec3::new(1000, 0, 0));
    cam.set_ray(turned);
    assert_eq!(cam.ray(), turned);
}

#[test]
fn clear_paints_the_whole_viewport_black() {
    let cam = Camera::new(3, 2, Ray::new(Vec3::new(0, 0, 0), Vec3::new(0, 0, -1)));
    let mut canvas = raytracer::canvas::Canvas::new(3, 2);
    canvas.paint_pixel(1, 1, 0xFFFFFF);
    let renderer = Renderer::new();
    renderer.clear(&cam, &mut canvas);
    assert!(canvas.pixel_buffer.iter().all(|&p| p == 0));
}

#[test]
fn ray_dot_is_the_squared_direction_length() {
    let r = Ray::new(Vec3::new(0, 0, 0), Vec3::new(3, 4, 12));
    assert_eq!(r.dot(), 9 + 16 + 144);
}
