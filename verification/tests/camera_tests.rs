use lorenz_sim::camera::{Camera, CameraController, CameraUniform, KeyCode, DELTA_SAT, SENS, SPEED};
use lorenz_sim::fixed::{SCALE, SCALE_SQ};
use lorenz_sim::trig::fx_sincos;
use lorenz_sim::vec3::{FxVec3, UNIT_TOL};

fn norm_sq(v: &FxVec3) -> i128 {
    (v.x as i128) * (v.x as i128) + (v.y as i128) * (v.y as i128) + (v.z as i128) * (v.z as i128)
}

fn assert_unit_within_tol(v: &FxVec3) {
    let n = norm_sq(v);
    let s2 = SCALE_SQ as i128;
    let tol = UNIT_TOL as i128;
    assert!(n >= s2 - tol, "norm too small: {n}");
    assert!(n <= s2 + tol, "norm too large: {n}");
}

#[test]
fn sincos_exact_values() {
    assert_eq!(fx_sincos(0), (SCALE, 0));
    // sin 30 = 1/2 exactly under Bhaskara's approximation.
    assert_eq!(fx_sincos(30_000_000), (866_025, 500_000));
    assert_eq!(fx_sincos(-30_000_000), (866_025, -500_000));
    // sin 90 = 1, cos 90 = 0.
    assert_eq!(fx_sincos(90_000_000), (0, SCALE));
    // A full turn away gives the same pair.
    assert_eq!(fx_sincos(390_000_000), fx_sincos(30_000_000));
}

#[test]
fn sincos_stays_on_the_unit_circle() {
    for a in [-720i64, -123, -17, 0, 1, 29, 45, 89, 90, 91, 179, 180, 181, 359, 360, 7200] {
        let (c, s) = fx_sincos(a * SCALE);
        let n = (c as i128) * (c as i128) + (s as i128) * (s as i128);
        let s2 = SCALE_SQ as i128;
        assert!(n <= s2);
        assert!(n >= s2 - 2 * SCALE as i128 - 1);
    }
}

#[test]
fn controller_key_routing_matches_the_bindings() {
    let mut c = CameraController::new(SPEED, SENS);
    assert!(c.handle_key_input(KeyCode::W, true));
    assert!(c.is_forward_pressed);
    assert!(c.handle_key_input(KeyCode::Up, false));
    assert!(!c.is_forward_pressed);
    assert!(c.handle_key_input(KeyCode::A, true));
    assert!(c.is_left_pressed);
    assert!(c.handle_key_input(KeyCode::S, true));
    assert!(c.is_backward_pressed);
    assert!(c.handle_key_input(KeyCode::D, true));
    assert!(c.is_right_pressed);
    assert!(c.handle_key_input(KeyCode::Left, true));
    assert!(c.handle_key_input(KeyCode::Right, true));
    assert!(c.handle_key_input(KeyCode::Down, true));
    assert!(!c.handle_key_input(KeyCode::Space, true));
    assert!(!c.handle_key_input(KeyCode::Escape, true));
    assert!(!c.handle_key_input(KeyCode::Other, true));
}

#[test]
fn mouse_deltas_accumulate_and_saturate() {
    let mut c = CameraController::new(SPEED, SENS);
    c.handle_mouse_movement(10, -20);
    c.handle_mouse_movement(5, -1);
    assert_eq!(c.delta_x, 15);
    assert_eq!(c.delta_y, -21);
    c.handle_mouse_movement(i64::MAX, i64::MIN);
    assert_eq!(c.delta_x, DELTA_SAT);
    assert_eq!(c.delta_y, -DELTA_SAT);
}

#[test]
fn create_camera_matches_the_documented_start() {
    let cam = Camera::create_camera(1600, 900);
    assert_eq!(
        cam.entity.pos,
        FxVec3 { x: 50_000_000, y: 50_000_000, z: 50_000_000 }
    );
    // normalize(-1,-1,-1): each component -1e12 / 1732050, rounded.
    assert_eq!(
        cam.entity.dir,
        FxVec3 { x: -577_351, y: -577_351, z: -577_351 }
    );
    assert_eq!(cam.entity.up, FxVec3 { x: 0, y: SCALE, z: 0 });
    assert_eq!(cam.entity.fov_y, 45_000_000);
    assert_eq!(cam.entity.z_near, SCALE);
    assert_eq!(cam.entity.z_far, 1_000_000_000);
    // 1600 / 900 in fixed point.
    assert_eq!(cam.entity.aspect_ratio, 1_777_778);
    assert_unit_within_tol(&cam.entity.dir);
}

#[test]
fn zero_update_leaves_camera_unchanged() {
    let mut cam = Camera::create_camera(1600, 900);
    let before_entity = cam.entity;
    let before_controller = cam.controller;
    cam.update(0);
    assert_eq!(cam.entity, before_entity);
    assert_eq!(cam.controller, before_controller);
}

#[test]
fn direction_stays_unit_and_off_pole_under_extreme_pitch() {
    let mut cam = Camera::create_camera(1600, 900);
    for _ in 0..25 {
        // A huge upward pitch every frame tries to push the camera past
        // the pole; the clamp must keep the right vector alive.
        cam.controller.handle_mouse_movement(0, -3_000_000);
        cam.update(10_000);
        assert_unit_within_tol(&cam.entity.dir);
        assert!(cam.entity.dir.x != 0 || cam.entity.dir.z != 0);
        let y = cam.entity.dir.y as i128;
        assert!(y * y <= SCALE_SQ as i128 + UNIT_TOL as i128);
    }
    for _ in 0..25 {
        cam.controller.handle_mouse_movement(0, 3_000_000);
        cam.update(10_000);
        assert_unit_within_tol(&cam.entity.dir);
        assert!(cam.entity.dir.x != 0 || cam.entity.dir.z != 0);
    }
}

#[test]
fn direction_stays_unit_under_mixed_motion() {
    let mut cam = Camera::create_camera(1024, 768);
    let deltas = [
        (250, -80),
        (-1200, 300),
        (33, 7),
        (-5, -900),
        (10_000, 10_000),
        (-10_000, 4_000),
    ];
    for (dx, dy) in deltas {
        cam.controller.handle_mouse_movement(dx, dy);
        cam.update(16_000);
        assert_unit_within_tol(&cam.entity.dir);
        assert!(cam.entity.dir.x != 0 || cam.entity.dir.z != 0);
    }
}

#[test]
fn yaw_quarter_turn_rotates_the_direction() {
    // sens 0.1 deg/count: a -900 count delta yaws by +90 degrees.
    let mut cam = Camera::create_camera(1600, 900);
    let before = cam.entity.dir;
    cam.controller.handle_mouse_movement(-900, 0);
    cam.update(0);
    let after = cam.entity.dir;
    assert_eq!(after.y, before.y);
    assert_ne!((after.x, after.z), (before.x, before.z));
    assert_unit_within_tol(&after);
}

#[test]
fn held_forward_key_moves_along_the_direction() {
    let mut cam = Camera::create_camera(1600, 900);
    let before = cam.entity.pos;
    cam.controller.handle_key_input(KeyCode::W, true);
    // One second at 100 units/s along (-0.577, -0.577, -0.577).
    cam.update(1_000_000);
    let after = cam.entity.pos;
    assert!(after.x < before.x);
    assert!(after.y < before.y);
    assert!(after.z < before.z);
    // |step| = dir * speed * dt = -577351 * 100 = -57_735_100 raw.
    assert_eq!(before.x - after.x, 57_735_100);
}

#[test]
fn uniform_identity_and_projection_shape() {
    let u = CameraUniform::new();
    assert_eq!(u.proj.m00, SCALE);
    assert_eq!(u.proj.m11, SCALE);
    assert_eq!(u.proj.m22, SCALE);
    assert_eq!(u.proj.m33, SCALE);
    assert_eq!(u.proj.m01, 0);

    let cam = Camera::create_camera(1600, 900);
    let p = cam.uniform.proj;
    // Perspective: positive focal terms, -1 in the w row, no translation
    // in the last column's x/y.
    assert!(p.m00 > 0);
    assert!(p.m11 > 0);
    assert!(p.m11 > p.m00); // wide aspect shrinks the x focal term
    assert_eq!(p.m23, -SCALE);
    assert_eq!(p.m30, 0);
    assert_eq!(p.m31, 0);
    assert!(p.m22 < 0);
    assert_eq!(p.m33, 0);
    // The combined matrix differs from the projection (the view moves
    // the eye off the origin).
    assert_ne!(cam.uniform.view_proj, cam.uniform.proj);
}
