use lorenz_sim::camera::KeyCode;
use lorenz_sim::compute::DispatchShape;
use lorenz_sim::config::{validate_setup, Config, ConfigError, DEFAULT_DELTA_TIME};
use lorenz_sim::input::{input, wants_exit};
use lorenz_sim::lorenz::{integrate, LorenzState, DT_LIMIT};
use lorenz_sim::state::State;
use lorenz_sim::vec3::FxVec3;
use lorenz_sim::vertex::SQUARE_VERTEX_COUNT;

fn small_state(paused: bool) -> State {
    let mut s = State::new(800, 600, paused);
    // A small deterministic ensemble keeps the scenario checks exact.
    s.lorenz_state = LorenzState {
        points: vec![
            FxVec3 { x: 1_000_000, y: 0, z: 0 },
            FxVec3 { x: 2_000_000, y: 0, z: 0 },
            FxVec3 { x: 3_000_000, y: 0, z: 0 },
            FxVec3 { x: 4_000_000, y: 0, z: 0 },
        ],
    };
    s
}

#[test]
fn paused_frames_never_step_the_simulation() {
    let mut s = small_state(true);
    let before = s.lorenz_state.points.clone();
    for _ in 0..10 {
        let draw = s.frame();
        assert_eq!(draw, (SQUARE_VERTEX_COUNT, 1_000_000));
        assert_eq!(s.lorenz_state.points, before);
    }
}

#[test]
fn single_step_while_paused_steps_exactly_once() {
    let mut s = small_state(true);
    let before = s.lorenz_state.points.clone();
    let cfg = s.config.lorenz;
    // Arbitrary wall time may pass; the manual step still uses the
    // default step size, once.
    s.end_frame(987_654_321);
    let consumed = input(&mut s, KeyCode::Return, false);
    assert!(consumed);
    for (i, p) in before.iter().enumerate() {
        assert_eq!(s.lorenz_state.points[i], integrate(&cfg, DEFAULT_DELTA_TIME, p));
    }
    // The end-to-end scenario: slot 0 lands on (0.9, 0.28, 0).
    assert_eq!(s.lorenz_state.points[0], FxVec3 { x: 900_000, y: 280_000, z: 0 });
    // A pressed Return does nothing.
    let pts = s.lorenz_state.points.clone();
    assert!(!input(&mut s, KeyCode::Return, true));
    assert_eq!(s.lorenz_state.points, pts);
}

#[test]
fn running_frame_steps_by_the_frame_delta() {
    let mut s = small_state(false);
    let before = s.lorenz_state.points.clone();
    let cfg = s.config.lorenz;
    s.end_frame(20_000);
    s.frame();
    for (i, p) in before.iter().enumerate() {
        assert_eq!(s.lorenz_state.points[i], integrate(&cfg, 20_000, p));
    }
}

#[test]
fn space_toggles_pause_and_slash_toggles_capture() {
    let mut s = small_state(true);
    assert!(input(&mut s, KeyCode::Space, false));
    assert!(!s.paused);
    assert!(input(&mut s, KeyCode::Space, false));
    assert!(s.paused);
    // Press (not release) does not toggle.
    assert!(!input(&mut s, KeyCode::Space, true));
    assert!(s.paused);
    assert!(!s.cursor_grab);
    assert!(input(&mut s, KeyCode::Slash, false));
    assert!(s.cursor_grab);
    assert!(input(&mut s, KeyCode::Slash, false));
    assert!(!s.cursor_grab);
}

#[test]
fn camera_keys_reach_the_controller_first() {
    let mut s = small_state(true);
    assert!(input(&mut s, KeyCode::W, true));
    assert!(s.camera.controller.is_forward_pressed);
    let before = s.lorenz_state.points.clone();
    assert_eq!(s.lorenz_state.points, before);
}

#[test]
fn exit_is_escape_pressed() {
    assert!(wants_exit(KeyCode::Escape, true));
    assert!(!wants_exit(KeyCode::Escape, false));
    assert!(!wants_exit(KeyCode::Space, true));
}

#[test]
fn end_frame_clamps_the_wall_clock_delta() {
    let mut s = small_state(true);
    s.end_frame(-5);
    assert_eq!(s.delta_time, 0);
    s.end_frame(12_345);
    assert_eq!(s.delta_time, 12_345);
    s.end_frame(DT_LIMIT + 1);
    assert_eq!(s.delta_time, DT_LIMIT);
}

#[test]
fn mouse_motion_reaches_the_controller() {
    let mut s = small_state(true);
    s.handle_mouse(12, -34);
    assert_eq!(s.camera.controller.delta_x, 12);
    assert_eq!(s.camera.controller.delta_y, -34);
}

#[test]
fn cursor_capture_gates_the_camera_update() {
    let mut s = small_state(false);
    s.handle_mouse(500, 0);
    let dir_before = s.camera.entity.dir;
    s.frame();
    // Cursor not captured: the camera must not move.
    assert_eq!(s.camera.entity.dir, dir_before);
    assert!(input(&mut s, KeyCode::Slash, false));
    s.frame();
    assert_ne!(s.camera.entity.dir, dir_before);
}

#[test]
fn validate_setup_accepts_the_default_and_rejects_each_error() {
    let config = Config::default();
    let good = LorenzState::new(16);
    assert_eq!(validate_setup(&config, DEFAULT_DELTA_TIME, &good), Ok(()));

    let mut tight = config;
    tight.num_workgroups = DispatchShape { x: 2, y: 2, z: 2 };
    assert_eq!(
        validate_setup(&tight, DEFAULT_DELTA_TIME, &good),
        Err(ConfigError::DispatchUnderCover)
    );

    assert_eq!(
        validate_setup(&config, 0, &good),
        Err(ConfigError::NonPositiveDeltaTime)
    );
    assert_eq!(
        validate_setup(&config, -3, &good),
        Err(ConfigError::NonPositiveDeltaTime)
    );

    let degenerate = LorenzState { points: vec![FxVec3 { x: 0, y: 0, z: 0 }] };
    assert_eq!(
        validate_setup(&config, DEFAULT_DELTA_TIME, &degenerate),
        Err(ConfigError::DegenerateSeed)
    );
}
