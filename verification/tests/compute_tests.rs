use lorenz_sim::compute::{step, DispatchShape};
use lorenz_sim::fixed::SCALE;
use lorenz_sim::lorenz::{integrate, LorenzConfig, LorenzState};
use lorenz_sim::vec3::FxVec3;

#[test]
fn covers_counts_invocations() {
    let shape = DispatchShape { x: 10, y: 10, z: 10 };
    assert!(shape.covers_count(1000));
    assert!(shape.covers_count(999));
    assert!(!shape.covers_count(1001));
    let zero = DispatchShape { x: 0, y: 4, z: 4 };
    assert!(!zero.covers_count(1));
    assert!(zero.covers_count(0));
}

#[test]
fn step_advances_every_slot_like_the_host_integrator() {
    let cfg = LorenzConfig::default();
    let seeds = vec![
        FxVec3 { x: SCALE, y: 0, z: 0 },
        FxVec3 { x: 2 * SCALE, y: 0, z: 0 },
        FxVec3 { x: 3 * SCALE, y: 0, z: 0 },
        FxVec3 { x: 4 * SCALE, y: 0, z: 0 },
    ];
    let mut state = LorenzState { points: seeds.clone() };
    let shape = DispatchShape { x: 2, y: 2, z: 1 };
    step(&mut state, &cfg, 10_000, shape);
    assert_eq!(state.points.len(), 4);
    for (i, s) in seeds.iter().enumerate() {
        assert_eq!(state.points[i], integrate(&cfg, 10_000, s));
    }
    // The end-to-end scenario value for slot 0: (0.9, 0.28, 0).
    assert_eq!(state.points[0], FxVec3 { x: 900_000, y: 280_000, z: 0 });
}

#[test]
fn step_with_non_positive_dt_is_a_no_op() {
    let cfg = LorenzConfig::default();
    let seeds = vec![FxVec3 { x: SCALE, y: SCALE, z: SCALE }];
    let mut state = LorenzState { points: seeds.clone() };
    let shape = DispatchShape { x: 1, y: 1, z: 1 };
    step(&mut state, &cfg, 0, shape);
    assert_eq!(state.points, seeds);
    step(&mut state, &cfg, -10_000, shape);
    assert_eq!(state.points, seeds);
}

#[test]
fn two_steps_compose() {
    let cfg = LorenzConfig::default();
    let p0 = FxVec3 { x: SCALE, y: 0, z: 0 };
    let mut state = LorenzState { points: vec![p0] };
    let shape = DispatchShape { x: 1, y: 1, z: 1 };
    step(&mut state, &cfg, 10_000, shape);
    step(&mut state, &cfg, 10_000, shape);
    let expected = integrate(&cfg, 10_000, &integrate(&cfg, 10_000, &p0));
    assert_eq!(state.points[0], expected);
}
