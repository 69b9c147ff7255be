use lorenz_sim::fixed::{SCALE, SCALE_SQ};
use lorenz_sim::lorenz::{derivative, integrate, LorenzConfig, LorenzState, COORD_LIMIT, SEED_RANGE};
use lorenz_sim::vec3::FxVec3;

fn classic() -> LorenzConfig {
    LorenzConfig::default()
}

#[test]
fn default_config_is_classic() {
    let c = classic();
    assert_eq!(c.sigma, 10_000_000);
    assert_eq!(c.rho, 28_000_000);
    assert_eq!(c.beta, 2_666_667);
}

#[test]
fn origin_is_fixed_point() {
    let c = classic();
    let o = FxVec3 { x: 0, y: 0, z: 0 };
    for dt in [1i64, 10_000, 1_000_000, 1_000_000_000_000] {
        let r = integrate(&c, dt, &o);
        assert_eq!(r, o);
    }
}

#[test]
fn derivative_of_unit_x() {
    let c = classic();
    let p = FxVec3 { x: SCALE, y: 0, z: 0 };
    let (dx, dy, dz) = derivative(&c, &p);
    // dx = sigma * (0 - 1) = -10, dy = 1 * (28 - 0) - 0 = 28, dz = 0
    assert_eq!(dx, -10_000_000);
    assert_eq!(dy, 28_000_000);
    assert_eq!(dz, 0);
}

#[test]
fn euler_step_matches_hand_computation() {
    // (1,0,0), dt = 0.01: next = (1,0,0) + 0.01 * (-10, 28, 0) = (0.9, 0.28, 0)
    let c = classic();
    let p = FxVec3 { x: SCALE, y: 0, z: 0 };
    let r = integrate(&c, 10_000, &p);
    assert_eq!(r, FxVec3 { x: 900_000, y: 280_000, z: 0 });
}

#[test]
fn euler_step_saturates_instead_of_overflowing() {
    let c = classic();
    let p = FxVec3 { x: COORD_LIMIT, y: COORD_LIMIT, z: 0 };
    let r = integrate(&c, 1_000_000_000_000, &p);
    // dz = x*y / SCALE is astronomically positive, so z saturates.
    assert_eq!(r.z, COORD_LIMIT);
}

#[test]
fn seeding_is_inside_cube_and_never_origin() {
    let s = LorenzState::new(2000);
    assert_eq!(s.points.len(), 2000);
    for p in &s.points {
        assert!(p.x.abs() <= SEED_RANGE);
        assert!(p.y.abs() <= SEED_RANGE);
        assert!(p.z.abs() <= SEED_RANGE);
        assert!(!(p.x == 0 && p.y == 0 && p.z == 0));
    }
}

#[test]
fn seeding_is_not_constant() {
    // A degenerate generator that ignored its range would make every
    // coordinate equal.
    let s = LorenzState::new(64);
    let first = s.points[0];
    assert!(s.points.iter().any(|p| *p != first));
}

#[test]
fn scale_constants_are_consistent() {
    assert_eq!(SCALE as i128 * SCALE as i128, SCALE_SQ as i128);
}
