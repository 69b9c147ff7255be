//! The attractor model: the Lorenz vector field, one explicit Euler step,
//! and the ensemble of point states with its random, non-degenerate seed
//! distribution.

use crate::fixed::{
    clamp, clamp_i128, div_round, div_round_i128, lemma_div_round_le, lemma_mul_abs_le, mul_ii,
    SCALE,
};
use crate::vec3::{comps_le, FxVec3};
use vstd::prelude::*;

verus! {

/// Largest magnitude accepted for an attractor parameter (1000.0).
pub const PARAM_LIMIT: i64 = 1_000_000_000;

/// Largest coordinate magnitude a point can hold; an Euler step saturates
/// here instead of overflowing (numerical blow-up is accepted, a panic is
/// not).
pub const COORD_LIMIT: i64 = 1_000_000_000_000_000;

/// Largest time step magnitude accepted by the integrator (1e6 seconds).
pub const DT_LIMIT: i64 = 1_000_000_000_000;

/// Seed coordinates are drawn uniformly from (-50.0, 50.0).
pub const SEED_RANGE: i64 = 50_000_000;

/// The three scalars defining the vector field.
#[derive(Clone, Copy, PartialEq, Eq, Structural, Debug)]
pub struct LorenzConfig {
    pub sigma: i64,
    pub rho: i64,
    pub beta: i64,
}

impl LorenzConfig {
    pub open spec fn wf(self) -> bool {
        &&& -PARAM_LIMIT <= self.sigma <= PARAM_LIMIT
        &&& -PARAM_LIMIT <= self.rho <= PARAM_LIMIT
        &&& -PARAM_LIMIT <= self.beta <= PARAM_LIMIT
    }

}

impl Default for LorenzConfig {
    /// The classical parameters: sigma = 10, rho = 28, beta = 8/3
    /// (rounded to the fixed-point grid).
    fn default() -> (c: Self)
        ensures
            c == (LorenzConfig { sigma: 10_000_000i64, rho: 28_000_000i64, beta: 2_666_667i64 }),
            c.wf(),
    {
        LorenzConfig { sigma: 10_000_000, rho: 28_000_000, beta: 2_666_667 }
    }
}

/// A point is well formed while each coordinate is within `COORD_LIMIT`.
pub open spec fn coords_wf(v: FxVec3) -> bool {
    comps_le(v, COORD_LIMIT as int)
}

pub open spec fn origin() -> FxVec3 {
    FxVec3 { x: 0, y: 0, z: 0 }
}

/// dx = sigma * (y - x)
pub open spec fn spec_derivative_x(cfg: LorenzConfig, s: FxVec3) -> int {
    div_round(cfg.sigma * (s.y - s.x), SCALE as int)
}

/// dy = x * (rho - z) - y
pub open spec fn spec_derivative_y(cfg: LorenzConfig, s: FxVec3) -> int {
    div_round(s.x * (cfg.rho - s.z), SCALE as int) - s.y
}

/// dz = x * y - beta * z
pub open spec fn spec_derivative_z(cfg: LorenzConfig, s: FxVec3) -> int {
    div_round(s.x * s.y, SCALE as int) - div_round(cfg.beta * s.z, SCALE as int)
}

/// One explicit Euler step: `s + dt * derivative(s)`, each coordinate
/// saturated at `COORD_LIMIT`.
pub open spec fn spec_integrate(cfg: LorenzConfig, dt: i64, s: FxVec3) -> FxVec3 {
    FxVec3 {
        x: clamp(
            s.x + div_round(dt * spec_derivative_x(cfg, s), SCALE as int),
            COORD_LIMIT as int,
        ) as i64,
        y: clamp(
            s.y + div_round(dt * spec_derivative_y(cfg, s), SCALE as int),
            COORD_LIMIT as int,
        ) as i64,
        z: clamp(
            s.z + div_round(dt * spec_derivative_z(cfg, s), SCALE as int),
            COORD_LIMIT as int,
        ) as i64,
    }
}

/// The instantaneous rate of change of one point, widened because the
/// rates can far exceed the coordinate range.
pub fn derivative(cfg: &LorenzConfig, s: &FxVec3) -> (d: (i128, i128, i128))
    requires
        cfg.wf(),
        coords_wf(*s),
    ensures
        d.0 == spec_derivative_x(*cfg, *s),
        d.1 == spec_derivative_y(*cfg, *s),
        d.2 == spec_derivative_z(*cfg, *s),
        -2_200_000_000_000_000_000_000_000 <= d.0 <= 2_200_000_000_000_000_000_000_000,
        -2_200_000_000_000_000_000_000_000 <= d.1 <= 2_200_000_000_000_000_000_000_000,
        -2_200_000_000_000_000_000_000_000 <= d.2 <= 2_200_000_000_000_000_000_000_000,
{
    proof {
        lemma_mul_abs_le(
            cfg.sigma as int,
            s.y - s.x,
            PARAM_LIMIT as int,
            2_000_000_000_000_000int,
        );
        lemma_div_round_le(cfg.sigma * (s.y - s.x), SCALE as int, 2_000_000_000_000_000_000int);
    }
    let pdx = (cfg.sigma as i128) * ((s.y as i128) - (s.x as i128));
    let dx = div_round_i128(pdx, SCALE as i128);
    proof {
        lemma_mul_abs_le(
            s.x as int,
            cfg.rho - s.z,
            COORD_LIMIT as int,
            1_100_000_000_000_000int,
        );
        lemma_div_round_le(
            s.x * (cfg.rho - s.z),
            SCALE as int,
            1_100_000_000_000_000_000_000_000int,
        );
    }
    let pdy = (s.x as i128) * ((cfg.rho as i128) - (s.z as i128));
    let dy = div_round_i128(pdy, SCALE as i128) - (s.y as i128);
    proof {
        lemma_mul_abs_le(s.x as int, s.y as int, COORD_LIMIT as int, COORD_LIMIT as int);
        lemma_div_round_le(s.x * s.y, SCALE as int, 1_000_000_000_000_000_000_000_000int);
        lemma_mul_abs_le(cfg.beta as int, s.z as int, PARAM_LIMIT as int, COORD_LIMIT as int);
        lemma_div_round_le(cfg.beta * s.z, SCALE as int, 1_000_000_000_000_000_000int);
    }
    let dz = div_round_i128(mul_ii(s.x, s.y), SCALE as i128) - div_round_i128(
        mul_ii(cfg.beta, s.z),
        SCALE as i128,
    );
    (dx, dy, dz)
}

/// One Euler step of one point. Pure: the result depends on the arguments
/// alone, so the host and a parallel dispatch agree slot for slot.
pub fn integrate(cfg: &LorenzConfig, dt: i64, s: &FxVec3) -> (r: FxVec3)
    requires
        cfg.wf(),
        coords_wf(*s),
        -DT_LIMIT <= dt <= DT_LIMIT,
    ensures
        r == spec_integrate(*cfg, dt, *s),
        coords_wf(r),
{
    let (dx, dy, dz) = derivative(cfg, s);
    proof {
        lemma_mul_abs_le(dt as int, dx as int, DT_LIMIT as int, 2_200_000_000_000_000_000_000_000);
        lemma_mul_abs_le(dt as int, dy as int, DT_LIMIT as int, 2_200_000_000_000_000_000_000_000);
        lemma_mul_abs_le(dt as int, dz as int, DT_LIMIT as int, 2_200_000_000_000_000_000_000_000);
    }
    let sx = div_round_i128((dt as i128) * dx, SCALE as i128);
    let sy = div_round_i128((dt as i128) * dy, SCALE as i128);
    let sz = div_round_i128((dt as i128) * dz, SCALE as i128);
    proof {
        lemma_div_round_le(
            dt * spec_derivative_x(*cfg, *s),
            SCALE as int,
            2_200_000_000_000_000_000_000_000_000_000int,
        );
        lemma_div_round_le(
            dt * spec_derivative_y(*cfg, *s),
            SCALE as int,
            2_200_000_000_000_000_000_000_000_000_000int,
        );
        lemma_div_round_le(
            dt * spec_derivative_z(*cfg, *s),
            SCALE as int,
            2_200_000_000_000_000_000_000_000_000_000int,
        );
    }
    FxVec3 {
        x: clamp_i128((s.x as i128) + sx, COORD_LIMIT),
        y: clamp_i128((s.y as i128) + sy, COORD_LIMIT),
        z: clamp_i128((s.z as i128) + sz, COORD_LIMIT),
    }
}

/// The origin is a fixed point of the integration: a point seeded exactly
/// at (0, 0, 0) never moves, whatever the step size.
pub proof fn lemma_origin_fixed_point(cfg: LorenzConfig, dt: i64)
    ensures
        spec_integrate(cfg, dt, origin()) == origin(),
{
    let s = origin();
    assert(cfg.sigma * (s.y - s.x) == 0) by (nonlinear_arith)
        requires
            s.x == 0 && s.y == 0,
    ;
    assert(s.x * (cfg.rho - s.z) == 0) by (nonlinear_arith)
        requires
            s.x == 0,
    ;
    assert(s.x * s.y == 0) by (nonlinear_arith)
        requires
            s.x == 0,
    ;
    assert(cfg.beta * s.z == 0) by (nonlinear_arith)
        requires
            s.z == 0,
    ;
    crate::fixed::lemma_div_round_exact(0, SCALE as int);
    assert(spec_derivative_x(cfg, s) == 0);
    assert(spec_derivative_y(cfg, s) == 0);
    assert(spec_derivative_z(cfg, s) == 0);
    assert(dt * 0 == 0) by (nonlinear_arith);
}

/// A seed point: inside the seeding cube and never the exact fixed point.
pub open spec fn seed_wf(v: FxVec3) -> bool {
    &&& comps_le(v, SEED_RANGE as int)
    &&& v != origin()
}

/// The ensemble: a fixed-size dense array of point positions. A point has
/// no identity beyond its slot.
pub struct LorenzState {
    pub points: Vec<FxVec3>,
}

/// Relies on `rand::Rng::gen_range` over `rand::thread_rng`: a uniform
/// draw from the half-open range, which panics only when the range is
/// empty.
#[verifier::external_body]
pub(crate) fn gen_range_i64(lo: i64, hi: i64) -> (r: i64)
    requires
        lo < hi,
    ensures
        lo <= r < hi,
{
    rand::Rng::gen_range(&mut rand::thread_rng(), lo..hi)
}

impl LorenzState {
    /// Seed `number_lorenz_points` points uniformly inside the cube of
    /// half-width `SEED_RANGE`. A draw that lands exactly on the origin
    /// (the fixed point of the flow) is nudged one unit along x, so the
    /// seed distribution is never degenerate.
    pub fn new(number_lorenz_points: usize) -> (s: Self)
        ensures
            s.points@.len() == number_lorenz_points,
            forall|i: int| 0 <= i < s.points@.len() ==> seed_wf(#[trigger] s.points@[i]),
    {
        let mut points: Vec<FxVec3> = Vec::new();
        let mut k: usize = 0;
        while k < number_lorenz_points
            invariant
                k <= number_lorenz_points,
                points@.len() == k,
                forall|i: int| 0 <= i < k ==> seed_wf(#[trigger] points@[i]),
            decreases number_lorenz_points - k,
        {
            let mut x = gen_range_i64(-SEED_RANGE, SEED_RANGE);
            let y = gen_range_i64(-SEED_RANGE, SEED_RANGE);
            let z = gen_range_i64(-SEED_RANGE, SEED_RANGE);
            if x == 0 && y == 0 && z == 0 {
                x = SCALE;
            }
            points.push(FxVec3 { x, y, z });
            k = k + 1;
        }
        LorenzState { points }
    }
}

} // verus!
