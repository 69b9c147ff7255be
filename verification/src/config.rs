//! Run configuration: attractor parameters, point count and dispatch
//! geometry, plus the setup-time validation that rejects a shape that
//! under-covers the buffer, a non-positive step size or a degenerate
//! seed distribution before the frame loop starts.

use crate::compute::{covers, DispatchShape};
use crate::lorenz::{seed_wf, LorenzConfig, LorenzState};
use vstd::prelude::*;

verus! {

/// The step size used for a manual single step: 0.01 seconds.
pub const DEFAULT_DELTA_TIME: i64 = 10_000;

/// Requested ensemble size; the default configuration rounds it to a
/// perfect cube so a cubic dispatch covers it exactly.
pub const NUMBER_LORENZ_POINTS: usize = 1_000_000;

#[derive(Clone, Copy, PartialEq, Eq, Structural, Debug)]
pub struct Config {
    pub lorenz: LorenzConfig,
    pub num_lorenz_points: usize,
    pub num_workgroups: DispatchShape,
    pub smooth_shading: bool,
}

impl Config {
    pub open spec fn wf(self) -> bool {
        &&& self.lorenz.wf()
        &&& covers(self.num_workgroups, self.num_lorenz_points as int)
    }
}

/// The largest integer whose cube does not exceed `n`.
pub fn cube_root(n: usize) -> (r: usize)
    ensures
        (r * r) * r <= n,
        n < ((r + 1) * (r + 1)) * (r + 1),
{
    let mut k: usize = 0;
    loop
        invariant_except_break
            (k * k) * k <= n,
            k <= 2_642_245,
        ensures
            (k * k) * k <= n,
            n < ((k + 1) * (k + 1)) * (k + 1),
        decreases n - k,
    {
        proof {
            assert(((k + 1) as int) * ((k + 1) as int) <= 7_000_000_000_000
                && (((k + 1) as int) * ((k + 1) as int)) * ((k + 1) as int)
                <= 19_000_000_000_000_000_000) by (nonlinear_arith)
                requires
                    0 <= k <= 2_642_245,
            ;
        }
        let kk = k + 1;
        let cube = (kk as u128) * (kk as u128) * (kk as u128);
        if cube > n as u128 {
            break ;
        }
        proof {
            assert(kk <= 2_642_245 && kk <= (kk * kk) * kk) by (nonlinear_arith)
                requires
                    1 <= kk,
                    (kk * kk) * kk <= 18_446_744_073_709_551_615,
            ;
        }
        k = kk;
    }
    k
}

impl Default for Config {
    /// The classical parameters over a cubic dispatch: the cube root of
    /// the requested point count along each axis, one point per
    /// invocation.
    fn default() -> (c: Self)
        ensures
            c == (Config {
                lorenz: LorenzConfig { sigma: 10_000_000i64, rho: 28_000_000i64, beta: 2_666_667i64 },
                num_lorenz_points: 1_000_000usize,
                num_workgroups: DispatchShape { x: 100u32, y: 100u32, z: 100u32 },
                smooth_shading: false,
            }),
            c.wf(),
    {
        let t = cube_root(NUMBER_LORENZ_POINTS);
        proof {
            assert(t == 100) by (nonlinear_arith)
                requires
                    (t * t) * t <= 1_000_000,
                    1_000_000 < ((t + 1) * (t + 1)) * (t + 1),
                    t >= 0,
            ;
        }
        let n = t * t * t;
        Config {
            lorenz: LorenzConfig::default(),
            num_lorenz_points: n,
            num_workgroups: DispatchShape { x: t as u32, y: t as u32, z: t as u32 },
            smooth_shading: false,
        }
    }
}

/// The configuration errors that must be rejected at setup time.
#[derive(Clone, Copy, PartialEq, Eq, Structural, Debug)]
pub enum ConfigError {
    /// The dispatch shape launches fewer invocations than there are
    /// points, so a subset of points would silently never update.
    DispatchUnderCover,
    /// The step size is not positive, so every step would be a no-op.
    NonPositiveDeltaTime,
    /// A seed point sits exactly on the fixed point (0, 0, 0) or outside
    /// the seeding cube.
    DegenerateSeed,
}

/// Setup-time validation: succeeds exactly when the dispatch covers the
/// buffer, the step size is positive and every seed is non-degenerate.
pub fn validate_setup(config: &Config, dt: i64, state: &LorenzState) -> (r: Result<
    (),
    ConfigError,
>)
    ensures
        r is Ok <==> covers(config.num_workgroups, state.points@.len() as int) && dt > 0 && (forall|
            i: int,
        | 0 <= i < state.points@.len() ==> seed_wf(#[trigger] state.points@[i])),
        r == Err::<(), ConfigError>(ConfigError::DispatchUnderCover) <==> !covers(
            config.num_workgroups,
            state.points@.len() as int,
        ),
        covers(config.num_workgroups, state.points@.len() as int) && dt <= 0 ==> r == Err::<
            (),
            ConfigError,
        >(ConfigError::NonPositiveDeltaTime),
{
    if !config.num_workgroups.covers_count(state.points.len()) {
        return Err(ConfigError::DispatchUnderCover);
    }
    if dt <= 0 {
        return Err(ConfigError::NonPositiveDeltaTime);
    }
    let mut i: usize = 0;
    let n = state.points.len();
    while i < n
        invariant
            i <= n,
            n == state.points@.len(),
            covers(config.num_workgroups, state.points@.len() as int),
            dt > 0,
            forall|j: int| 0 <= j < i ==> seed_wf(#[trigger] state.points@[j]),
        decreases n - i,
    {
        let p = state.points[i];
        let inside = -crate::lorenz::SEED_RANGE <= p.x && p.x <= crate::lorenz::SEED_RANGE
            && -crate::lorenz::SEED_RANGE <= p.y && p.y <= crate::lorenz::SEED_RANGE
            && -crate::lorenz::SEED_RANGE <= p.z && p.z <= crate::lorenz::SEED_RANGE;
        if !inside || (p.x == 0 && p.y == 0 && p.z == 0) {
            proof {
                assert(!seed_wf(state.points@[i as int]));
            }
            return Err(ConfigError::DegenerateSeed);
        }
        i = i + 1;
    }
    Ok(())
}

/// The host-side mirror of the uniform block handed to the compute
/// dispatch: the attractor parameters and the workgroup counts. The GPU
/// block appends alignment padding; its byte layout is produced outside
/// the library.
#[derive(Clone, Copy, PartialEq, Eq, Structural, Debug)]
pub struct ConfigComputeShader {
    pub lorenz: LorenzConfig,
    pub num_workgroups: DispatchShape,
}

impl ConfigComputeShader {
    pub fn from_config(cfg: &Config) -> (r: Self)
        ensures
            r.lorenz == cfg.lorenz,
            r.num_workgroups == cfg.num_workgroups,
    {
        ConfigComputeShader { lorenz: cfg.lorenz, num_workgroups: cfg.num_workgroups }
    }
}

/// The host-side mirror of the uniform block handed to the draw shader.
#[derive(Clone, Copy, PartialEq, Eq, Structural, Debug)]
pub struct ConfigDrawShader {
    pub smooth_shading: u32,
}

impl ConfigDrawShader {
    pub fn from_config(cfg: &Config) -> (r: Self)
        ensures
            r.smooth_shading == (if cfg.smooth_shading {
                1u32
            } else {
                0u32
            }),
    {
        ConfigDrawShader { smooth_shading: if cfg.smooth_shading { 1 } else { 0 } }
    }
}

} // verus!
