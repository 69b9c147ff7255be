//! The simulation stage: a dispatch geometry that must cover the point
//! buffer, and the step that advances every slot by exactly one Euler
//! step. The host loop here is the reference semantics a parallel
//! dispatch must reproduce slot for slot.

use crate::fixed::lemma_mul_abs_le;
use crate::lorenz::{coords_wf, integrate, spec_integrate, LorenzConfig, LorenzState, DT_LIMIT};
use vstd::prelude::*;

verus! {

/// Invocations per workgroup of the dispatch geometry.
pub const WORKGROUP_SIZE: u32 = 1;

/// Workgroup counts along the three dispatch axes.
#[derive(Clone, Copy, PartialEq, Eq, Structural, Debug)]
pub struct DispatchShape {
    pub x: u32,
    pub y: u32,
    pub z: u32,
}

/// Total invocations the shape launches.
pub open spec fn invocations(shape: DispatchShape) -> int {
    shape.x * shape.y * shape.z * WORKGROUP_SIZE
}

/// The shape launches at least one invocation per buffer slot. A shape
/// that under-covers would leave a subset of points silently unchanged,
/// so it is rejected at configuration time.
pub open spec fn covers(shape: DispatchShape, n: int) -> bool {
    invocations(shape) >= n
}

impl DispatchShape {
    pub fn covers_count(&self, n: usize) -> (b: bool)
        ensures
            b == covers(*self, n as int),
    {
        proof {
            lemma_mul_abs_le(self.x as int, self.y as int, 4294967295int, 4294967295int);
            lemma_mul_abs_le(
                (self.x as int) * (self.y as int),
                self.z as int,
                18446744065119617025int,
                4294967295int,
            );
            lemma_mul_abs_le(
                (self.x as int) * (self.y as int) * (self.z as int),
                WORKGROUP_SIZE as int,
                79228162458924105385300197375int,
                4294967295int,
            );
        }
        let total = (self.x as u128) * (self.y as u128) * (self.z as u128) * (WORKGROUP_SIZE
            as u128);
        total >= n as u128
    }
}

/// Advance every buffer slot by exactly one `dt`-sized integration step;
/// no slot is skipped and none is updated twice. A non-positive `dt` is a
/// caller error and the step is a no-op, not a panic.
pub fn step(state: &mut LorenzState, cfg: &LorenzConfig, dt: i64, shape: DispatchShape)
    requires
        cfg.wf(),
        forall|i: int|
            0 <= i < old(state).points@.len() ==> coords_wf(#[trigger] old(state).points@[i]),
        dt <= DT_LIMIT,
        covers(shape, old(state).points@.len() as int),
    ensures
        final(state).points@.len() == old(state).points@.len(),
        dt > 0 ==> forall|i: int|
            0 <= i < old(state).points@.len() ==> #[trigger] final(state).points@[i]
                == spec_integrate(*cfg, dt, old(state).points@[i]),
        dt <= 0 ==> *final(state) == *old(state),
        forall|i: int|
            0 <= i < final(state).points@.len() ==> coords_wf(#[trigger] final(state).points@[i]),
{
    if dt <= 0 {
        return ;
    }
    let n = state.points.len();
    let mut i: usize = 0;
    while i < n
        invariant
            0 < dt <= DT_LIMIT,
            cfg.wf(),
            i <= n,
            state.points@.len() == n,
            old(state).points@.len() == n,
            forall|j: int|
                0 <= j < n ==> coords_wf(#[trigger] old(state).points@[j]),
            forall|j: int|
                0 <= j < i ==> #[trigger] state.points@[j] == spec_integrate(
                    *cfg,
                    dt,
                    old(state).points@[j],
                ),
            forall|j: int|
                i <= j < n ==> #[trigger] state.points@[j] == old(state).points@[j],
            forall|j: int|
                0 <= j < n ==> coords_wf(#[trigger] state.points@[j]),
        decreases n - i,
    {
        let p = state.points[i];
        let q = integrate(cfg, dt, &p);
        state.points.set(i, q);
        i = i + 1;
    }
}

} // verus!
