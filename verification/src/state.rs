//! The frame orchestrator: one iteration per displayed frame, binding
//! input, the (optional) simulation step, the camera update and the draw
//! decision, plus the pause and single-step semantics.

use crate::camera::{
    spec_build_view_projection, spec_update_controller, spec_update_entity, Camera,
};
use crate::compute::{covers, step, DispatchShape};
use crate::config::{Config, DEFAULT_DELTA_TIME};
use crate::lorenz::{coords_wf, spec_integrate, LorenzConfig, LorenzState, DT_LIMIT};
use crate::vec3::FxVec3;
use crate::vertex::SQUARE_VERTEX_COUNT;
use vstd::prelude::*;

verus! {

/// The long-lived application state the orchestrator drives.
pub struct State {
    pub lorenz_state: LorenzState,
    pub camera: Camera,
    pub config: Config,
    pub delta_time: i64,
    pub paused: bool,
    pub cursor_grab: bool,
}

/// The buffer after one simulation step of size `dt`.
pub open spec fn spec_points_stepped(cfg: LorenzConfig, dt: i64, pts: Seq<FxVec3>) -> Seq<FxVec3> {
    Seq::new(pts.len(), |i: int| spec_integrate(cfg, dt, pts[i]))
}

/// The buffer after one whole frame: stepped once while running, left
/// untouched while paused (or when no time passed).
pub open spec fn spec_frame_points(
    paused: bool,
    cfg: LorenzConfig,
    dt: i64,
    pts: Seq<FxVec3>,
) -> Seq<FxVec3> {
    if paused || dt <= 0 {
        pts
    } else {
        spec_points_stepped(cfg, dt, pts)
    }
}

/// The buffer after `n` frames with a fixed pause flag and step size.
pub open spec fn spec_frames_points(
    paused: bool,
    cfg: LorenzConfig,
    dt: i64,
    pts: Seq<FxVec3>,
    n: nat,
) -> Seq<FxVec3>
    decreases n,
{
    if n == 0 {
        pts
    } else {
        spec_frame_points(paused, cfg, dt, spec_frames_points(paused, cfg, dt, pts, (n - 1) as nat))
    }
}

/// While the pause flag is set, the simulation is never invoked: after
/// any number of elapsed frames the buffer is bit-for-bit unchanged.
pub proof fn lemma_paused_frames_leave_points(
    cfg: LorenzConfig,
    dt: i64,
    pts: Seq<FxVec3>,
    n: nat,
)
    ensures
        spec_frames_points(true, cfg, dt, pts, n) == pts,
    decreases n,
{
    if n > 0 {
        lemma_paused_frames_leave_points(cfg, dt, pts, (n - 1) as nat);
    }
}

impl State {
    pub open spec fn wf(self) -> bool {
        &&& self.camera.wf()
        &&& self.config.lorenz.wf()
        &&& 0 <= self.delta_time <= DT_LIMIT
        &&& covers(self.config.num_workgroups, self.lorenz_state.points@.len() as int)
        &&& forall|i: int|
            0 <= i < self.lorenz_state.points@.len() ==> coords_wf(
                #[trigger] self.lorenz_state.points@[i],
            )
    }

    /// Assemble the whole application state for a surface of the given
    /// pixel size: default configuration, randomly seeded ensemble,
    /// starting camera; paused, cursor not captured.
    pub fn new(width: u32, height: u32, paused: bool) -> (s: State)
        requires
            1 <= width <= 16384,
            1 <= height <= 16384,
        ensures
            s.wf(),
            s.paused == paused,
            !s.cursor_grab,
            s.delta_time == DEFAULT_DELTA_TIME,
            s.config == (Config {
                lorenz: LorenzConfig { sigma: 10_000_000i64, rho: 28_000_000i64, beta: 2_666_667i64 },
                num_lorenz_points: 1_000_000usize,
                num_workgroups: DispatchShape { x: 100u32, y: 100u32, z: 100u32 },
                smooth_shading: false,
            }),
            s.lorenz_state.points@.len() == s.config.num_lorenz_points,
            forall|i: int|
                0 <= i < s.lorenz_state.points@.len() ==> crate::lorenz::seed_wf(
                    #[trigger] s.lorenz_state.points@[i],
                ),
    {
        let config = Config::default();
        let lorenz_state = LorenzState::new(config.num_lorenz_points);
        let camera = Camera::create_camera(width, height);
        proof {
            assert(covers(
                DispatchShape { x: 100u32, y: 100u32, z: 100u32 },
                1_000_000int,
            )) by (nonlinear_arith);
        }
        State {
            lorenz_state,
            camera,
            config,
            delta_time: DEFAULT_DELTA_TIME,
            paused,
            cursor_grab: false,
        }
    }

    /// One simulation step over the whole buffer (submitted as a compute
    /// dispatch by the embedding; this is its slot-for-slot semantics).
    pub fn update_lorenz(&mut self, dt: i64)
        requires
            old(self).wf(),
            dt <= DT_LIMIT,
        ensures
            final(self).wf(),
            final(self).lorenz_state.points@ == spec_frame_points(
                false,
                old(self).config.lorenz,
                dt,
                old(self).lorenz_state.points@,
            ),
            final(self).camera == old(self).camera,
            final(self).config == old(self).config,
            final(self).delta_time == old(self).delta_time,
            final(self).paused == old(self).paused,
            final(self).cursor_grab == old(self).cursor_grab,
    {
        let shape = self.config.num_workgroups;
        let ghost cfg0 = self.config.lorenz;
        let cfg = self.config.lorenz;
        step(&mut self.lorenz_state, &cfg, dt, shape);
        proof {
            if dt > 0 {
                assert(self.lorenz_state.points@ =~= spec_points_stepped(
                    cfg0,
                    dt,
                    old(self).lorenz_state.points@,
                ));
            }
        }
    }

    /// One frame: advance the simulation unless paused, update the
    /// camera while the cursor is captured, and hand back the draw
    /// parameters (vertices per quad, instances to draw).
    pub fn frame(&mut self) -> (draw: (u32, usize))
        requires
            old(self).wf(),
        ensures
            final(self).wf(),
            final(self).lorenz_state.points@ == spec_frame_points(
                old(self).paused,
                old(self).config.lorenz,
                old(self).delta_time,
                old(self).lorenz_state.points@,
            ),
            old(self).paused ==> final(self).lorenz_state.points@ == old(self).lorenz_state.points@,
            old(self).cursor_grab ==> final(self).camera.entity == spec_update_entity(
                old(self).camera.controller,
                old(self).camera.entity,
                old(self).delta_time,
            ) && final(self).camera.controller == spec_update_controller(
                old(self).camera.controller,
            ) && final(self).camera.uniform == spec_build_view_projection(
                final(self).camera.entity,
            ),
            !old(self).cursor_grab ==> final(self).camera == old(self).camera,
            final(self).config == old(self).config,
            final(self).delta_time == old(self).delta_time,
            final(self).paused == old(self).paused,
            final(self).cursor_grab == old(self).cursor_grab,
            draw == (SQUARE_VERTEX_COUNT, old(self).config.num_lorenz_points),
    {
        if !self.paused {
            let dt = self.delta_time;
            self.update_lorenz(dt);
        }
        if self.cursor_grab {
            let dt = self.delta_time;
            self.camera.update(dt);
        }
        (SQUARE_VERTEX_COUNT, self.config.num_lorenz_points)
    }

    /// Record the wall-clock time since the previous frame as the next
    /// frame's step size, held inside the range the integrator accepts.
    pub fn end_frame(&mut self, elapsed: i64)
        requires
            old(self).wf(),
        ensures
            final(self).wf(),
            final(self).delta_time == (if elapsed <= 0 {
                0i64
            } else if elapsed > DT_LIMIT {
                DT_LIMIT as i64
            } else {
                elapsed
            }),
            final(self).lorenz_state == old(self).lorenz_state,
            final(self).camera == old(self).camera,
            final(self).config == old(self).config,
            final(self).paused == old(self).paused,
            final(self).cursor_grab == old(self).cursor_grab,
    {
        self.delta_time = if elapsed <= 0 {
            0
        } else if elapsed > DT_LIMIT {
            DT_LIMIT
        } else {
            elapsed
        };
    }

    /// Route one mouse-motion delta to the camera controller.
    pub fn handle_mouse(&mut self, dx: i64, dy: i64)
        requires
            old(self).wf(),
        ensures
            final(self).wf(),
            final(self).camera.controller == crate::camera::spec_accumulate_delta(
                old(self).camera.controller,
                dx,
                dy,
            ),
            final(self).camera.entity == old(self).camera.entity,
            final(self).camera.uniform == old(self).camera.uniform,
            final(self).lorenz_state == old(self).lorenz_state,
            final(self).config == old(self).config,
            final(self).delta_time == old(self).delta_time,
            final(self).paused == old(self).paused,
            final(self).cursor_grab == old(self).cursor_grab,
    {
        self.camera.controller.handle_mouse_movement(dx, dy);
    }
}

} // verus!
