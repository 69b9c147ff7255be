//! The free-fly camera: held-key flags, accumulated mouse deltas, and the
//! per-frame update that yaws, pitches (with the clamp that prevents the
//! gimbal flip), renormalizes the view direction and translates the
//! position.
//!
//! Invariant: after every update the direction is unit length within
//! `UNIT_TOL` and never parallel to the fixed up axis, so the right
//! vector `dir x up` never degenerates.

use crate::fixed::{
    clamp, clamp_i128, div_round, div_round_i128, lemma_div_round_err, lemma_div_round_exact,
    lemma_div_round_le, lemma_isqrt_bounds, lemma_mul_abs_le, mul_ii, spec_isqrt, SCALE, SCALE_SQ,
};
use crate::lorenz::DT_LIMIT;
use crate::trig::{fx_sincos, spec_fx_cos, spec_fx_sin, ANGLE_LIMIT};
use crate::vec3::{
    comps_le, cross_x, cross_y, cross_z, dot, fx_cross, fx_dot, lemma_brahmagupta,
    lemma_cross_norm, lemma_dot_cross_zero, lemma_renormalize_comps, lemma_renormalize_keeps_axis,
    lemma_renormalize_unit, lemma_sq_nonneg, lemma_squares_nonneg, norm_sq, renormalize,
    spec_renormalize, FxVec3, UNIT_TOL,
};
use vstd::prelude::*;

verus! {

/// Default translation speed: 100 units per second.
pub const SPEED: i64 = 100_000_000;

/// Default mouse sensitivity: 0.1 degrees per count of delta.
pub const SENS: i64 = 100_000;

/// Largest translation speed a controller accepts.
pub const SPEED_LIMIT: i64 = 1_000_000_000;

/// Largest sensitivity a controller accepts.
pub const SENS_LIMIT: i64 = 10_000_000;

/// Accumulated mouse delta saturates here, so one frame's rotation stays
/// within the angle range the trigonometry accepts.
pub const DELTA_SAT: i64 = 3_600_000_000_000;

/// Camera position saturates here along each axis.
pub const POS_LIMIT: i64 = 1_000_000_000_000;

/// The fixed world up axis.
pub open spec fn up_vec() -> FxVec3 {
    FxVec3 { x: 0, y: SCALE, z: 0 }
}

/// The direction invariant: unit length within `UNIT_TOL`, and a nonzero
/// horizontal part, so the direction is never parallel to the up axis.
pub open spec fn dir_wf(d: FxVec3) -> bool {
    &&& SCALE_SQ - UNIT_TOL <= norm_sq(d) <= SCALE_SQ + UNIT_TOL
    &&& (d.x != 0 || d.z != 0)
}

/// The keys the application routes to the library.
#[derive(Clone, Copy, PartialEq, Eq, Structural, Debug)]
pub enum KeyCode {
    W,
    A,
    S,
    D,
    Up,
    Down,
    Left,
    Right,
    Space,
    Return,
    Slash,
    Escape,
    Other,
}

/// The view entity: position, direction, the fixed up axis and the
/// projection parameters.
#[derive(Clone, Copy, PartialEq, Eq, Structural, Debug)]
pub struct CameraEntity {
    pub pos: FxVec3,
    pub dir: FxVec3,
    pub up: FxVec3,
    pub aspect_ratio: i64,
    /// Vertical field of view, in fixed-point degrees.
    pub fov_y: i64,
    pub z_near: i64,
    pub z_far: i64,
}

impl CameraEntity {
    pub open spec fn wf(self) -> bool {
        &&& dir_wf(self.dir)
        &&& self.up == up_vec()
        &&& comps_le(self.pos, POS_LIMIT as int)
        &&& SCALE <= self.fov_y <= 179_000_000
        &&& 1 <= self.aspect_ratio <= 16_384_000_000
        &&& 1 <= self.z_near
        &&& self.z_near + SCALE <= self.z_far <= 1_000_000_000_000
    }
}

/// Turns input events into per-frame direction and position changes.
#[derive(Clone, Copy, PartialEq, Eq, Structural, Debug)]
pub struct CameraController {
    pub speed: i64,
    pub sens: i64,
    pub is_forward_pressed: bool,
    pub is_backward_pressed: bool,
    pub is_left_pressed: bool,
    pub is_right_pressed: bool,
    pub delta_x: i64,
    pub delta_y: i64,
}

impl CameraController {
    pub open spec fn wf(self) -> bool {
        &&& 0 <= self.speed <= SPEED_LIMIT
        &&& 0 <= self.sens <= SENS_LIMIT
        &&& -DELTA_SAT <= self.delta_x <= DELTA_SAT
        &&& -DELTA_SAT <= self.delta_y <= DELTA_SAT
    }
}

pub open spec fn is_forward_key(k: KeyCode) -> bool {
    k == KeyCode::W || k == KeyCode::Up
}

pub open spec fn is_left_key(k: KeyCode) -> bool {
    k == KeyCode::A || k == KeyCode::Left
}

pub open spec fn is_backward_key(k: KeyCode) -> bool {
    k == KeyCode::S || k == KeyCode::Down
}

pub open spec fn is_right_key(k: KeyCode) -> bool {
    k == KeyCode::D || k == KeyCode::Right
}

/// Whether the camera controller consumes the key.
pub open spec fn key_consumed(k: KeyCode) -> bool {
    is_forward_key(k) || is_left_key(k) || is_backward_key(k) || is_right_key(k)
}

/// The controller after one key event.
pub open spec fn spec_handle_key(c: CameraController, k: KeyCode, pressed: bool) -> CameraController {
    if is_forward_key(k) {
        CameraController { is_forward_pressed: pressed, ..c }
    } else if is_left_key(k) {
        CameraController { is_left_pressed: pressed, ..c }
    } else if is_backward_key(k) {
        CameraController { is_backward_pressed: pressed, ..c }
    } else if is_right_key(k) {
        CameraController { is_right_pressed: pressed, ..c }
    } else {
        c
    }
}

/// One accumulated mouse-motion delta, saturating.
pub open spec fn spec_accumulate_delta(c: CameraController, dx: i64, dy: i64) -> CameraController {
    CameraController {
        delta_x: clamp(c.delta_x + dx, DELTA_SAT as int) as i64,
        delta_y: clamp(c.delta_y + dy, DELTA_SAT as int) as i64,
        ..c
    }
}

/// Rotation angle for one accumulated delta: `-delta * sens` degrees.
pub open spec fn spec_angle(delta: i64, sens: i64) -> int {
    div_round(-(delta * sens), SCALE as int)
}

/// Rotation of `v` about the up axis (yaw), mirroring a rotation matrix
/// about y applied to a column vector.
pub open spec fn spec_rotate_y(v: FxVec3, c: i64, s: i64) -> FxVec3 {
    FxVec3 {
        x: div_round(v.x * c + v.z * s, SCALE as int) as i64,
        y: v.y,
        z: div_round(v.z * c - v.x * s, SCALE as int) as i64,
    }
}

/// Rodrigues' rotation of `v` about the unit-ish axis `a` by the angle
/// with cosine `c` and sine `s`.
pub open spec fn spec_rotate_axis(v: FxVec3, a: FxVec3, c: i64, s: i64) -> FxVec3 {
    let wx = div_round(cross_x(a, v), SCALE as int);
    let wy = div_round(cross_y(a, v), SCALE as int);
    let wz = div_round(cross_z(a, v), SCALE as int);
    let t1 = div_round(dot(a, v), SCALE as int);
    let t2 = div_round((SCALE - c) * t1, SCALE as int);
    FxVec3 {
        x: div_round(c * v.x + s * wx + t2 * a.x, SCALE as int) as i64,
        y: div_round(c * v.y + s * wy + t2 * a.y, SCALE as int) as i64,
        z: div_round(c * v.z + s * wz + t2 * a.z, SCALE as int) as i64,
    }
}

/// The cross product as a vector value (the camera's uses all fit `i64`).
pub open spec fn cross_vec(a: FxVec3, b: FxVec3) -> FxVec3 {
    FxVec3 { x: cross_x(a, b) as i64, y: cross_y(a, b) as i64, z: cross_z(a, b) as i64 }
}

/// The direction after the yaw stage.
pub open spec fn spec_dir_yawed(c: CameraController, d0: FxVec3) -> FxVec3 {
    let ya = spec_angle(c.delta_x, c.sens);
    spec_rotate_y(d0, spec_fx_cos(ya) as i64, spec_fx_sin(ya) as i64)
}

/// The pitch axis: the normalized right vector of the yawed direction.
pub open spec fn spec_pitch_axis(d1: FxVec3) -> FxVec3 {
    spec_renormalize(cross_vec(d1, up_vec()))
}

/// The candidate direction after the pitch stage.
pub open spec fn spec_pitch_candidate(c: CameraController, d1: FxVec3) -> FxVec3 {
    let pa = spec_angle(c.delta_y, c.sens);
    spec_rotate_axis(d1, spec_pitch_axis(d1), spec_fx_cos(pa) as i64, spec_fx_sin(pa) as i64)
}

/// The pitch clamp test: the candidate keeps the handedness of the right
/// vector. A dot product of exactly zero counts as a flip, so the
/// direction can never land exactly on a pole.
pub open spec fn spec_pitch_accept(d1: FxVec3, cand: FxVec3) -> bool {
    dot(cross_vec(d1, up_vec()), cross_vec(cand, up_vec())) > 0
}

/// The rejected-pitch fallback: snap the up-axis component to +/-1,
/// keeping the horizontal part.
pub open spec fn spec_pole_clamp(d1: FxVec3) -> FxVec3 {
    FxVec3 { x: d1.x, y: if d1.y >= 0 { SCALE } else { (-SCALE) as i64 }, z: d1.z }
}

/// The direction after one full update.
pub open spec fn spec_new_dir(c: CameraController, ent: CameraEntity) -> FxVec3 {
    let d0 = spec_renormalize(ent.dir);
    let d1 = spec_dir_yawed(c, d0);
    let cand = spec_pitch_candidate(c, d1);
    let d2 = if spec_pitch_accept(d1, cand) {
        cand
    } else {
        spec_pole_clamp(d1)
    };
    spec_renormalize(d2)
}

/// One translation step along `d`: `d * speed * dt`.
pub open spec fn spec_move_step(d: FxVec3, speed: i64, dt: i64) -> FxVec3 {
    FxVec3 {
        x: div_round(div_round(d.x * speed, SCALE as int) * dt, SCALE as int) as i64,
        y: div_round(div_round(d.y * speed, SCALE as int) * dt, SCALE as int) as i64,
        z: div_round(div_round(d.z * speed, SCALE as int) * dt, SCALE as int) as i64,
    }
}

pub open spec fn spec_pos_add(p: FxVec3, q: FxVec3) -> FxVec3 {
    FxVec3 {
        x: clamp(p.x + q.x, POS_LIMIT as int) as i64,
        y: clamp(p.y + q.y, POS_LIMIT as int) as i64,
        z: clamp(p.z + q.z, POS_LIMIT as int) as i64,
    }
}

pub open spec fn spec_pos_sub(p: FxVec3, q: FxVec3) -> FxVec3 {
    FxVec3 {
        x: clamp(p.x - q.x, POS_LIMIT as int) as i64,
        y: clamp(p.y - q.y, POS_LIMIT as int) as i64,
        z: clamp(p.z - q.z, POS_LIMIT as int) as i64,
    }
}

/// The position after the held-key translation, each move saturating at
/// `POS_LIMIT`. Diagonal movement is deliberately not normalized.
pub open spec fn spec_new_pos(c: CameraController, ent: CameraEntity, d3: FxVec3, dt: i64) -> FxVec3 {
    let fstep = spec_move_step(d3, c.speed, dt);
    let right = spec_renormalize(cross_vec(d3, up_vec()));
    let rstep = spec_move_step(right, c.speed, dt);
    let p1 = if c.is_forward_pressed {
        spec_pos_add(ent.pos, fstep)
    } else {
        ent.pos
    };
    let p2 = if c.is_backward_pressed {
        spec_pos_sub(p1, fstep)
    } else {
        p1
    };
    let p3 = if c.is_right_pressed {
        spec_pos_add(p2, rstep)
    } else {
        p2
    };
    if c.is_left_pressed {
        spec_pos_sub(p3, rstep)
    } else {
        p3
    }
}

/// The whole per-frame update of the view entity.
pub open spec fn spec_update_entity(c: CameraController, ent: CameraEntity, dt: i64) -> CameraEntity {
    let d3 = spec_new_dir(c, ent);
    CameraEntity { dir: d3, pos: spec_new_pos(c, ent, d3, dt), ..ent }
}

/// The controller after a frame update: the accumulated delta is consumed.
pub open spec fn spec_update_controller(c: CameraController) -> CameraController {
    CameraController { delta_x: 0, delta_y: 0, ..c }
}

impl CameraController {
    pub fn new(speed: i64, sens: i64) -> (c: Self)
        requires
            0 <= speed <= SPEED_LIMIT,
            0 <= sens <= SENS_LIMIT,
        ensures
            c == (CameraController {
                speed,
                sens,
                is_forward_pressed: false,
                is_backward_pressed: false,
                is_left_pressed: false,
                is_right_pressed: false,
                delta_x: 0i64,
                delta_y: 0i64,
            }),
            c.wf(),
    {
        CameraController {
            speed,
            sens,
            is_forward_pressed: false,
            is_backward_pressed: false,
            is_left_pressed: false,
            is_right_pressed: false,
            delta_x: 0,
            delta_y: 0,
        }
    }

    /// Route one key press or release into the held-direction flags;
    /// returns whether the event was relevant to the camera.
    pub fn handle_key_input(&mut self, key: KeyCode, pressed: bool) -> (consumed: bool)
        ensures
            *final(self) == spec_handle_key(*old(self), key, pressed),
            consumed == key_consumed(key),
            old(self).wf() ==> final(self).wf(),
    {
        match key {
            KeyCode::W | KeyCode::Up => {
                self.is_forward_pressed = pressed;
                true
            },
            KeyCode::A | KeyCode::Left => {
                self.is_left_pressed = pressed;
                true
            },
            KeyCode::S | KeyCode::Down => {
                self.is_backward_pressed = pressed;
                true
            },
            KeyCode::D | KeyCode::Right => {
                self.is_right_pressed = pressed;
                true
            },
            _ => false,
        }
    }

    /// Accumulate one mouse-motion delta. The rotation itself is applied
    /// once per frame, not per event.
    pub fn handle_mouse_movement(&mut self, dx: i64, dy: i64)
        ensures
            *final(self) == spec_accumulate_delta(*old(self), dx, dy),
            old(self).wf() ==> final(self).wf(),
    {
        self.delta_x = clamp_i128((self.delta_x as i128) + (dx as i128), DELTA_SAT);
        self.delta_y = clamp_i128((self.delta_y as i128) + (dy as i128), DELTA_SAT);
    }
}

/// Executable yaw rotation.
fn rotate_y(v: &FxVec3, c: i64, s: i64) -> (r: FxVec3)
    requires
        comps_le(*v, 1_100_000int),
        -SCALE <= c <= SCALE,
        -SCALE <= s <= SCALE,
    ensures
        r == spec_rotate_y(*v, c, s),
        comps_le(r, 2_300_000int),
{
    proof {
        lemma_mul_abs_le(v.x as int, c as int, 1_100_000, SCALE as int);
        lemma_mul_abs_le(v.z as int, s as int, 1_100_000, SCALE as int);
        lemma_mul_abs_le(v.z as int, c as int, 1_100_000, SCALE as int);
        lemma_mul_abs_le(v.x as int, s as int, 1_100_000, SCALE as int);
        lemma_div_round_le(v.x * c + v.z * s, SCALE as int, 2_300_000);
        lemma_div_round_le(v.z * c - v.x * s, SCALE as int, 2_300_000);
    }
    let x = div_round_i128(mul_ii(v.x, c) + mul_ii(v.z, s), SCALE as i128) as i64;
    let z = div_round_i128(mul_ii(v.z, c) - mul_ii(v.x, s), SCALE as i128) as i64;
    FxVec3 { x, y: v.y, z }
}

/// Executable Rodrigues rotation about a unit-ish axis.
fn rotate_axis(v: &FxVec3, a: &FxVec3, c: i64, s: i64) -> (r: FxVec3)
    requires
        comps_le(*v, 2_300_000int),
        comps_le(*a, 1_100_000int),
        -SCALE <= c <= SCALE,
        -SCALE <= s <= SCALE,
    ensures
        r == spec_rotate_axis(*v, *a, c, s),
        comps_le(r, 25_000_000int),
{
    proof {
        lemma_mul_abs_le(a.y as int, v.z as int, 1_100_000, 2_300_000);
        lemma_mul_abs_le(a.z as int, v.y as int, 1_100_000, 2_300_000);
        lemma_mul_abs_le(a.z as int, v.x as int, 1_100_000, 2_300_000);
        lemma_mul_abs_le(a.x as int, v.z as int, 1_100_000, 2_300_000);
        lemma_mul_abs_le(a.x as int, v.y as int, 1_100_000, 2_300_000);
        lemma_mul_abs_le(a.y as int, v.x as int, 1_100_000, 2_300_000);
        lemma_mul_abs_le(a.x as int, v.x as int, 1_100_000, 2_300_000);
        lemma_mul_abs_le(a.y as int, v.y as int, 1_100_000, 2_300_000);
        lemma_mul_abs_le(a.z as int, v.z as int, 1_100_000, 2_300_000);
        lemma_div_round_le(cross_x(*a, *v), SCALE as int, 5_100_000);
        lemma_div_round_le(cross_y(*a, *v), SCALE as int, 5_100_000);
        lemma_div_round_le(cross_z(*a, *v), SCALE as int, 5_100_000);
        lemma_div_round_le(dot(*a, *v), SCALE as int, 7_700_000);
    }
    let wx = div_round_i128(mul_ii(a.y, v.z) - mul_ii(a.z, v.y), SCALE as i128);
    let wy = div_round_i128(mul_ii(a.z, v.x) - mul_ii(a.x, v.z), SCALE as i128);
    let wz = div_round_i128(mul_ii(a.x, v.y) - mul_ii(a.y, v.x), SCALE as i128);
    let t1 = div_round_i128(
        mul_ii(a.x, v.x) + mul_ii(a.y, v.y) + mul_ii(a.z, v.z),
        SCALE as i128,
    );
    proof {
        lemma_mul_abs_le(SCALE - c, div_round(dot(*a, *v), SCALE as int), 2_000_000, 7_700_000);
        lemma_div_round_le(
            (SCALE - c) * div_round(dot(*a, *v), SCALE as int),
            SCALE as int,
            15_500_000,
        );
    }
    let t2 = div_round_i128(((SCALE - c) as i128) * t1, SCALE as i128);
    proof {
        let t2i = div_round((SCALE - c) * div_round(dot(*a, *v), SCALE as int), SCALE as int);
        lemma_mul_abs_le(c as int, v.x as int, SCALE as int, 2_300_000);
        lemma_mul_abs_le(c as int, v.y as int, SCALE as int, 2_300_000);
        lemma_mul_abs_le(c as int, v.z as int, SCALE as int, 2_300_000);
        lemma_mul_abs_le(s as int, div_round(cross_x(*a, *v), SCALE as int), SCALE as int, 5_100_000);
        lemma_mul_abs_le(s as int, div_round(cross_y(*a, *v), SCALE as int), SCALE as int, 5_100_000);
        lemma_mul_abs_le(s as int, div_round(cross_z(*a, *v), SCALE as int), SCALE as int, 5_100_000);
        lemma_mul_abs_le(t2i, a.x as int, 15_500_000, 1_100_000);
        lemma_mul_abs_le(t2i, a.y as int, 15_500_000, 1_100_000);
        lemma_mul_abs_le(t2i, a.z as int, 15_500_000, 1_100_000);
        lemma_div_round_le(
            c * v.x + s * div_round(cross_x(*a, *v), SCALE as int) + t2i * a.x,
            SCALE as int,
            25_000_000,
        );
        lemma_div_round_le(
            c * v.y + s * div_round(cross_y(*a, *v), SCALE as int) + t2i * a.y,
            SCALE as int,
            25_000_000,
        );
        lemma_div_round_le(
            c * v.z + s * div_round(cross_z(*a, *v), SCALE as int) + t2i * a.z,
            SCALE as int,
            25_000_000,
        );
    }
    let x = div_round_i128((c as i128) * (v.x as i128) + (s as i128) * wx + t2 * (a.x as i128), SCALE as i128) as i64;
    let y = div_round_i128((c as i128) * (v.y as i128) + (s as i128) * wy + t2 * (a.y as i128), SCALE as i128) as i64;
    let z = div_round_i128((c as i128) * (v.z as i128) + (s as i128) * wz + t2 * (a.z as i128), SCALE as i128) as i64;
    FxVec3 { x, y, z }
}

/// Executable translation step.
fn move_step(d: &FxVec3, speed: i64, dt: i64) -> (r: FxVec3)
    requires
        comps_le(*d, 1_100_000int),
        0 <= speed <= SPEED_LIMIT,
        -DT_LIMIT <= dt <= DT_LIMIT,
    ensures
        r == spec_move_step(*d, speed, dt),
        comps_le(r, 1_200_000_000_000_000int),
{
    proof {
        lemma_mul_abs_le(d.x as int, speed as int, 1_100_000, SPEED_LIMIT as int);
        lemma_mul_abs_le(d.y as int, speed as int, 1_100_000, SPEED_LIMIT as int);
        lemma_mul_abs_le(d.z as int, speed as int, 1_100_000, SPEED_LIMIT as int);
        lemma_div_round_le(d.x * speed, SCALE as int, 1_200_000_000);
        lemma_div_round_le(d.y * speed, SCALE as int, 1_200_000_000);
        lemma_div_round_le(d.z * speed, SCALE as int, 1_200_000_000);
        lemma_mul_abs_le(div_round(d.x * speed, SCALE as int), dt as int, 1_200_000_000, DT_LIMIT as int);
        lemma_mul_abs_le(div_round(d.y * speed, SCALE as int), dt as int, 1_200_000_000, DT_LIMIT as int);
        lemma_mul_abs_le(div_round(d.z * speed, SCALE as int), dt as int, 1_200_000_000, DT_LIMIT as int);
        lemma_div_round_le(div_round(d.x * speed, SCALE as int) * dt, SCALE as int, 1_200_000_000_000_000);
        lemma_div_round_le(div_round(d.y * speed, SCALE as int) * dt, SCALE as int, 1_200_000_000_000_000);
        lemma_div_round_le(div_round(d.z * speed, SCALE as int) * dt, SCALE as int, 1_200_000_000_000_000);
    }
    let sx = div_round_i128(mul_ii(d.x, speed), SCALE as i128);
    let sy = div_round_i128(mul_ii(d.y, speed), SCALE as i128);
    let sz = div_round_i128(mul_ii(d.z, speed), SCALE as i128);
    let x = div_round_i128(sx * (dt as i128), SCALE as i128) as i64;
    let y = div_round_i128(sy * (dt as i128), SCALE as i128) as i64;
    let z = div_round_i128(sz * (dt as i128), SCALE as i128) as i64;
    FxVec3 { x, y, z }
}

fn pos_add(p: &FxVec3, q: &FxVec3) -> (r: FxVec3)
    requires
        comps_le(*p, POS_LIMIT as int),
        comps_le(*q, 1_200_000_000_000_000int),
    ensures
        r == spec_pos_add(*p, *q),
        comps_le(r, POS_LIMIT as int),
{
    FxVec3 {
        x: clamp_i128((p.x as i128) + (q.x as i128), POS_LIMIT),
        y: clamp_i128((p.y as i128) + (q.y as i128), POS_LIMIT),
        z: clamp_i128((p.z as i128) + (q.z as i128), POS_LIMIT),
    }
}

fn pos_sub(p: &FxVec3, q: &FxVec3) -> (r: FxVec3)
    requires
        comps_le(*p, POS_LIMIT as int),
        comps_le(*q, 1_200_000_000_000_000int),
    ensures
        r == spec_pos_sub(*p, *q),
        comps_le(r, POS_LIMIT as int),
{
    FxVec3 {
        x: clamp_i128((p.x as i128) - (q.x as i128), POS_LIMIT),
        y: clamp_i128((p.y as i128) - (q.y as i128), POS_LIMIT),
        z: clamp_i128((p.z as i128) - (q.z as i128), POS_LIMIT),
    }
}

/// A direction within `UNIT_TOL` of unit length has small components.
proof fn lemma_dir_comps(d: FxVec3)
    requires
        norm_sq(d) <= SCALE_SQ + UNIT_TOL,
    ensures
        comps_le(d, 1_100_000int),
{
    lemma_squares_nonneg(d);
    assert(-1_100_000 <= d.x <= 1_100_000) by (nonlinear_arith)
        requires
            d.x * d.x <= 1_001_000_000_000,
    ;
    assert(-1_100_000 <= d.y <= 1_100_000) by (nonlinear_arith)
        requires
            d.y * d.y <= 1_001_000_000_000,
    ;
    assert(-1_100_000 <= d.z <= 1_100_000) by (nonlinear_arith)
        requires
            d.z * d.z <= 1_001_000_000_000,
    ;
}

/// Yaw cannot zero the horizontal part of the direction.
proof fn lemma_yaw_keeps_axis(v: FxVec3, c: i64, s: i64)
    requires
        comps_le(v, 1_100_000int),
        v.x != 0 || v.z != 0,
        -SCALE <= c <= SCALE,
        -SCALE <= s <= SCALE,
        c * c + s * s >= SCALE_SQ - 2 * SCALE - 1,
    ensures
        spec_rotate_y(v, c, s).x != 0 || spec_rotate_y(v, c, s).z != 0,
{
    let ax = v.x * c + v.z * s;
    let bz = v.z * c - v.x * s;
    lemma_mul_abs_le(v.x as int, c as int, 1_100_000, SCALE as int);
    lemma_mul_abs_le(v.z as int, s as int, 1_100_000, SCALE as int);
    lemma_mul_abs_le(v.z as int, c as int, 1_100_000, SCALE as int);
    lemma_mul_abs_le(v.x as int, s as int, 1_100_000, SCALE as int);
    lemma_div_round_le(ax, SCALE as int, 2_300_000);
    lemma_div_round_le(bz, SCALE as int, 2_300_000);
    let rx = div_round(ax, SCALE as int);
    let rz = div_round(bz, SCALE as int);
    if rx == 0 && rz == 0 {
        lemma_div_round_err(ax, SCALE as int);
        lemma_div_round_err(bz, SCALE as int);
        assert(-500_000 <= ax <= 500_000 && -500_000 <= bz <= 500_000);
        lemma_brahmagupta(v.x as int, v.z as int, c as int, s as int);
        assert((v.x * s - v.z * c) * (v.x * s - v.z * c) == bz * bz) by (nonlinear_arith)
            requires
                bz == v.z * c - v.x * s,
        ;
        assert(ax * ax + bz * bz <= 500_000_000_000) by (nonlinear_arith)
            requires
                -500_000 <= ax <= 500_000,
                -500_000 <= bz <= 500_000,
        ;
        assert(v.x * v.x + v.z * v.z >= 1) by (nonlinear_arith)
            requires
                v.x != 0 || v.z != 0,
        ;
        assert((v.x * v.x + v.z * v.z) * (c * c + s * s) >= SCALE_SQ - 2 * SCALE - 1)
            by (nonlinear_arith)
            requires
                v.x * v.x + v.z * v.z >= 1,
                c * c + s * s >= SCALE_SQ - 2 * SCALE - 1,
                SCALE_SQ == 1_000_000_000_000,
                SCALE == 1_000_000,
        ;
        assert(false);
    }
}

/// Yaw changes the squared norm only within a narrow band.
proof fn lemma_yaw_norm(v: FxVec3, c: i64, s: i64)
    requires
        SCALE_SQ - UNIT_TOL <= norm_sq(v) <= SCALE_SQ + UNIT_TOL,
        comps_le(v, 1_100_000int),
        -SCALE <= c <= SCALE,
        -SCALE <= s <= SCALE,
        SCALE_SQ - 2 * SCALE - 1 <= c * c + s * s <= SCALE_SQ,
    ensures
        norm_sq(v) - 20_000_000 <= norm_sq(spec_rotate_y(v, c, s)) <= norm_sq(v) + 20_000_000,
{
    let ax = v.x * c + v.z * s;
    let bz = v.z * c - v.x * s;
    lemma_mul_abs_le(v.x as int, c as int, 1_100_000, SCALE as int);
    lemma_mul_abs_le(v.z as int, s as int, 1_100_000, SCALE as int);
    lemma_mul_abs_le(v.z as int, c as int, 1_100_000, SCALE as int);
    lemma_mul_abs_le(v.x as int, s as int, 1_100_000, SCALE as int);
    lemma_div_round_le(ax, SCALE as int, 2_300_000);
    lemma_div_round_le(bz, SCALE as int, 2_300_000);
    let r = spec_rotate_y(v, c, s);
    let rx = div_round(ax, SCALE as int);
    let rz = div_round(bz, SCALE as int);
    assert(r.x == rx && r.z == rz && r.y == v.y);
    lemma_div_round_err(ax, SCALE as int);
    lemma_div_round_err(bz, SCALE as int);
    let ex = SCALE * rx - ax;
    let ez = SCALE * rz - bz;
    assert(-500_000 <= ex <= 500_000 && -500_000 <= ez <= 500_000);
    lemma_brahmagupta(v.x as int, v.z as int, c as int, s as int);
    assert((v.x * s - v.z * c) * (v.x * s - v.z * c) == bz * bz) by (nonlinear_arith)
        requires
            bz == v.z * c - v.x * s,
    ;
    let h = v.x * v.x + v.z * v.z;
    let q = c * c + s * s;
    lemma_squares_nonneg(v);
    assert(0 <= h && h <= SCALE_SQ + UNIT_TOL);
    assert(ax * ax + bz * bz == h * q);
    assert((SCALE * rx) * (SCALE * rx) == SCALE_SQ * (rx * rx)) by (nonlinear_arith)
        requires
            SCALE_SQ == SCALE * SCALE,
    ;
    assert((SCALE * rz) * (SCALE * rz) == SCALE_SQ * (rz * rz)) by (nonlinear_arith)
        requires
            SCALE_SQ == SCALE * SCALE,
    ;
    assert((ax + ex) * (ax + ex) == ax * ax + 2 * (ax * ex) + ex * ex) by (nonlinear_arith);
    assert((bz + ez) * (bz + ez) == bz * bz + 2 * (bz * ez) + ez * ez) by (nonlinear_arith);
    assert(-1_150_000_000_000_000_000 <= ax * ex <= 1_150_000_000_000_000_000) by (nonlinear_arith)
        requires
            -2_300_000_000_000 <= ax <= 2_300_000_000_000,
            -500_000 <= ex <= 500_000,
    ;
    assert(-1_150_000_000_000_000_000 <= bz * ez <= 1_150_000_000_000_000_000) by (nonlinear_arith)
        requires
            -2_300_000_000_000 <= bz <= 2_300_000_000_000,
            -500_000 <= ez <= 500_000,
    ;
    assert(0 <= ex * ex <= 250_000_000_000 && 0 <= ez * ez <= 250_000_000_000) by (nonlinear_arith)
        requires
            -500_000 <= ex <= 500_000,
            -500_000 <= ez <= 500_000,
    ;
    assert(SCALE_SQ * (rx * rx + rz * rz) == h * q + 2 * (ax * ex) + 2 * (bz * ez) + ex * ex + ez
        * ez);
    assert(h * q <= h * SCALE_SQ && h * q >= h * SCALE_SQ - h * (2 * SCALE + 1))
        by (nonlinear_arith)
        requires
            h >= 0,
            SCALE_SQ - 2 * SCALE - 1 <= q <= SCALE_SQ,
    ;
    assert(h * (2 * SCALE + 1) <= 2_002_003_000_000_000_000) by (nonlinear_arith)
        requires
            0 <= h <= 1_001_000_000_000,
            SCALE == 1_000_000,
    ;
    assert(SCALE_SQ * (rx * rx + rz * rz) <= h * SCALE_SQ + 5_000_000_000_000_000_000);
    assert(SCALE_SQ * (rx * rx + rz * rz) >= h * SCALE_SQ - 7_000_000_000_000_000_000);
    assert(rx * rx + rz * rz <= h + 5_000_000) by (nonlinear_arith)
        requires
            SCALE_SQ * (rx * rx + rz * rz) <= h * SCALE_SQ + 5_000_000_000_000_000_000,
            SCALE_SQ == 1_000_000_000_000,
    ;
    assert(rx * rx + rz * rz >= h - 7_000_000) by (nonlinear_arith)
        requires
            SCALE_SQ * (rx * rx + rz * rz) >= h * SCALE_SQ - 7_000_000_000_000_000_000,
            SCALE_SQ == 1_000_000_000_000,
    ;
}

/// The normalized right vector is nearly orthogonal to the direction it
/// came from.
proof fn lemma_axis_orth(d1: FxVec3, cd: FxVec3, axis: FxVec3)
    requires
        comps_le(d1, 2_300_000int),
        cd.x == cross_x(d1, up_vec()),
        cd.y == cross_y(d1, up_vec()),
        cd.z == cross_z(d1, up_vec()),
        comps_le(cd, 2_500_000_000_000int),
        1 <= norm_sq(cd),
        axis == spec_renormalize(cd),
    ensures
        -8_000_000 <= dot(axis, d1) <= 8_000_000,
{
    lemma_dot_cross_zero(d1, up_vec());
    assert(dot(cd, d1) == d1.x * cross_x(d1, up_vec()) + d1.y * cross_y(d1, up_vec()) + d1.z
        * cross_z(d1, up_vec())) by (nonlinear_arith)
        requires
            cd.x == cross_x(d1, up_vec()),
            cd.y == cross_y(d1, up_vec()),
            cd.z == cross_z(d1, up_vec()),
    ;
    assert(dot(cd, d1) == 0);
    let nn = norm_sq(cd);
    if SCALE_SQ - UNIT_TOL <= nn <= SCALE_SQ + UNIT_TOL {
        assert(axis == cd);
        assert(dot(axis, d1) == dot(cd, d1));
    } else {
        lemma_isqrt_bounds(nn);
        let n = spec_isqrt(nn);
        assert(n >= 1) by (nonlinear_arith)
            requires
                n >= 0,
                nn >= 1,
                nn < (n + 1) * (n + 1),
        ;
        crate::vec3::lemma_rescale_fits_pub(cd, n);
        let rx = div_round(cd.x * SCALE, n);
        let ry = div_round(cd.y * SCALE, n);
        let rz = div_round(cd.z * SCALE, n);
        assert(axis.x == rx && axis.y == ry && axis.z == rz);
        lemma_div_round_err(cd.x * SCALE, n);
        lemma_div_round_err(cd.y * SCALE, n);
        lemma_div_round_err(cd.z * SCALE, n);
        let ex = n * rx - cd.x * SCALE;
        let ey = n * ry - cd.y * SCALE;
        let ez = n * rz - cd.z * SCALE;
        vstd::arithmetic::div_mod::lemma_fundamental_div_mod(n, 2);
        vstd::arithmetic::div_mod::lemma_mod_bound(n, 2);
        assert(-n <= 2 * ex <= n && -n <= 2 * ey <= n && -n <= 2 * ez <= n);
        let nd = n * dot(axis, d1);
        assert(nd == n * (axis.x * d1.x) + n * (axis.y * d1.y) + n * (axis.z * d1.z))
            by (nonlinear_arith)
            requires
                nd == n * (axis.x * d1.x + axis.y * d1.y + axis.z * d1.z),
        ;
        assert(n * (axis.x * d1.x) == d1.x * (n * rx)) by (nonlinear_arith)
            requires
                axis.x == rx,
        ;
        assert(n * (axis.y * d1.y) == d1.y * (n * ry)) by (nonlinear_arith)
            requires
                axis.y == ry,
        ;
        assert(n * (axis.z * d1.z) == d1.z * (n * rz)) by (nonlinear_arith)
            requires
                axis.z == rz,
        ;
        assert(d1.x * (n * rx) == d1.x * (cd.x * SCALE) + d1.x * ex) by (nonlinear_arith)
            requires
                n * rx == cd.x * SCALE + ex,
        ;
        assert(d1.y * (n * ry) == d1.y * (cd.y * SCALE) + d1.y * ey) by (nonlinear_arith)
            requires
                n * ry == cd.y * SCALE + ey,
        ;
        assert(d1.z * (n * rz) == d1.z * (cd.z * SCALE) + d1.z * ez) by (nonlinear_arith)
            requires
                n * rz == cd.z * SCALE + ez,
        ;
        assert(d1.x * (cd.x * SCALE) + d1.y * (cd.y * SCALE) + d1.z * (cd.z * SCALE) == SCALE * (
        cd.x * d1.x + cd.y * d1.y + cd.z * d1.z)) by (nonlinear_arith);
        assert(-(2_300_000 * n) <= 2 * (d1.x * ex) <= 2_300_000 * n) by (nonlinear_arith)
            requires
                -2_300_000 <= d1.x <= 2_300_000,
                -n <= 2 * ex <= n,
                n >= 1,
        ;
        assert(-(2_300_000 * n) <= 2 * (d1.y * ey) <= 2_300_000 * n) by (nonlinear_arith)
            requires
                -2_300_000 <= d1.y <= 2_300_000,
                -n <= 2 * ey <= n,
                n >= 1,
        ;
        assert(-(2_300_000 * n) <= 2 * (d1.z * ez) <= 2_300_000 * n) by (nonlinear_arith)
            requires
                -2_300_000 <= d1.z <= 2_300_000,
                -n <= 2 * ez <= n,
                n >= 1,
        ;
        assert(-(7_000_000 * n) <= 2 * nd <= 7_000_000 * n);
        assert(-8_000_000 <= dot(axis, d1) <= 8_000_000) by (nonlinear_arith)
            requires
                -(7_000_000 * n) <= 2 * (n * dot(axis, d1)) <= 7_000_000 * n,
                n >= 1,
        ;
    }
}

/// The Rodrigues pitch changes the squared norm of a near-unit direction
/// only within a narrow band, as long as the axis is near-unit and
/// nearly orthogonal to the direction.
#[verifier::rlimit(60)]
proof fn lemma_pitch_norm(v: FxVec3, a: FxVec3, c: i64, s: i64)
    requires
        SCALE_SQ - 1_100_000_000 <= norm_sq(v) <= SCALE_SQ + 1_100_000_000,
        comps_le(v, 2_300_000int),
        SCALE_SQ - UNIT_TOL <= norm_sq(a) <= SCALE_SQ + UNIT_TOL,
        comps_le(a, 1_100_000int),
        -8_000_000 <= dot(a, v) <= 8_000_000,
        -SCALE <= c <= SCALE,
        -SCALE <= s <= SCALE,
        SCALE_SQ - 2 * SCALE - 1 <= c * c + s * s <= SCALE_SQ,
    ensures
        norm_sq(v) - 2_000_000_000 <= norm_sq(spec_rotate_axis(v, a, c, s)) <= norm_sq(v)
            + 2_000_000_000,
{
    let big_v = norm_sq(v);
    let big_a = norm_sq(a);
    let cx = cross_x(a, v);
    let cy = cross_y(a, v);
    let cz = cross_z(a, v);
    let dd = dot(a, v);
    lemma_mul_abs_le(a.y as int, v.z as int, 1_100_000, 2_300_000);
    lemma_mul_abs_le(a.z as int, v.y as int, 1_100_000, 2_300_000);
    lemma_mul_abs_le(a.z as int, v.x as int, 1_100_000, 2_300_000);
    lemma_mul_abs_le(a.x as int, v.z as int, 1_100_000, 2_300_000);
    lemma_mul_abs_le(a.x as int, v.y as int, 1_100_000, 2_300_000);
    lemma_mul_abs_le(a.y as int, v.x as int, 1_100_000, 2_300_000);
    let wx = div_round(cx, SCALE as int);
    let wy = div_round(cy, SCALE as int);
    let wz = div_round(cz, SCALE as int);
    lemma_div_round_le(cx, SCALE as int, 5_100_000);
    lemma_div_round_le(cy, SCALE as int, 5_100_000);
    lemma_div_round_le(cz, SCALE as int, 5_100_000);
    lemma_div_round_err(cx, SCALE as int);
    lemma_div_round_err(cy, SCALE as int);
    lemma_div_round_err(cz, SCALE as int);
    let ex = SCALE * wx - cx;
    let ey = SCALE * wy - cy;
    let ez = SCALE * wz - cz;
    assert(-500_000 <= ex <= 500_000 && -500_000 <= ey <= 500_000 && -500_000 <= ez <= 500_000);
    let t1 = div_round(dd, SCALE as int);
    lemma_div_round_le(dd, SCALE as int, 9);
    let t2 = div_round((SCALE - c) * t1, SCALE as int);
    lemma_mul_abs_le(SCALE - c, t1, 2_000_000, 9);
    lemma_div_round_le((SCALE - c) * t1, SCALE as int, 19);
    let ux = c * v.x + s * wx + t2 * a.x;
    let uy = c * v.y + s * wy + t2 * a.y;
    let uz = c * v.z + s * wz + t2 * a.z;
    lemma_mul_abs_le(c as int, v.x as int, SCALE as int, 2_300_000);
    lemma_mul_abs_le(c as int, v.y as int, SCALE as int, 2_300_000);
    lemma_mul_abs_le(c as int, v.z as int, SCALE as int, 2_300_000);
    lemma_mul_abs_le(s as int, wx, SCALE as int, 5_100_000);
    lemma_mul_abs_le(s as int, wy, SCALE as int, 5_100_000);
    lemma_mul_abs_le(s as int, wz, SCALE as int, 5_100_000);
    lemma_mul_abs_le(t2, a.x as int, 19, 1_100_000);
    lemma_mul_abs_le(t2, a.y as int, 19, 1_100_000);
    lemma_mul_abs_le(t2, a.z as int, 19, 1_100_000);
    assert(-7_500_000_000_000 <= ux <= 7_500_000_000_000);
    assert(-7_500_000_000_000 <= uy <= 7_500_000_000_000);
    assert(-7_500_000_000_000 <= uz <= 7_500_000_000_000);
    let r = spec_rotate_axis(v, a, c, s);
    let rx = div_round(ux, SCALE as int);
    let ry = div_round(uy, SCALE as int);
    let rz = div_round(uz, SCALE as int);
    lemma_div_round_le(ux, SCALE as int, 7_600_000);
    lemma_div_round_le(uy, SCALE as int, 7_600_000);
    lemma_div_round_le(uz, SCALE as int, 7_600_000);
    assert(r.x == rx && r.y == ry && r.z == rz);
    lemma_div_round_err(ux, SCALE as int);
    lemma_div_round_err(uy, SCALE as int);
    lemma_div_round_err(uz, SCALE as int);
    let fx = SCALE * rx - ux;
    let fy = SCALE * ry - uy;
    let fz = SCALE * rz - uz;
    assert(-500_000 <= fx <= 500_000 && -500_000 <= fy <= 500_000 && -500_000 <= fz <= 500_000);
    let xx = norm_sq(r);
    // S^2 * |r|^2 expands over the exact pre-division vector u + f.
    assert((SCALE * rx) * (SCALE * rx) == SCALE_SQ * (rx * rx)) by (nonlinear_arith)
        requires
            SCALE_SQ == SCALE * SCALE,
    ;
    assert((SCALE * ry) * (SCALE * ry) == SCALE_SQ * (ry * ry)) by (nonlinear_arith)
        requires
            SCALE_SQ == SCALE * SCALE,
    ;
    assert((SCALE * rz) * (SCALE * rz) == SCALE_SQ * (rz * rz)) by (nonlinear_arith)
        requires
            SCALE_SQ == SCALE * SCALE,
    ;
    assert((ux + fx) * (ux + fx) == ux * ux + 2 * (ux * fx) + fx * fx) by (nonlinear_arith);
    assert((uy + fy) * (uy + fy) == uy * uy + 2 * (uy * fy) + fy * fy) by (nonlinear_arith);
    assert((uz + fz) * (uz + fz) == uz * uz + 2 * (uz * fz) + fz * fz) by (nonlinear_arith);
    lemma_mul_abs_le(ux, fx, 7_500_000_000_000, 500_000);
    lemma_mul_abs_le(uy, fy, 7_500_000_000_000, 500_000);
    lemma_mul_abs_le(uz, fz, 7_500_000_000_000, 500_000);
    lemma_mul_abs_le(fx, fx, 500_000, 500_000);
    lemma_mul_abs_le(fy, fy, 500_000, 500_000);
    lemma_mul_abs_le(fz, fz, 500_000, 500_000);
    assert(SCALE_SQ * xx == (ux * ux + uy * uy + uz * uz) + (2 * (ux * fx) + 2 * (uy * fy) + 2 * (
    uz * fz)) + (fx * fx + fy * fy + fz * fz));
    // Expand each u_i^2 into the six grouped products.
    assert(ux * ux == (c * v.x) * (c * v.x) + (s * wx) * (s * wx) + (t2 * a.x) * (t2 * a.x) + 2 * (
    (c * v.x) * (s * wx)) + 2 * ((c * v.x) * (t2 * a.x)) + 2 * ((s * wx) * (t2 * a.x)))
        by (nonlinear_arith)
        requires
            ux == c * v.x + s * wx + t2 * a.x,
    ;
    assert(uy * uy == (c * v.y) * (c * v.y) + (s * wy) * (s * wy) + (t2 * a.y) * (t2 * a.y) + 2 * (
    (c * v.y) * (s * wy)) + 2 * ((c * v.y) * (t2 * a.y)) + 2 * ((s * wy) * (t2 * a.y)))
        by (nonlinear_arith)
        requires
            uy == c * v.y + s * wy + t2 * a.y,
    ;
    assert(uz * uz == (c * v.z) * (c * v.z) + (s * wz) * (s * wz) + (t2 * a.z) * (t2 * a.z) + 2 * (
    (c * v.z) * (s * wz)) + 2 * ((c * v.z) * (t2 * a.z)) + 2 * ((s * wz) * (t2 * a.z)))
        by (nonlinear_arith)
        requires
            uz == c * v.z + s * wz + t2 * a.z,
    ;
    // Group the squares.
    assert((c * v.x) * (c * v.x) == (c * c) * (v.x * v.x)) by (nonlinear_arith);
    assert((c * v.y) * (c * v.y) == (c * c) * (v.y * v.y)) by (nonlinear_arith);
    assert((c * v.z) * (c * v.z) == (c * c) * (v.z * v.z)) by (nonlinear_arith);
    assert((s * wx) * (s * wx) == (s * s) * (wx * wx)) by (nonlinear_arith);
    assert((s * wy) * (s * wy) == (s * s) * (wy * wy)) by (nonlinear_arith);
    assert((s * wz) * (s * wz) == (s * s) * (wz * wz)) by (nonlinear_arith);
    assert((t2 * a.x) * (t2 * a.x) == (t2 * t2) * (a.x * a.x)) by (nonlinear_arith);
    assert((t2 * a.y) * (t2 * a.y) == (t2 * t2) * (a.y * a.y)) by (nonlinear_arith);
    assert((t2 * a.z) * (t2 * a.z) == (t2 * t2) * (a.z * a.z)) by (nonlinear_arith);
    assert((c * v.x) * (s * wx) == (c * s) * (v.x * wx)) by (nonlinear_arith);
    assert((c * v.y) * (s * wy) == (c * s) * (v.y * wy)) by (nonlinear_arith);
    assert((c * v.z) * (s * wz) == (c * s) * (v.z * wz)) by (nonlinear_arith);
    assert((c * v.x) * (t2 * a.x) == (c * t2) * (a.x * v.x)) by (nonlinear_arith);
    assert((c * v.y) * (t2 * a.y) == (c * t2) * (a.y * v.y)) by (nonlinear_arith);
    assert((c * v.z) * (t2 * a.z) == (c * t2) * (a.z * v.z)) by (nonlinear_arith);
    assert((s * wx) * (t2 * a.x) == (s * t2) * (wx * a.x)) by (nonlinear_arith);
    assert((s * wy) * (t2 * a.y) == (s * t2) * (wy * a.y)) by (nonlinear_arith);
    assert((s * wz) * (t2 * a.z) == (s * t2) * (wz * a.z)) by (nonlinear_arith);
    let ww = wx * wx + wy * wy + wz * wz;
    let vw = v.x * wx + v.y * wy + v.z * wz;
    let wa = wx * a.x + wy * a.y + wz * a.z;
    assert((c * c) * big_v == (c * c) * (v.x * v.x) + (c * c) * (v.y * v.y) + (c * c) * (v.z * v.z))
        by (nonlinear_arith)
        requires
            big_v == v.x * v.x + v.y * v.y + v.z * v.z,
    ;
    assert((s * s) * ww == (s * s) * (wx * wx) + (s * s) * (wy * wy) + (s * s) * (wz * wz))
        by (nonlinear_arith)
        requires
            ww == wx * wx + wy * wy + wz * wz,
    ;
    assert((t2 * t2) * big_a == (t2 * t2) * (a.x * a.x) + (t2 * t2) * (a.y * a.y) + (t2 * t2) * (
    a.z * a.z)) by (nonlinear_arith)
        requires
            big_a == a.x * a.x + a.y * a.y + a.z * a.z,
    ;
    assert((c * s) * vw == (c * s) * (v.x * wx) + (c * s) * (v.y * wy) + (c * s) * (v.z * wz))
        by (nonlinear_arith)
        requires
            vw == v.x * wx + v.y * wy + v.z * wz,
    ;
    assert((c * t2) * dd == (c * t2) * (a.x * v.x) + (c * t2) * (a.y * v.y) + (c * t2) * (a.z
        * v.z)) by (nonlinear_arith)
        requires
            dd == a.x * v.x + a.y * v.y + a.z * v.z,
    ;
    assert((s * t2) * wa == (s * t2) * (wx * a.x) + (s * t2) * (wy * a.y) + (s * t2) * (wz * a.z))
        by (nonlinear_arith)
        requires
            wa == wx * a.x + wy * a.y + wz * a.z,
    ;
    assert(ux * ux + uy * uy + uz * uz == (c * c) * big_v + (s * s) * ww + (t2 * t2) * big_a + 2 * (
    (c * s) * vw) + 2 * ((c * t2) * dd) + 2 * ((s * t2) * wa));
    // Bound |w|^2 via the Lagrange identity.
    lemma_cross_norm(a, v);
    assert(cx * cx + cy * cy + cz * cz == big_a * big_v - dd * dd);
    assert((SCALE * wx) * (SCALE * wx) == SCALE_SQ * (wx * wx)) by (nonlinear_arith)
        requires
            SCALE_SQ == SCALE * SCALE,
    ;
    assert((SCALE * wy) * (SCALE * wy) == SCALE_SQ * (wy * wy)) by (nonlinear_arith)
        requires
            SCALE_SQ == SCALE * SCALE,
    ;
    assert((SCALE * wz) * (SCALE * wz) == SCALE_SQ * (wz * wz)) by (nonlinear_arith)
        requires
            SCALE_SQ == SCALE * SCALE,
    ;
    assert((cx + ex) * (cx + ex) == cx * cx + 2 * (cx * ex) + ex * ex) by (nonlinear_arith);
    assert((cy + ey) * (cy + ey) == cy * cy + 2 * (cy * ey) + ey * ey) by (nonlinear_arith);
    assert((cz + ez) * (cz + ez) == cz * cz + 2 * (cz * ez) + ez * ez) by (nonlinear_arith);
    lemma_mul_abs_le(cx, ex, 5_100_000_000_000, 500_000);
    lemma_mul_abs_le(cy, ey, 5_100_000_000_000, 500_000);
    lemma_mul_abs_le(cz, ez, 5_100_000_000_000, 500_000);
    lemma_mul_abs_le(ex, ex, 500_000, 500_000);
    lemma_mul_abs_le(ey, ey, 500_000, 500_000);
    lemma_mul_abs_le(ez, ez, 500_000, 500_000);
    assert(SCALE_SQ * ww == (big_a * big_v - dd * dd) + (2 * (cx * ex) + 2 * (cy * ey) + 2 * (cz
        * ez)) + (ex * ex + ey * ey + ez * ez));
    lemma_mul_abs_le(big_a - SCALE_SQ, big_v, UNIT_TOL as int, 1_001_100_000_000int);
    assert(big_a * big_v == SCALE_SQ * big_v + (big_a - SCALE_SQ) * big_v) by (nonlinear_arith);
    lemma_mul_abs_le(dd, dd, 8_000_000, 8_000_000);
    lemma_sq_nonneg(dd);
    assert(SCALE_SQ * ww <= SCALE_SQ * big_v + 1_100_000_000_000_000_000_000);
    assert(SCALE_SQ * ww >= SCALE_SQ * big_v - 1_100_000_000_000_000_000_000);
    assert(ww <= big_v + 1_100_000_000 && ww >= big_v - 1_100_000_000) by (nonlinear_arith)
        requires
            SCALE_SQ * ww <= SCALE_SQ * big_v + 1_100_000_000_000_000_000_000,
            SCALE_SQ * ww >= SCALE_SQ * big_v - 1_100_000_000_000_000_000_000,
            SCALE_SQ == 1_000_000_000_000,
    ;
    // Bound v . w: w is a scaled cross product of a with v, so it is
    // nearly orthogonal to v.
    lemma_dot_cross_zero(a, v);
    assert(v.x * cx + v.y * cy + v.z * cz == 0);
    assert(v.x * (SCALE * wx) == SCALE * (v.x * wx) && v.x * (SCALE * wx) == v.x * cx + v.x * ex)
        by (nonlinear_arith)
        requires
            SCALE * wx == cx + ex,
    ;
    assert(v.y * (SCALE * wy) == SCALE * (v.y * wy) && v.y * (SCALE * wy) == v.y * cy + v.y * ey)
        by (nonlinear_arith)
        requires
            SCALE * wy == cy + ey,
    ;
    assert(v.z * (SCALE * wz) == SCALE * (v.z * wz) && v.z * (SCALE * wz) == v.z * cz + v.z * ez)
        by (nonlinear_arith)
        requires
            SCALE * wz == cz + ez,
    ;
    lemma_mul_abs_le(v.x as int, ex, 2_300_000, 500_000);
    lemma_mul_abs_le(v.y as int, ey, 2_300_000, 500_000);
    lemma_mul_abs_le(v.z as int, ez, 2_300_000, 500_000);
    assert(-3_450_000_000_000 <= SCALE * vw <= 3_450_000_000_000);
    assert(-3_500_000 <= vw <= 3_500_000) by (nonlinear_arith)
        requires
            -3_450_000_000_000 <= SCALE * vw <= 3_450_000_000_000,
            SCALE == 1_000_000,
    ;
    // Assemble the six grouped terms.
    lemma_mul_abs_le(c as int, s as int, SCALE as int, SCALE as int);
    lemma_mul_abs_le(c as int, t2, SCALE as int, 19);
    lemma_mul_abs_le(s as int, t2, SCALE as int, 19);
    lemma_mul_abs_le(t2, t2, 19, 19);
    assert((s * s) * ww == (s * s) * big_v + (s * s) * (ww - big_v)) by (nonlinear_arith);
    assert((c * c) * big_v + (s * s) * big_v == (c * c + s * s) * big_v) by (nonlinear_arith);
    assert((c * c + s * s) * big_v == SCALE_SQ * big_v + ((c * c + s * s) - SCALE_SQ) * big_v)
        by (nonlinear_arith);
    lemma_mul_abs_le(
        (c * c + s * s) - SCALE_SQ,
        big_v,
        2_000_001,
        1_001_100_000_000int,
    );
    lemma_sq_nonneg(s as int);
    lemma_mul_abs_le(s as int, s as int, SCALE as int, SCALE as int);
    lemma_mul_abs_le(s * s, ww - big_v, 1_000_000_000_000int, 1_100_000_000int);
    lemma_mul_abs_le(t2 * t2, big_a, 361, 1_001_000_000_000int);
    lemma_mul_abs_le(c * s, vw, SCALE_SQ as int, 3_500_000);
    lemma_mul_abs_le(c * t2, dd, 19_000_000, 8_000_000);
    lemma_mul_abs_le(wx, a.x as int, 5_100_000, 1_100_000);
    lemma_mul_abs_le(wy, a.y as int, 5_100_000, 1_100_000);
    lemma_mul_abs_le(wz, a.z as int, 5_100_000, 1_100_000);
    lemma_mul_abs_le(s * t2, wa, 19_000_000, 16_830_000_000_000int);
    assert(ux * ux + uy * uy + uz * uz <= SCALE_SQ * big_v + 1_800_000_000_000_000_000_000);
    assert(ux * ux + uy * uy + uz * uz >= SCALE_SQ * big_v - 1_800_000_000_000_000_000_000);
    assert(SCALE_SQ * xx <= SCALE_SQ * big_v + 1_900_000_000_000_000_000_000);
    assert(SCALE_SQ * xx >= SCALE_SQ * big_v - 1_900_000_000_000_000_000_000);
    assert(xx <= big_v + 2_000_000_000 && xx >= big_v - 2_000_000_000) by (nonlinear_arith)
        requires
            SCALE_SQ * xx <= SCALE_SQ * big_v + 1_900_000_000_000_000_000_000,
            SCALE_SQ * xx >= SCALE_SQ * big_v - 1_900_000_000_000_000_000_000,
            SCALE_SQ == 1_000_000_000_000,
    ;
}

impl CameraController {
    /// The per-frame camera update: yaw by the accumulated horizontal
    /// delta, pitch by the vertical delta unless the pitch clamp rejects
    /// the candidate, renormalize, translate along the held directions,
    /// and consume the accumulated delta.
    pub fn update_camera_entity(&mut self, camera_entity: &mut CameraEntity, dt: i64)
        requires
            old(self).wf(),
            old(camera_entity).wf(),
            -DT_LIMIT <= dt <= DT_LIMIT,
        ensures
            *final(self) == spec_update_controller(*old(self)),
            *final(camera_entity) == spec_update_entity(*old(self), *old(camera_entity), dt),
            final(self).wf(),
            final(camera_entity).wf(),
    {
        let ghost c0 = *self;
        let ghost e0 = *camera_entity;
        proof {
            lemma_dir_comps(camera_entity.dir);
        }
        let d0 = renormalize(camera_entity.dir);
        proof {
            assert(d0 == e0.dir);
        }
        // Yaw.
        proof {
            lemma_mul_abs_le(self.delta_x as int, self.sens as int, DELTA_SAT as int, SENS_LIMIT as int);
            lemma_div_round_le(-(c0.delta_x * c0.sens), SCALE as int, 36_000_000_000_000int);
        }
        let yaw_angle = div_round_i128(-mul_ii(self.delta_x, self.sens), SCALE as i128) as i64;
        let (yc, ys) = fx_sincos(yaw_angle);
        let d1 = rotate_y(&d0, yc, ys);
        proof {
            lemma_yaw_keeps_axis(d0, yc, ys);
            lemma_yaw_norm(d0, yc, ys);
            assert(d1 == spec_dir_yawed(c0, d0));
        }
        // Pitch axis: the normalized right vector.
        let up_v = FxVec3 { x: 0, y: SCALE, z: 0 };
        let cd1 = fx_cross(&d1, &up_v);
        proof {
            assert(cd1 == cross_vec(d1, up_vec()));
            assert(cd1.x == -(d1.z * SCALE) && cd1.y == 0 && cd1.z == d1.x * SCALE);
            lemma_squares_nonneg(cd1);
            assert(norm_sq(cd1) >= SCALE_SQ) by (nonlinear_arith)
                requires
                    cd1.x == -(d1.z * SCALE) && cd1.y == 0 && cd1.z == d1.x * SCALE,
                    d1.x != 0 || d1.z != 0,
                    norm_sq(cd1) == cd1.x * cd1.x + cd1.y * cd1.y + cd1.z * cd1.z,
                    SCALE == 1_000_000,
                    SCALE_SQ == 1_000_000_000_000,
            ;
            lemma_renormalize_unit(cd1);
            lemma_renormalize_comps(cd1);
        }
        let axis = renormalize(cd1);
        proof {
            assert(axis == spec_pitch_axis(d1));
            lemma_axis_orth(d1, cd1, axis);
        }
        proof {
            lemma_mul_abs_le(self.delta_y as int, self.sens as int, DELTA_SAT as int, SENS_LIMIT as int);
            lemma_div_round_le(-(c0.delta_y * c0.sens), SCALE as int, 36_000_000_000_000int);
        }
        let pitch_angle = div_round_i128(-mul_ii(self.delta_y, self.sens), SCALE as i128) as i64;
        let (pc, ps) = fx_sincos(pitch_angle);
        let cand = rotate_axis(&d1, &axis, pc, ps);
        proof {
            lemma_pitch_norm(d1, axis, pc, ps);
            assert(cand == spec_pitch_candidate(c0, d1));
        }
        // The clamp test: accept the candidate only if the right vector
        // keeps its handedness.
        let rc = fx_cross(&cand, &up_v);
        let dc = fx_dot(&cd1, &rc);
        proof {
            assert(rc == cross_vec(cand, up_vec()));
            assert(dc == dot(cross_vec(d1, up_vec()), cross_vec(cand, up_vec())));
        }
        let d2 = if dc > 0 {
            proof {
                assert(rc.x == -(cand.z * SCALE) && rc.y == 0 && rc.z == cand.x * SCALE);
                if cand.x == 0 && cand.z == 0 {
                    assert(dc == 0) by (nonlinear_arith)
                        requires
                            dc == cd1.x * rc.x + cd1.y * rc.y + cd1.z * rc.z,
                            rc.x == 0 && rc.y == 0 && rc.z == 0,
                    ;
                }
                lemma_squares_nonneg(cand);
                assert(norm_sq(cand) >= 1) by (nonlinear_arith)
                    requires
                        cand.x != 0 || cand.z != 0,
                        norm_sq(cand) == cand.x * cand.x + cand.y * cand.y + cand.z * cand.z,
                        cand.x * cand.x >= 0 && cand.y * cand.y >= 0 && cand.z * cand.z >= 0,
                ;
            }
            cand
        } else {
            let snapped = FxVec3 {
                x: d1.x,
                y: if d1.y >= 0 {
                    SCALE
                } else {
                    -SCALE
                },
                z: d1.z,
            };
            proof {
                assert(snapped == spec_pole_clamp(d1));
                lemma_squares_nonneg(d1);
                assert(snapped.y * snapped.y == SCALE_SQ) by (nonlinear_arith)
                    requires
                        snapped.y == SCALE || snapped.y == -SCALE,
                        SCALE == 1_000_000,
                        SCALE_SQ == 1_000_000_000_000,
                ;
                assert(norm_sq(snapped) == d1.x * d1.x + snapped.y * snapped.y + d1.z * d1.z);
                assert(norm_sq(snapped) >= SCALE_SQ);
                assert(d1.x * d1.x + d1.z * d1.z <= norm_sq(d1));
            }
            snapped
        };
        proof {
            lemma_squares_nonneg(d2);
            assert(1 <= norm_sq(d2) < 4 * SCALE_SQ);
            assert(250_000_000_000 <= norm_sq(d2));
            lemma_renormalize_unit(d2);
            lemma_renormalize_keeps_axis(d2);
            lemma_renormalize_comps(d2);
        }
        let d3 = renormalize(d2);
        proof {
            assert(d3 == spec_new_dir(c0, e0));
            assert(dir_wf(d3));
        }
        // Translation along the held directions.
        let fstep = move_step(&d3, self.speed, dt);
        let cd3 = fx_cross(&d3, &up_v);
        proof {
            assert(cd3 == cross_vec(d3, up_vec()));
            assert(cd3.x == -(d3.z * SCALE) && cd3.y == 0 && cd3.z == d3.x * SCALE);
            lemma_squares_nonneg(cd3);
            assert(norm_sq(cd3) >= SCALE_SQ) by (nonlinear_arith)
                requires
                    cd3.x == -(d3.z * SCALE) && cd3.y == 0 && cd3.z == d3.x * SCALE,
                    d3.x != 0 || d3.z != 0,
                    norm_sq(cd3) == cd3.x * cd3.x + cd3.y * cd3.y + cd3.z * cd3.z,
                    SCALE == 1_000_000,
                    SCALE_SQ == 1_000_000_000_000,
            ;
            lemma_renormalize_comps(cd3);
        }
        let right = renormalize(cd3);
        let rstep = move_step(&right, self.speed, dt);
        let mut pos = camera_entity.pos;
        if self.is_forward_pressed {
            pos = pos_add(&pos, &fstep);
        }
        if self.is_backward_pressed {
            pos = pos_sub(&pos, &fstep);
        }
        if self.is_right_pressed {
            pos = pos_add(&pos, &rstep);
        }
        if self.is_left_pressed {
            pos = pos_sub(&pos, &rstep);
        }
        proof {
            assert(pos == spec_new_pos(c0, e0, d3, dt));
        }
        camera_entity.dir = d3;
        camera_entity.pos = pos;
        self.delta_x = 0;
        self.delta_y = 0;
    }
}

/// The clamp invariant spelled out: the direction's dot product with the
/// up axis stays within one (to the representation's tolerance), and the
/// right vector `dir x up` is never the zero vector.
pub proof fn lemma_pitch_clamp_guarantees(d: FxVec3)
    requires
        dir_wf(d),
    ensures
        d.y * d.y <= SCALE_SQ + UNIT_TOL,
        cross_x(d, up_vec()) != 0 || cross_z(d, up_vec()) != 0,
{
    lemma_squares_nonneg(d);
    assert(cross_x(d, up_vec()) == -(d.z * SCALE) && cross_z(d, up_vec()) == d.x * SCALE);
    assert(d.x != 0 ==> d.x * SCALE != 0) by (nonlinear_arith)
        requires
            SCALE == 1_000_000,
    ;
    assert(d.z != 0 ==> d.z * SCALE != 0) by (nonlinear_arith)
        requires
            SCALE == 1_000_000,
    ;
}

proof fn lemma_rotate_y_identity(v: FxVec3)
    ensures
        spec_rotate_y(v, SCALE, 0) == v,
{
    lemma_div_round_exact(v.x as int, SCALE as int);
    lemma_div_round_exact(v.z as int, SCALE as int);
    assert(v.x * SCALE + v.z * 0 == v.x * SCALE);
    assert(v.z * SCALE - v.x * 0 == v.z * SCALE);
}

proof fn lemma_rotate_axis_identity(v: FxVec3, a: FxVec3)
    ensures
        spec_rotate_axis(v, a, SCALE, 0) == v,
{
    let t1 = div_round(dot(a, v), SCALE as int);
    let t2 = div_round((SCALE - SCALE) * t1, SCALE as int);
    assert((SCALE - SCALE) * t1 == 0) by (nonlinear_arith);
    lemma_div_round_exact(0, SCALE as int);
    assert(0 * SCALE == 0);
    assert(t2 == 0);
    let wx = div_round(cross_x(a, v), SCALE as int);
    let wy = div_round(cross_y(a, v), SCALE as int);
    let wz = div_round(cross_z(a, v), SCALE as int);
    assert(t2 * a.x == 0 && t2 * a.y == 0 && t2 * a.z == 0) by (nonlinear_arith)
        requires
            t2 == 0,
    ;
    assert(SCALE * v.x + 0 * wx + t2 * a.x == v.x * SCALE) by (nonlinear_arith)
        requires
            t2 * a.x == 0,
    ;
    assert(SCALE * v.y + 0 * wy + t2 * a.y == v.y * SCALE) by (nonlinear_arith)
        requires
            t2 * a.y == 0,
    ;
    assert(SCALE * v.z + 0 * wz + t2 * a.z == v.z * SCALE) by (nonlinear_arith)
        requires
            t2 * a.z == 0,
    ;
    lemma_div_round_exact(v.x as int, SCALE as int);
    lemma_div_round_exact(v.y as int, SCALE as int);
    lemma_div_round_exact(v.z as int, SCALE as int);
}

/// Idempotence of an empty frame: an update with zero elapsed time and
/// zero accumulated input leaves both the controller and the view entity
/// bit-for-bit unchanged.
pub proof fn lemma_zero_update_is_identity(c: CameraController, e: CameraEntity)
    requires
        c.wf(),
        e.wf(),
        c.delta_x == 0,
        c.delta_y == 0,
    ensures
        spec_update_entity(c, e, 0) == e,
        spec_update_controller(c) == c,
{
    lemma_dir_comps(e.dir);
    assert(spec_renormalize(e.dir) == e.dir);
    let d0 = e.dir;
    assert(c.delta_x * c.sens == 0 && c.delta_y * c.sens == 0) by (nonlinear_arith)
        requires
            c.delta_x == 0 && c.delta_y == 0,
    ;
    lemma_div_round_exact(0, SCALE as int);
    assert(0 * SCALE == 0);
    assert(spec_angle(c.delta_x, c.sens) == 0);
    assert(spec_angle(c.delta_y, c.sens) == 0);
    crate::trig::lemma_sincos_zero();
    lemma_rotate_y_identity(d0);
    let d1 = spec_dir_yawed(c, d0);
    assert(d1 == d0);
    lemma_rotate_axis_identity(d1, spec_pitch_axis(d1));
    let cand = spec_pitch_candidate(c, d1);
    assert(cand == d1);
    let cd = cross_vec(d1, up_vec());
    assert(cross_x(d1, up_vec()) == -(d1.z * SCALE)) by (nonlinear_arith)
        requires
            up_vec().z == 0 && up_vec().y == SCALE,
    ;
    assert(cross_y(d1, up_vec()) == 0) by (nonlinear_arith)
        requires
            up_vec().x == 0 && up_vec().z == 0,
    ;
    assert(cross_z(d1, up_vec()) == d1.x * SCALE) by (nonlinear_arith)
        requires
            up_vec().x == 0 && up_vec().y == SCALE,
    ;
    assert(-1_100_000_000_000 <= d1.z * SCALE <= 1_100_000_000_000);
    assert(-1_100_000_000_000 <= d1.x * SCALE <= 1_100_000_000_000);
    assert(cd.x == -(d1.z * SCALE) && cd.y == 0 && cd.z == d1.x * SCALE);
    assert(dot(cd, cd) > 0) by (nonlinear_arith)
        requires
            cd.x == -(d1.z * SCALE),
            cd.y == 0,
            cd.z == d1.x * SCALE,
            d1.x != 0 || d1.z != 0,
            dot(cd, cd) == cd.x * cd.x + cd.y * cd.y + cd.z * cd.z,
            SCALE == 1_000_000,
    ;
    assert(spec_pitch_accept(d1, cand));
    assert(spec_new_dir(c, e) == e.dir);
    let fstep = spec_move_step(e.dir, c.speed, 0);
    assert(div_round(e.dir.x * c.speed, SCALE as int) * 0 == 0) by (nonlinear_arith);
    assert(div_round(e.dir.y * c.speed, SCALE as int) * 0 == 0) by (nonlinear_arith);
    assert(div_round(e.dir.z * c.speed, SCALE as int) * 0 == 0) by (nonlinear_arith);
    assert(fstep == (FxVec3 { x: 0i64, y: 0i64, z: 0i64 }));
    let right = spec_renormalize(cross_vec(e.dir, up_vec()));
    let rstep = spec_move_step(right, c.speed, 0);
    assert(div_round(right.x * c.speed, SCALE as int) * 0 == 0) by (nonlinear_arith);
    assert(div_round(right.y * c.speed, SCALE as int) * 0 == 0) by (nonlinear_arith);
    assert(div_round(right.z * c.speed, SCALE as int) * 0 == 0) by (nonlinear_arith);
    assert(rstep == (FxVec3 { x: 0i64, y: 0i64, z: 0i64 }));
    let z = FxVec3 { x: 0i64, y: 0i64, z: 0i64 };
    assert forall|p: FxVec3| comps_le(p, POS_LIMIT as int) implies spec_pos_add(p, z) == p
        && spec_pos_sub(p, z) == p by {
    }
    assert(spec_new_pos(c, e, e.dir, 0) == e.pos);
    assert(spec_update_entity(c, e, 0) == e);
}

/// View-projection entries saturate here instead of overflowing.
pub const MAT_LIMIT: i64 = 4_000_000_000_000_000_000;

/// A 4x4 fixed-point matrix, column-major: `mCR` is column C, row R.
#[derive(Clone, Copy, PartialEq, Eq, Structural, Debug)]
pub struct FxMat4 {
    pub m00: i64,
    pub m01: i64,
    pub m02: i64,
    pub m03: i64,
    pub m10: i64,
    pub m11: i64,
    pub m12: i64,
    pub m13: i64,
    pub m20: i64,
    pub m21: i64,
    pub m22: i64,
    pub m23: i64,
    pub m30: i64,
    pub m31: i64,
    pub m32: i64,
    pub m33: i64,
}

pub open spec fn spec_identity_mat() -> FxMat4 {
    FxMat4 {
        m00: SCALE,
        m01: 0,
        m02: 0,
        m03: 0,
        m10: 0,
        m11: SCALE,
        m12: 0,
        m13: 0,
        m20: 0,
        m21: 0,
        m22: SCALE,
        m23: 0,
        m30: 0,
        m31: 0,
        m32: 0,
        m33: SCALE,
    }
}

/// The camera's forward axis of the view basis.
pub open spec fn spec_view_f(e: CameraEntity) -> FxVec3 {
    spec_renormalize(e.dir)
}

/// The camera's right axis of the view basis.
pub open spec fn spec_view_s(e: CameraEntity) -> FxVec3 {
    spec_renormalize(cross_vec(spec_view_f(e), up_vec()))
}

/// The camera's local up axis of the view basis.
pub open spec fn spec_view_u(e: CameraEntity) -> FxVec3 {
    let s = spec_view_s(e);
    let f = spec_view_f(e);
    FxVec3 {
        x: div_round(cross_x(s, f), SCALE as int) as i64,
        y: div_round(cross_y(s, f), SCALE as int) as i64,
        z: div_round(cross_z(s, f), SCALE as int) as i64,
    }
}

/// The view matrix of a look-along-direction transform: the orthonormal
/// basis in the upper block and the negated basis-projected eye position
/// in the last column.
pub open spec fn spec_view_matrix(e: CameraEntity) -> FxMat4 {
    let f = spec_view_f(e);
    let s = spec_view_s(e);
    let u = spec_view_u(e);
    FxMat4 {
        m00: s.x,
        m01: u.x,
        m02: (-f.x) as i64,
        m03: 0,
        m10: s.y,
        m11: u.y,
        m12: (-f.y) as i64,
        m13: 0,
        m20: s.z,
        m21: u.z,
        m22: (-f.z) as i64,
        m23: 0,
        m30: (-div_round(dot(e.pos, s), SCALE as int)) as i64,
        m31: (-div_round(dot(e.pos, u), SCALE as int)) as i64,
        m32: div_round(dot(e.pos, f), SCALE as int) as i64,
        m33: SCALE,
    }
}

/// Half the vertical field of view, in fixed-point degrees.
pub open spec fn spec_half_fov(e: CameraEntity) -> int {
    e.fov_y as int / 2
}

/// The perspective focal ratio `cos / sin` of the half field of view.
pub open spec fn spec_proj_h(e: CameraEntity) -> int {
    div_round(
        spec_fx_cos(spec_half_fov(e)) * SCALE,
        spec_fx_sin(spec_half_fov(e)),
    )
}

pub open spec fn spec_proj_w(e: CameraEntity) -> int {
    div_round(spec_proj_h(e) * SCALE, e.aspect_ratio as int)
}

/// `far / (near - far)`, the depth-range factor of the projection.
pub open spec fn spec_proj_r(e: CameraEntity) -> int {
    -div_round(e.z_far * SCALE, e.z_far - e.z_near)
}

pub open spec fn spec_proj_m32(e: CameraEntity) -> int {
    div_round(spec_proj_r(e) * e.z_near, SCALE as int)
}

/// The right-handed perspective projection matrix.
pub open spec fn spec_projection_matrix(e: CameraEntity) -> FxMat4 {
    FxMat4 {
        m00: spec_proj_w(e) as i64,
        m01: 0,
        m02: 0,
        m03: 0,
        m10: 0,
        m11: spec_proj_h(e) as i64,
        m12: 0,
        m13: 0,
        m20: 0,
        m21: 0,
        m22: spec_proj_r(e) as i64,
        m23: (-SCALE) as i64,
        m30: 0,
        m31: 0,
        m32: spec_proj_m32(e) as i64,
        m33: 0,
    }
}

/// One saturating entry of the combined matrix.
pub open spec fn spec_vp(p: int, a: int) -> i64 {
    clamp(div_round(p * a, SCALE as int), MAT_LIMIT as int) as i64
}

/// One saturating depth-row entry of the combined matrix.
pub open spec fn spec_vp2(rr: int, mm: int, c: int, d: int) -> i64 {
    clamp(div_round(rr * c + mm * d, SCALE as int), MAT_LIMIT as int) as i64
}

/// The combined matrix `projection * view`, column by column; the
/// projection's sparsity makes each entry a one- or two-term product.
pub open spec fn spec_view_proj(e: CameraEntity) -> FxMat4 {
    let v = spec_view_matrix(e);
    let w = spec_proj_w(e);
    let h = spec_proj_h(e);
    let rr = spec_proj_r(e);
    let mm = spec_proj_m32(e);
    FxMat4 {
        m00: spec_vp(w, v.m00 as int),
        m01: spec_vp(h, v.m01 as int),
        m02: spec_vp2(rr, mm, v.m02 as int, v.m03 as int),
        m03: spec_vp(-SCALE as int, v.m02 as int),
        m10: spec_vp(w, v.m10 as int),
        m11: spec_vp(h, v.m11 as int),
        m12: spec_vp2(rr, mm, v.m12 as int, v.m13 as int),
        m13: spec_vp(-SCALE as int, v.m12 as int),
        m20: spec_vp(w, v.m20 as int),
        m21: spec_vp(h, v.m21 as int),
        m22: spec_vp2(rr, mm, v.m22 as int, v.m23 as int),
        m23: spec_vp(-SCALE as int, v.m22 as int),
        m30: spec_vp(w, v.m30 as int),
        m31: spec_vp(h, v.m31 as int),
        m32: spec_vp2(rr, mm, v.m32 as int, v.m33 as int),
        m33: spec_vp(-SCALE as int, v.m32 as int),
    }
}

/// The GPU-visible pair: the combined view-projection and the projection
/// alone, fully determined by the camera entity.
#[derive(Clone, Copy, PartialEq, Eq, Structural, Debug)]
pub struct CameraUniform {
    pub view_proj: FxMat4,
    pub proj: FxMat4,
}

pub open spec fn spec_build_view_projection(e: CameraEntity) -> CameraUniform {
    CameraUniform { view_proj: spec_view_proj(e), proj: spec_projection_matrix(e) }
}

fn vp_entry(p: i64, a: i64) -> (r: i64)
    requires
        -4_000_000_000_000_000_000 <= p <= 4_000_000_000_000_000_000,
    ensures
        r == spec_vp(p as int, a as int),
{
    proof {
        lemma_mul_abs_le(
            p as int,
            a as int,
            4_000_000_000_000_000_000,
            0x8000_0000_0000_0000,
        );
    }
    clamp_i128(div_round_i128(mul_ii(p, a), SCALE as i128), MAT_LIMIT)
}

fn vp_entry2(rr: i64, mm: i64, c: i64, d: i64) -> (r: i64)
    requires
        -4_000_000_000_000_000_000 <= rr <= 4_000_000_000_000_000_000,
        -4_000_000_000_000_000_000 <= mm <= 4_000_000_000_000_000_000,
    ensures
        r == spec_vp2(rr as int, mm as int, c as int, d as int),
{
    proof {
        lemma_mul_abs_le(
            rr as int,
            c as int,
            4_000_000_000_000_000_000,
            0x8000_0000_0000_0000,
        );
        lemma_mul_abs_le(
            mm as int,
            d as int,
            4_000_000_000_000_000_000,
            0x8000_0000_0000_0000,
        );
    }
    clamp_i128(div_round_i128(mul_ii(rr, c) + mul_ii(mm, d), SCALE as i128), MAT_LIMIT)
}

impl CameraEntity {
    /// Recompute the view matrix and the perspective projection and
    /// return the combined pair.
    pub fn build_view_projection_matrix(&self) -> (r: CameraUniform)
        requires
            self.wf(),
        ensures
            r == spec_build_view_projection(*self),
    {
        let e = *self;
        proof {
            lemma_dir_comps(e.dir);
        }
        let f = renormalize(e.dir);
        let up_v = FxVec3 { x: 0, y: SCALE, z: 0 };
        let cf = fx_cross(&f, &up_v);
        proof {
            assert(cf == cross_vec(f, up_vec()));
            assert(cf.x == -(f.z * SCALE) && cf.y == 0 && cf.z == f.x * SCALE);
            lemma_squares_nonneg(cf);
            assert(norm_sq(cf) >= SCALE_SQ) by (nonlinear_arith)
                requires
                    cf.x == -(f.z * SCALE) && cf.y == 0 && cf.z == f.x * SCALE,
                    f.x != 0 || f.z != 0,
                    norm_sq(cf) == cf.x * cf.x + cf.y * cf.y + cf.z * cf.z,
                    SCALE == 1_000_000,
                    SCALE_SQ == 1_000_000_000_000,
            ;
            lemma_renormalize_comps(cf);
        }
        let s = renormalize(cf);
        let cu = fx_cross(&s, &f);
        proof {
            lemma_mul_abs_le(s.y as int, f.z as int, 1_100_000, 1_100_000);
            lemma_mul_abs_le(s.z as int, f.y as int, 1_100_000, 1_100_000);
            lemma_mul_abs_le(s.z as int, f.x as int, 1_100_000, 1_100_000);
            lemma_mul_abs_le(s.x as int, f.z as int, 1_100_000, 1_100_000);
            lemma_mul_abs_le(s.x as int, f.y as int, 1_100_000, 1_100_000);
            lemma_mul_abs_le(s.y as int, f.x as int, 1_100_000, 1_100_000);
            lemma_div_round_le(cross_x(s, f), SCALE as int, 2_500_000);
            lemma_div_round_le(cross_y(s, f), SCALE as int, 2_500_000);
            lemma_div_round_le(cross_z(s, f), SCALE as int, 2_500_000);
        }
        let ux = div_round_i128(cu.x as i128, SCALE as i128) as i64;
        let uy = div_round_i128(cu.y as i128, SCALE as i128) as i64;
        let uz = div_round_i128(cu.z as i128, SCALE as i128) as i64;
        let u = FxVec3 { x: ux, y: uy, z: uz };
        proof {
            assert(u == spec_view_u(e));
            lemma_mul_abs_le(e.pos.x as int, s.x as int, POS_LIMIT as int, 1_100_000);
            lemma_mul_abs_le(e.pos.y as int, s.y as int, POS_LIMIT as int, 1_100_000);
            lemma_mul_abs_le(e.pos.z as int, s.z as int, POS_LIMIT as int, 1_100_000);
            lemma_mul_abs_le(e.pos.x as int, u.x as int, POS_LIMIT as int, 2_500_000);
            lemma_mul_abs_le(e.pos.y as int, u.y as int, POS_LIMIT as int, 2_500_000);
            lemma_mul_abs_le(e.pos.z as int, u.z as int, POS_LIMIT as int, 2_500_000);
            lemma_mul_abs_le(e.pos.x as int, f.x as int, POS_LIMIT as int, 1_100_000);
            lemma_mul_abs_le(e.pos.y as int, f.y as int, POS_LIMIT as int, 1_100_000);
            lemma_mul_abs_le(e.pos.z as int, f.z as int, POS_LIMIT as int, 1_100_000);
            lemma_div_round_le(dot(e.pos, s), SCALE as int, 3_400_000_000_000int);
            lemma_div_round_le(dot(e.pos, u), SCALE as int, 7_600_000_000_000int);
            lemma_div_round_le(dot(e.pos, f), SCALE as int, 3_400_000_000_000int);
        }
        let ts = -(div_round_i128(fx_dot(&e.pos, &s), SCALE as i128) as i64);
        let tu = -(div_round_i128(fx_dot(&e.pos, &u), SCALE as i128) as i64);
        let tf = div_round_i128(fx_dot(&e.pos, &f), SCALE as i128) as i64;
        let view = FxMat4 {
            m00: s.x,
            m01: u.x,
            m02: -f.x,
            m03: 0,
            m10: s.y,
            m11: u.y,
            m12: -f.y,
            m13: 0,
            m20: s.z,
            m21: u.z,
            m22: -f.z,
            m23: 0,
            m30: ts,
            m31: tu,
            m32: tf,
            m33: SCALE,
        };
        proof {
            assert(view == spec_view_matrix(e));
        }
        // Projection pieces.
        let half = ((e.fov_y as u64) / 2) as i64;
        proof {
            vstd::arithmetic::div_mod::lemma_fundamental_div_mod(e.fov_y as int, 2);
            vstd::arithmetic::div_mod::lemma_mod_bound(e.fov_y as int, 2);
            assert(500_000 <= half <= 89_500_000);
            crate::trig::lemma_sin_half_fov(half as int);
        }
        let (c2, s2) = fx_sincos(half);
        proof {
            lemma_mul_abs_le(c2 as int, SCALE as int, SCALE as int, SCALE as int);
            assert(-(1_000_000_000_000 * (s2 as int)) <= c2 * SCALE <= 1_000_000_000_000 * (
            s2 as int)) by (nonlinear_arith)
                requires
                    s2 >= 1,
                    -1_000_000_000_000 <= c2 * SCALE <= 1_000_000_000_000,
            ;
            lemma_div_round_le(c2 * SCALE, s2 as int, 1_000_000_000_000int);
        }
        let h = div_round_i128(mul_ii(c2, SCALE), s2 as i128) as i64;
        proof {
            lemma_mul_abs_le(h as int, SCALE as int, 1_000_000_000_000int, SCALE as int);
            assert(-(1_000_000_000_000_000_000 * (e.aspect_ratio as int)) <= h * SCALE <= 1_000_000_000_000_000_000
                * (e.aspect_ratio as int)) by (nonlinear_arith)
                requires
                    e.aspect_ratio >= 1,
                    -1_000_000_000_000_000_000 <= h * SCALE <= 1_000_000_000_000_000_000,
            ;
            lemma_div_round_le(h * SCALE, e.aspect_ratio as int, 1_000_000_000_000_000_000int);
        }
        let w = div_round_i128(mul_ii(h, SCALE), e.aspect_ratio as i128) as i64;
        proof {
            lemma_mul_abs_le(e.z_far as int, SCALE as int, 1_000_000_000_000int, SCALE as int);
            assert(-(1_000_000_000_000 * (e.z_far - e.z_near)) <= e.z_far * SCALE
                <= 1_000_000_000_000 * (e.z_far - e.z_near)) by (nonlinear_arith)
                requires
                    e.z_far - e.z_near >= 1_000_000,
                    0 <= e.z_far * SCALE <= 1_000_000_000_000_000_000,
            ;
            lemma_div_round_le(e.z_far * SCALE, e.z_far - e.z_near, 1_000_000_000_000int);
        }
        let rr = -(div_round_i128(mul_ii(e.z_far, SCALE), (e.z_far - e.z_near) as i128) as i64);
        proof {
            lemma_mul_abs_le(rr as int, e.z_near as int, 1_000_000_000_000int, 1_000_000_000_000int);
            lemma_div_round_le(rr * e.z_near, SCALE as int, 1_000_000_000_000_000_000int);
        }
        let mm = div_round_i128(mul_ii(rr, e.z_near), SCALE as i128) as i64;
        let proj = FxMat4 {
            m00: w,
            m01: 0,
            m02: 0,
            m03: 0,
            m10: 0,
            m11: h,
            m12: 0,
            m13: 0,
            m20: 0,
            m21: 0,
            m22: rr,
            m23: -SCALE,
            m30: 0,
            m31: 0,
            m32: mm,
            m33: 0,
        };
        proof {
            assert(proj == spec_projection_matrix(e));
        }
        let ns = -SCALE;
        let view_proj = FxMat4 {
            m00: vp_entry(w, view.m00),
            m01: vp_entry(h, view.m01),
            m02: vp_entry2(rr, mm, view.m02, view.m03),
            m03: vp_entry(ns, view.m02),
            m10: vp_entry(w, view.m10),
            m11: vp_entry(h, view.m11),
            m12: vp_entry2(rr, mm, view.m12, view.m13),
            m13: vp_entry(ns, view.m12),
            m20: vp_entry(w, view.m20),
            m21: vp_entry(h, view.m21),
            m22: vp_entry2(rr, mm, view.m22, view.m23),
            m23: vp_entry(ns, view.m22),
            m30: vp_entry(w, view.m30),
            m31: vp_entry(h, view.m31),
            m32: vp_entry2(rr, mm, view.m32, view.m33),
            m33: vp_entry(ns, view.m32),
        };
        CameraUniform { view_proj, proj }
    }
}

impl CameraUniform {
    pub fn new() -> (r: Self)
        ensures
            r == (CameraUniform { view_proj: spec_identity_mat(), proj: spec_identity_mat() }),
    {
        let id = FxMat4 {
            m00: SCALE,
            m01: 0,
            m02: 0,
            m03: 0,
            m10: 0,
            m11: SCALE,
            m12: 0,
            m13: 0,
            m20: 0,
            m21: 0,
            m22: SCALE,
            m23: 0,
            m30: 0,
            m31: 0,
            m32: 0,
            m33: SCALE,
        };
        CameraUniform { view_proj: id, proj: id }
    }

    pub fn update(&mut self, camera_entity: &CameraEntity)
        requires
            camera_entity.wf(),
        ensures
            *final(self) == spec_build_view_projection(*camera_entity),
    {
        *self = camera_entity.build_view_projection_matrix();
    }
}

impl Default for CameraUniform {
    fn default() -> (r: Self)
        ensures
            r == (CameraUniform { view_proj: spec_identity_mat(), proj: spec_identity_mat() }),
    {
        CameraUniform::new()
    }
}

/// The whole camera: view entity, GPU-visible uniform pair, and the
/// input-driven controller. The uniform is always the one derived from
/// the entity.
pub struct Camera {
    pub entity: CameraEntity,
    pub uniform: CameraUniform,
    pub controller: CameraController,
}

impl Camera {
    pub open spec fn wf(self) -> bool {
        &&& self.entity.wf()
        &&& self.controller.wf()
        &&& self.uniform == spec_build_view_projection(self.entity)
    }

    /// Build the starting camera for a surface of the given pixel size:
    /// eye at (50, 50, 50) looking along the diagonal toward the origin.
    pub fn create_camera(width: u32, height: u32) -> (cam: Camera)
        requires
            1 <= width <= 16384,
            1 <= height <= 16384,
        ensures
            cam.wf(),
            cam.entity.pos == (FxVec3 { x: 50_000_000i64, y: 50_000_000i64, z: 50_000_000i64 }),
            cam.entity.dir == spec_renormalize(
                FxVec3 { x: (-SCALE) as i64, y: (-SCALE) as i64, z: (-SCALE) as i64 },
            ),
            cam.entity.fov_y == 45_000_000i64,
            cam.entity.z_near == SCALE,
            cam.entity.z_far == 1_000_000_000i64,
            cam.entity.aspect_ratio == div_round(width * SCALE, height as int),
            cam.controller == (CameraController {
                speed: SPEED,
                sens: SENS,
                is_forward_pressed: false,
                is_backward_pressed: false,
                is_left_pressed: false,
                is_right_pressed: false,
                delta_x: 0i64,
                delta_y: 0i64,
            }),
    {
        let seed_dir = FxVec3 { x: -SCALE, y: -SCALE, z: -SCALE };
        proof {
            assert(norm_sq(seed_dir) == 3 * SCALE_SQ) by (nonlinear_arith)
                requires
                    seed_dir.x == -1_000_000 && seed_dir.y == -1_000_000 && seed_dir.z
                        == -1_000_000,
                    norm_sq(seed_dir) == seed_dir.x * seed_dir.x + seed_dir.y * seed_dir.y
                        + seed_dir.z * seed_dir.z,
                    SCALE_SQ == 1_000_000_000_000,
            ;
            lemma_renormalize_unit(seed_dir);
            lemma_renormalize_keeps_axis(seed_dir);
        }
        let dir = renormalize(seed_dir);
        proof {
            lemma_mul_abs_le(width as int, SCALE as int, 16_384, SCALE as int);
            lemma_div_round_le(width * SCALE, height as int, 16_384_000_000int);
            lemma_div_round_err(width * SCALE, height as int);
            vstd::arithmetic::div_mod::lemma_fundamental_div_mod(height as int, 2);
            vstd::arithmetic::div_mod::lemma_mod_bound(height as int, 2);
            let q = div_round(width * SCALE, height as int);
            assert(width * SCALE >= SCALE) by (nonlinear_arith)
                requires
                    width >= 1,
                    SCALE == 1_000_000,
            ;
            assert((height as int) * q >= width * SCALE - height);
            assert(q >= 1) by (nonlinear_arith)
                requires
                    (height as int) * q >= width * SCALE - height,
                    width * SCALE >= 1_000_000,
                    1 <= height <= 16_384,
            ;
        }
        let aspect = div_round_i128(mul_ii(width as i64, SCALE), height as i128) as i64;
        let entity = CameraEntity {
            pos: FxVec3 { x: 50_000_000, y: 50_000_000, z: 50_000_000 },
            dir,
            up: FxVec3 { x: 0, y: SCALE, z: 0 },
            aspect_ratio: aspect,
            fov_y: 45_000_000,
            z_near: SCALE,
            z_far: 1_000_000_000,
        };
        let mut uniform = CameraUniform::new();
        uniform.update(&entity);
        let controller = CameraController::new(SPEED, SENS);
        Camera { entity, uniform, controller }
    }

    /// One per-frame camera update: apply the controller to the entity,
    /// then refresh the GPU-visible uniform.
    pub fn update(&mut self, delta: i64)
        requires
            old(self).wf(),
            -DT_LIMIT <= delta <= DT_LIMIT,
        ensures
            final(self).wf(),
            final(self).entity == spec_update_entity(
                old(self).controller,
                old(self).entity,
                delta,
            ),
            final(self).controller == spec_update_controller(old(self).controller),
            final(self).uniform == spec_build_view_projection(final(self).entity),
    {
        self.controller.update_camera_entity(&mut self.entity, delta);
        self.uniform.update(&self.entity);
    }
}

} // verus!
