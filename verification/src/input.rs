//! Routing of keyboard events: camera keys first, then the pause,
//! single-step and cursor-capture toggles.

use crate::camera::{key_consumed, spec_handle_key, KeyCode};
use crate::config::DEFAULT_DELTA_TIME;
use crate::state::{spec_frame_points, State};
use vstd::prelude::*;

verus! {

/// Whether the event asks the application to quit.
pub fn wants_exit(key: KeyCode, pressed: bool) -> (b: bool)
    ensures
        b == (key == KeyCode::Escape && pressed),
{
    match key {
        KeyCode::Escape => pressed,
        _ => false,
    }
}

/// Route one key event. Camera keys update the held-direction flags. A
/// released Return while paused performs exactly one simulation step of
/// the default size, however much wall time has elapsed. A released
/// Space toggles the pause flag; a released Slash toggles cursor
/// capture. Returns whether the event was consumed.
pub fn input(state: &mut State, key: KeyCode, pressed: bool) -> (consumed: bool)
    requires
        old(state).wf(),
    ensures
        final(state).wf(),
        consumed == (key_consumed(key) || (!pressed && ((key == KeyCode::Return && old(state).paused) || key == KeyCode::Space || key == KeyCode::Slash))),
        key_consumed(key) ==> final(state).camera.controller == spec_handle_key(
            old(state).camera.controller,
            key,
            pressed,
        ) && final(state).lorenz_state == old(state).lorenz_state && final(state).paused == old(state).paused && final(state).cursor_grab == old(state).cursor_grab,
        (!key_consumed(key) && key == KeyCode::Return && !pressed && old(state).paused) ==> final(state).lorenz_state.points@ == spec_frame_points(
            false,
            old(state).config.lorenz,
            DEFAULT_DELTA_TIME as i64,
            old(state).lorenz_state.points@,
        ) && final(state).paused == old(state).paused && final(state).cursor_grab == old(state).cursor_grab,
        (!key_consumed(key) && key == KeyCode::Space && !pressed) ==> final(state).paused == !old(state).paused && final(state).lorenz_state == old(state).lorenz_state && final(state).cursor_grab == old(state).cursor_grab,
        (!key_consumed(key) && key == KeyCode::Slash && !pressed) ==> final(state).cursor_grab
            == !old(state).cursor_grab && final(state).lorenz_state == old(state).lorenz_state
            && final(state).paused == old(state).paused,
        !consumed ==> final(state).lorenz_state == old(state).lorenz_state && final(state).paused
            == old(state).paused && final(state).cursor_grab == old(state).cursor_grab && final(state).camera.controller == old(state).camera.controller,
        final(state).camera.entity == old(state).camera.entity,
        final(state).camera.uniform == old(state).camera.uniform,
        final(state).config == old(state).config,
        final(state).delta_time == old(state).delta_time,
{
    let consumed = state.camera.controller.handle_key_input(key, pressed);
    if consumed {
        return true;
    }
    match key {
        KeyCode::Return => {
            if !pressed && state.paused {
                state.update_lorenz(DEFAULT_DELTA_TIME);
                true
            } else {
                false
            }
        },
        KeyCode::Space => {
            if !pressed {
                state.paused = !state.paused;
                true
            } else {
                false
            }
        },
        KeyCode::Slash => {
            if !pressed {
                state.cursor_grab = !state.cursor_grab;
                true
            } else {
                false
            }
        },
        _ => false,
    }
}

} // verus!
