//! Camera movement decisions.
//!
//! The look state and the key handling are plain arithmetic and live
//! here; turning yaw and pitch into a direction vector is trigonometry
//! done by the host, which hands mouse positions in as fixed-point
//! values (thousandths of a pixel) and receives movement coefficients
//! back.

use vstd::prelude::*;

verus! {

/// Milli-degrees of pitch at which looking up or down stops, matching a
/// clamp at 89 degrees.
pub const PITCH_LIMIT: i64 = 89000;

/// Mouse sensitivity divisor: raw mouse deltas are divided by ten.
pub const SENSITIVITY_DIV: i64 = 10;

/// The look state: the last seen mouse position (thousandths of a
/// pixel), whether any position was seen yet, and the view angles in
/// milli-degrees.
#[derive(Clone, Copy, Debug, PartialEq, Eq, Structural)]
pub struct MovementState {
    pub last_mouse_x: i64,
    pub last_mouse_y: i64,
    pub first_mouse: bool,
    pub yaw: i64,
    pub pitch: i64,
}

impl MovementState {
    pub fn new() -> (s: MovementState)
        ensures
            s == (MovementState {
                last_mouse_x: 0i64,
                last_mouse_y: 0i64,
                first_mouse: true,
                yaw: 0i64,
                pitch: 0i64,
            }),
    {
        MovementState { last_mouse_x: 0, last_mouse_y: 0, first_mouse: true, yaw: 0, pitch: 0 }
    }
}

/// Saturating signed sum.
pub open spec fn sat_add(a: int, b: int) -> i64 {
    if a + b > i64::MAX {
        i64::MAX
    } else if a + b < i64::MIN {
        i64::MIN
    } else {
        (a + b) as i64
    }
}

/// Saturating signed difference.
pub open spec fn sat_sub(a: int, b: int) -> i64 {
    sat_add(a, -b)
}

/// A tenth of a signed value, rounded toward zero: the fixed-point form
/// of the mouse sensitivity factor.
pub open spec fn tenth(v: int) -> int {
    if v >= 0 {
        v / 10
    } else {
        -((-v) / 10)
    }
}

/// A view angle pushed back into the pitch range.
pub open spec fn clamp_pitch(p: int) -> i64 {
    if p > PITCH_LIMIT {
        PITCH_LIMIT
    } else if p < -PITCH_LIMIT {
        (-PITCH_LIMIT) as i64
    } else {
        p as i64
    }
}

fn sat_add_exec(a: i64, b: i64) -> (c: i64)
    ensures
        c == sat_add(a as int, b as int),
{
    let wide = (a as i128) + (b as i128);
    if wide > i64::MAX as i128 {
        i64::MAX
    } else if wide < i64::MIN as i128 {
        i64::MIN
    } else {
        wide as i64
    }
}

fn tenth_exec(v: i64) -> (r: i64)
    ensures
        r == tenth(v as int),
{
    if v >= 0 {
        ((v as u64) / (SENSITIVITY_DIV as u64)) as i64
    } else {
        let m = (((-(v as i128)) as u128) / (SENSITIVITY_DIV as u128)) as i64;
        -m
    }
}

fn sat_sub_exec(a: i64, b: i64) -> (c: i64)
    ensures
        c == sat_sub(a as int, b as int),
{
    let wide = (a as i128) - (b as i128);
    if wide > i64::MAX as i128 {
        i64::MAX
    } else if wide < i64::MIN as i128 {
        i64::MIN
    } else {
        wide as i64
    }
}

/// Folds one mouse position into the look state.
///
/// The first position only latches (no jump on the first frame). Later
/// positions turn the view by a tenth of the mouse delta: yaw by the
/// horizontal, pitch by the vertical, pitch clamped to the limit. The
/// result says whether the view turned at all, which is what forces an
/// accumulation reset.
pub fn update_look(state: &mut MovementState, mouse_x: i64, mouse_y: i64) -> (moved: bool)
    ensures
        ({
            let first = old(state).first_mouse;
            let base_x = if first {
                mouse_x
            } else {
                old(state).last_mouse_x
            };
            let base_y = if first {
                mouse_y
            } else {
                old(state).last_mouse_y
            };
            let x_offset = tenth(sat_sub(base_x as int, mouse_x as int) as int);
            let y_offset = tenth(sat_sub(base_y as int, mouse_y as int) as int);
            &&& final(state).first_mouse == false
            &&& final(state).last_mouse_x == mouse_x
            &&& final(state).last_mouse_y == mouse_y
            &&& final(state).yaw == sat_add(old(state).yaw as int, x_offset as int)
            &&& final(state).pitch == clamp_pitch(
                sat_add(old(state).pitch as int, y_offset as int) as int,
            )
            &&& moved == (x_offset != 0 || y_offset != 0)
        }),
{
    if state.first_mouse {
        state.last_mouse_x = mouse_x;
        state.last_mouse_y = mouse_y;
        state.first_mouse = false;
    }

    let x_offset = tenth_exec(sat_sub_exec(state.last_mouse_x, mouse_x));
    let y_offset = tenth_exec(sat_sub_exec(state.last_mouse_y, mouse_y));

    state.last_mouse_x = mouse_x;
    state.last_mouse_y = mouse_y;

    state.yaw = sat_add_exec(state.yaw, x_offset);
    let pitch = sat_add_exec(state.pitch, y_offset);
    state.pitch = if pitch > PITCH_LIMIT {
        PITCH_LIMIT
    } else if pitch < -PITCH_LIMIT {
        -PITCH_LIMIT
    } else {
        pitch
    };

    x_offset != 0 || y_offset != 0
}

/// Which movement keys are held.
#[derive(Clone, Copy, Debug, PartialEq, Eq, Structural)]
pub struct MovementKeys {
    pub forward: bool,
    pub backward: bool,
    pub left: bool,
    pub right: bool,
    pub up: bool,
    pub down: bool,
}

/// The signed step a key pair asks for.
pub open spec fn key_step(plus: bool, minus: bool, step: i64) -> i64 {
    (if plus {
        step as int
    } else {
        0
    } - if minus {
        step as int
    } else {
        0
    }) as i64
}

/// Turns held keys into movement coefficients along the camera's
/// forward, right and up axes — each `±(speed · Δt)` or zero — plus
/// whether any key asked to move. The host scales its real basis vectors
/// by these and decides, on the resulting vector, whether to reset
/// accumulation.
pub fn movement_deltas(keys: &MovementKeys, speed_dt: i64) -> (r: (i64, i64, i64, bool))
    requires
        speed_dt != i64::MIN,
    ensures
        r.0 == key_step(keys.forward, keys.backward, speed_dt),
        r.1 == key_step(keys.right, keys.left, speed_dt),
        r.2 == key_step(keys.up, keys.down, speed_dt),
        r.3 == (r.0 != 0 || r.1 != 0 || r.2 != 0),
{
    let fwd = step_of(keys.forward, keys.backward, speed_dt);
    let rgt = step_of(keys.right, keys.left, speed_dt);
    let upw = step_of(keys.up, keys.down, speed_dt);
    (fwd, rgt, upw, fwd != 0 || rgt != 0 || upw != 0)
}

fn step_of(plus: bool, minus: bool, step: i64) -> (r: i64)
    requires
        step != i64::MIN,
    ensures
        r == key_step(plus, minus, step),
{
    if plus && !minus {
        step
    } else if minus && !plus {
        -step
    } else {
        0
    }
}

} // verus!
