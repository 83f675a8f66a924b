//! A camera controller that turns with the mouse only while the cursor is
//! over the camera's viewport, and moves with the keyboard anywhere.

use vstd::prelude::*;
use crate::fixed::{clamp_coord, lemma_mul_bound, mul_scaled, saturate, scaled};
use crate::screen::{physical, to_physical, Viewport};
use crate::vector::Vec2;

verus! {

/// The steepest pitch, up or down: a hundredth of a radian short of vertical.
pub const MAX_PITCH: i64 = 1_560_796;

/// A mouse movement whose squared length, in squared millionths of a
/// pixel, is at most this does not turn the camera.
pub const ROTATION_DEAD_ZONE: i64 = 119_209;

/// Settings of the controller.
#[derive(Clone, Copy, Debug, PartialEq, Eq, Structural)]
pub struct ViewportConstrainedCamera {
    /// Radians turned per pixel of mouse movement.
    pub sensitivity: i64,
    /// Metres moved per second.
    pub speed: i64,
    /// Factor on the speed while Shift is held.
    pub fast_speed_multiplier: i64,
}

impl Default for ViewportConstrainedCamera {
    /// 0.003 rad per pixel, 5 m/s, three times as fast with Shift.
    fn default() -> (s: Self)
        ensures
            s == (ViewportConstrainedCamera {
                sensitivity: 3_000,
                speed: 5_000_000,
                fast_speed_multiplier: 3_000_000,
            }),
    {
        ViewportConstrainedCamera {
            sensitivity: 3_000,
            speed: 5_000_000,
            fast_speed_multiplier: 3_000_000,
        }
    }
}

/// The direction the camera looks in, as two angles in millionths of a radian.
#[derive(Clone, Copy, Debug, PartialEq, Eq, Structural)]
pub struct ViewportConstrainedCameraState {
    /// Up and down; kept within `[-MAX_PITCH, MAX_PITCH]` by the controller.
    pub pitch: i64,
    /// Left and right.
    pub yaw: i64,
    /// The angles have been read from the camera's orientation.
    pub initialized: bool,
}

/// Whether the cursor is over the camera's viewport.
#[derive(Clone, Copy, Debug, PartialEq, Eq, Structural)]
pub struct CameraViewportCursorState {
    pub is_cursor_in_viewport: bool,
}

impl Default for CameraViewportCursorState {
    fn default() -> (s: Self)
        ensures
            s == (CameraViewportCursorState { is_cursor_in_viewport: false }),
    {
        CameraViewportCursorState { is_cursor_in_viewport: false }
    }
}

/// The cursor counts as over the camera's viewport: there are a cursor
/// and a camera, and the camera either has no viewport yet or has one that
/// contains the cursor scaled to physical pixels.
pub open spec fn cursor_in_camera(
    cursor: Option<Vec2>,
    scale_factor: i64,
    camera: Option<Option<Viewport>>,
) -> bool {
    match (cursor, camera) {
        (Some(c), Some(Some(vp))) => vp.contains(
            physical(c.x as int, scale_factor as int),
            physical(c.y as int, scale_factor as int),
        ),
        (Some(_), Some(None)) => true,
        _ => false,
    }
}

/// Records whether the cursor is over the camera's viewport. `camera` is
/// `None` when there is no camera, and holds `None` when the camera has no
/// viewport yet.
pub fn update_viewport_cursor_state(
    cursor: Option<Vec2>,
    scale_factor: i64,
    camera: Option<Option<Viewport>>,
    cursor_state: &mut CameraViewportCursorState,
)
    ensures
        final(cursor_state).is_cursor_in_viewport == cursor_in_camera(cursor, scale_factor, camera),
{
    let inside: bool = match (cursor, camera) {
        (Some(c), Some(Some(vp))) => {
            let px: i128 = to_physical(c.x, scale_factor);
            let py: i128 = to_physical(c.y, scale_factor);
            vp.contains_point(px, py)
        },
        (Some(_), Some(None)) => true,
        _ => false,
    };
    cursor_state.is_cursor_in_viewport = inside;
}

/// Takes the angles read from the camera's orientation, once: a state
/// already initialized keeps its angles.
pub fn initialize_viewport_constrained_camera_state(
    state: &mut ViewportConstrainedCameraState,
    yaw: i64,
    pitch: i64,
)
    ensures
        *final(state) == (if old(state).initialized {
            *old(state)
        } else {
            ViewportConstrainedCameraState { pitch, yaw, initialized: true }
        }),
{
    if !state.initialized {
        state.pitch = pitch;
        state.yaw = yaw;
        state.initialized = true;
    }
}

/// The pitch kept within `[-MAX_PITCH, MAX_PITCH]`.
pub open spec fn clamp_pitch(pitch: int) -> int {
    if pitch < -MAX_PITCH {
        -(MAX_PITCH as int)
    } else if pitch > MAX_PITCH {
        MAX_PITCH as int
    } else {
        pitch
    }
}

/// An angle after the mouse moved `delta` along the matching screen axis.
pub open spec fn turned(angle: int, delta: int, sensitivity: int) -> int {
    angle - scaled(clamp_coord(delta), sensitivity)
}

/// The mouse movement from `last` to `current` is too small to turn the camera.
pub open spec fn in_dead_zone(last: Vec2, current: Vec2) -> bool {
    let dx = current.x - last.x;
    let dy = current.y - last.y;
    dx * dx + dy * dy <= ROTATION_DEAD_ZONE
}

/// The mouse turns the camera this frame: the left button is held, the
/// cursor is in the window and over the viewport, a position from the
/// frame before is known, and the movement since is outside the dead zone.
pub open spec fn mouse_turns(
    left_pressed: bool,
    cursor_in_viewport: bool,
    cursor: Option<Vec2>,
    last_mouse_pos: Option<Vec2>,
) -> bool {
    &&& left_pressed
    &&& cursor_in_viewport
    &&& cursor.is_some()
    &&& last_mouse_pos.is_some()
    &&& !in_dead_zone(last_mouse_pos.unwrap(), cursor.unwrap())
}

/// The position to remember for the next frame. It is forgotten when the
/// button is up or the cursor has left the window, kept while the button
/// is held outside the viewport, and otherwise is the cursor's.
pub open spec fn remembered(
    left_pressed: bool,
    cursor_in_viewport: bool,
    cursor: Option<Vec2>,
    last_mouse_pos: Option<Vec2>,
) -> Option<Vec2> {
    if !left_pressed {
        None
    } else if !cursor_in_viewport {
        last_mouse_pos
    } else {
        cursor
    }
}

/// Turns the camera with the mouse. While the left button is held over
/// the viewport, the yaw and pitch follow the movement of the cursor since
/// the frame before, scaled by the sensitivity; the pitch stops at
/// `MAX_PITCH` either way. Returns whether the angles are to be applied to
/// the camera.
pub fn handle_viewport_constrained_mouse_rotation(
    camera: &ViewportConstrainedCamera,
    state: &mut ViewportConstrainedCameraState,
    left_pressed: bool,
    cursor_in_viewport: bool,
    cursor: Option<Vec2>,
    last_mouse_pos: &mut Option<Vec2>,
) -> (turn: bool)
    ensures
        turn == mouse_turns(left_pressed, cursor_in_viewport, cursor, *old(last_mouse_pos)),
        *final(last_mouse_pos) == remembered(
            left_pressed,
            cursor_in_viewport,
            cursor,
            *old(last_mouse_pos),
        ),
        final(state).initialized == old(state).initialized,
        !turn ==> *final(state) == *old(state),
        turn ==> final(state).yaw == clamp_coord(
            turned(
                old(state).yaw as int,
                cursor.unwrap().x - old(last_mouse_pos).unwrap().x,
                camera.sensitivity as int,
            ),
        ) && final(state).pitch == clamp_pitch(
            turned(
                old(state).pitch as int,
                cursor.unwrap().y - old(last_mouse_pos).unwrap().y,
                camera.sensitivity as int,
            ),
        ),
{
    if !left_pressed || !cursor_in_viewport {
        if !left_pressed {
            *last_mouse_pos = None;
        }
        return false;
    }
    let current_pos = match cursor {
        Some(c) => c,
        None => {
            *last_mouse_pos = None;
            return false;
        },
    };
    let previous = *last_mouse_pos;
    *last_mouse_pos = Some(current_pos);
    let last_pos = match previous {
        Some(p) => p,
        None => { return false; },
    };
    let dx: i128 = current_pos.x as i128 - last_pos.x as i128;
    let dy: i128 = current_pos.y as i128 - last_pos.y as i128;
    let limit: i128 = 1_000;
    if -limit < dx && dx < limit && -limit < dy && dy < limit {
        proof {
            lemma_mul_bound(dx as int, dx as int, limit as int, limit as int);
            lemma_mul_bound(dy as int, dy as int, limit as int, limit as int);
        }
        if dx * dx + dy * dy <= ROTATION_DEAD_ZONE as i128 {
            return false;
        }
    } else {
        proof {
            assert(dx * dx >= 0 && dy * dy >= 0) by (nonlinear_arith);
            assert(dx * dx >= limit * limit || dy * dy >= limit * limit) by (nonlinear_arith)
                requires
                    !(-limit < dx && dx < limit && -limit < dy && dy < limit),
                    limit > 0,
            ;
        }
    }
    let yaw: i128 = state.yaw as i128 - mul_scaled(saturate(dx), camera.sensitivity);
    let pitch: i128 = state.pitch as i128 - mul_scaled(saturate(dy), camera.sensitivity);
    state.yaw = saturate(yaw);
    state.pitch = if pitch < -(MAX_PITCH as i128) {
        -MAX_PITCH
    } else if pitch > MAX_PITCH as i128 {
        MAX_PITCH
    } else {
        pitch as i64
    };
    true
}

/// The keys that move the camera, as held this frame.
#[derive(Clone, Copy, Debug, PartialEq, Eq, Structural)]
pub struct MovementKeys {
    pub forward: bool,
    pub backward: bool,
    pub left: bool,
    pub right: bool,
    pub down: bool,
    pub up: bool,
    pub fast: bool,
}

/// Where the keys say to move: along each of the camera's own axes by
/// -1, 0 or 1, at `speed`. The direction is yet to be brought to unit length.
#[derive(Clone, Copy, Debug, PartialEq, Eq, Structural)]
pub struct MovementIntent {
    pub forward: i8,
    pub right: i8,
    pub up: i8,
    pub speed: i64,
}

/// What a pair of opposite keys adds up to.
pub open spec fn key_axis(positive: bool, negative: bool) -> int {
    (if positive {
        1int
    } else {
        0int
    }) - (if negative {
        1int
    } else {
        0int
    })
}

/// The speed to move at: the camera's, times the fast factor while the
/// fast key is held.
pub open spec fn movement_speed(camera: ViewportConstrainedCamera, fast: bool) -> int {
    if fast {
        clamp_coord(scaled(camera.speed as int, camera.fast_speed_multiplier as int))
    } else {
        camera.speed as int
    }
}

fn axis_of(positive: bool, negative: bool) -> (a: i8)
    ensures
        a == key_axis(positive, negative),
{
    let p: i8 = if positive {
        1
    } else {
        0
    };
    let n: i8 = if negative {
        1
    } else {
        0
    };
    p - n
}

/// Reads the movement keys: opposite keys cancel, and the fast key raises
/// the speed. The keys work wherever the cursor is.
pub fn handle_viewport_constrained_keyboard_movement(
    camera: &ViewportConstrainedCamera,
    keys: &MovementKeys,
) -> (intent: MovementIntent)
    ensures
        intent.forward == key_axis(keys.forward, keys.backward),
        intent.right == key_axis(keys.right, keys.left),
        intent.up == key_axis(keys.up, keys.down),
        intent.speed == movement_speed(*camera, keys.fast),
{
    let speed: i64 = if keys.fast {
        saturate(mul_scaled(camera.speed, camera.fast_speed_multiplier))
    } else {
        camera.speed
    };
    MovementIntent {
        forward: axis_of(keys.forward, keys.backward),
        right: axis_of(keys.right, keys.left),
        up: axis_of(keys.up, keys.down),
        speed,
    }
}

} // verus!
