//! Passes that keep the camera controller in step with the controls.

use vstd::prelude::*;
use crate::components::CameraViewChanged;
use crate::screen::{physical, to_physical, Viewport};
use crate::vector::Vec2;

verus! {

/// Serves a pending request to reset the camera controller: returns the
/// camera whose controller is to be started afresh and takes the request
/// back. A request that names no camera stays pending.
pub fn reset_free_camera_after_view_change(camera_changed: &mut CameraViewChanged) -> (camera:
    Option<u64>)
    ensures
        old(camera_changed).needs_reset && old(camera_changed).entity.is_some() ==> camera == old(camera_changed).entity && *final(camera_changed) == (CameraViewChanged {
            needs_reset: false,
            entity: None,
        }),
        !(old(camera_changed).needs_reset && old(camera_changed).entity.is_some())
            ==> camera.is_none() && *final(camera_changed) == *old(camera_changed),
{
    if camera_changed.needs_reset {
        match camera_changed.entity {
            Some(entity) => {
                camera_changed.needs_reset = false;
                camera_changed.entity = None;
                return Some(entity);
            },
            None => {},
        }
    }
    None
}

/// The cursor is over the viewport: both exist, and the cursor, scaled to
/// physical pixels, lies inside.
pub open spec fn cursor_over(cursor: Option<Vec2>, scale_factor: i64, viewport: Option<Viewport>) -> bool {
    match (cursor, viewport) {
        (Some(c), Some(vp)) => vp.contains(
            physical(c.x as int, scale_factor as int),
            physical(c.y as int, scale_factor as int),
        ),
        _ => false,
    }
}

/// Decides whether mouse input to the camera is blocked: it is, unless
/// the cursor is over the camera's viewport.
pub fn constrain_free_camera_mouse_to_viewport(
    cursor: Option<Vec2>,
    scale_factor: i64,
    viewport: Option<Viewport>,
) -> (is_blocked: bool)
    ensures
        is_blocked == !cursor_over(cursor, scale_factor, viewport),
{
    match (cursor, viewport) {
        (Some(c), Some(vp)) => {
            let px: i128 = to_physical(c.x, scale_factor);
            let py: i128 = to_physical(c.y, scale_factor);
            !vp.contains_point(px, py)
        },
        _ => true,
    }
}

} // verus!
