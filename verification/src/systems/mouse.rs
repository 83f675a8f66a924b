//! Sampling of the mouse buttons, frame by frame.

use vstd::prelude::*;
use crate::components::{MouseButtonState, SelectionBoxState};

verus! {

/// Records this frame's button state, keeping last frame's beside it so that
/// later passes can see a press or a release as the difference of the two.
pub fn track_mouse_button_state(
    left_down: bool,
    right_down: bool,
    button_state: &mut MouseButtonState,
)
    ensures
        *final(button_state) == (MouseButtonState {
            left_pressed: left_down,
            right_pressed: right_down,
            left_was_pressed: old(button_state).left_pressed,
            right_was_pressed: old(button_state).right_pressed,
        }),
{
    button_state.left_was_pressed = button_state.left_pressed;
    button_state.right_was_pressed = button_state.right_pressed;
    button_state.left_pressed = left_down;
    button_state.right_pressed = right_down;
}

/// Repairs a button recorded as held that is not held any more, and ends
/// the drag box whenever the right button was released or found stuck,
/// wherever the cursor is.
pub fn cleanup_mouse_button_state(
    left_down: bool,
    right_down: bool,
    button_state: &mut MouseButtonState,
    selection_box_state: &mut SelectionBoxState,
)
    ensures
        *final(button_state) == (MouseButtonState {
            left_pressed: old(button_state).left_pressed && left_down,
            right_pressed: old(button_state).right_pressed && right_down,
            ..*old(button_state)
        }),
        *final(selection_box_state) == (SelectionBoxState {
            is_active: old(selection_box_state).is_active && !(old(button_state).right_released()
                || (old(button_state).right_pressed && !right_down)),
            ..*old(selection_box_state)
        }),
{
    if button_state.left_pressed && !left_down {
        button_state.left_pressed = false;
    }
    if button_state.right_was_pressed && !button_state.right_pressed {
        if selection_box_state.is_active {
            selection_box_state.is_active = false;
        }
    }
    if button_state.right_pressed && !right_down {
        button_state.right_pressed = false;
        if selection_box_state.is_active {
            selection_box_state.is_active = false;
        }
    }
}

} // verus!
