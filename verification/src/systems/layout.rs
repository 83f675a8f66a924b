//! The layout of the window: the rectangles of the panels around the 3D
//! view, and the viewport that is left for the camera.

use vstd::prelude::*;
use crate::components::{EguiLayoutState, StreamsPanelState};
use crate::constants::{EGUI_SECOND_TOP_BAR_HEIGHT, EGUI_TOP_BAR_HEIGHT, INSPECTOR_TOP};
use crate::fixed::{clamp_coord, div_floor, max_int, mul_scaled, saturate, scaled, ONE};
use crate::screen::Viewport;

verus! {

/// A rectangle of the user interface, in logical pixels.
#[derive(Clone, Copy, Debug, PartialEq, Eq, Structural)]
pub struct PanelRect {
    pub x: i64,
    pub y: i64,
    pub width: i64,
    pub height: i64,
}

/// Saturating difference, not below zero.
pub open spec fn extent_between(from: int, to: int) -> int {
    clamp_coord(max_int(to - from, 0))
}

fn extent(from: i64, to: i64) -> (r: i64)
    ensures
        r == extent_between(from as int, to as int),
{
    let d: i128 = to as i128 - from as i128;
    if d < 0 {
        0
    } else {
        saturate(d)
    }
}

/// The layout after this frame's measurements: the controls panel ends at
/// `left_panel_end_x`; the inspector is as wide as the controls panel up to
/// that edge, so it starts that far from the window's right edge; the bars
/// have their fixed heights.
pub open spec fn measured(
    layout: EguiLayoutState,
    left_panel_end_x: i64,
    window_right: i64,
) -> EguiLayoutState {
    EguiLayoutState {
        left_panel_end_x,
        right_panel_start_x: clamp_coord(window_right - left_panel_end_x) as i64,
        top_bars_height: (EGUI_TOP_BAR_HEIGHT + EGUI_SECOND_TOP_BAR_HEIGHT) as i64,
        bottom_bar_height: EGUI_SECOND_TOP_BAR_HEIGHT,
        ..layout
    }
}

/// Records this frame's measurements of the panels.
pub fn record_panel_edges(
    layout_state: &mut EguiLayoutState,
    left_panel_end_x: i64,
    window_right: i64,
)
    ensures
        *final(layout_state) == measured(*old(layout_state), left_panel_end_x, window_right),
{
    layout_state.left_panel_end_x = left_panel_end_x;
    layout_state.right_panel_start_x = saturate(window_right as i128 - left_panel_end_x as i128);
    layout_state.top_bars_height = EGUI_TOP_BAR_HEIGHT + EGUI_SECOND_TOP_BAR_HEIGHT;
    layout_state.bottom_bar_height = EGUI_SECOND_TOP_BAR_HEIGHT;
}

/// The right edge of the middle of the window: the window's right edge
/// when the inspector is hidden, the inspector's left edge when it is shown.
pub open spec fn middle_right(layout: EguiLayoutState, window_right: i64) -> i64 {
    if layout.inspector_collapsed {
        window_right
    } else {
        layout.right_panel_start_x
    }
}

fn middle_right_edge(layout: &EguiLayoutState, window_right: i64) -> (r: i64)
    ensures
        r == middle_right(*layout, window_right),
{
    if layout.inspector_collapsed {
        window_right
    } else {
        layout.right_panel_start_x
    }
}

/// The rectangle of the second bar at the top: from the end of the controls
/// panel to the window's right edge, directly under the first bar.
pub fn second_top_bar_rect(
    layout: &EguiLayoutState,
    first_top_bar_end_y: i64,
    window_right: i64,
) -> (rect: PanelRect)
    ensures
        rect == (PanelRect {
            x: layout.left_panel_end_x,
            y: first_top_bar_end_y,
            width: extent_between(layout.left_panel_end_x as int, window_right as int) as i64,
            height: EGUI_SECOND_TOP_BAR_HEIGHT,
        }),
{
    PanelRect {
        x: layout.left_panel_end_x,
        y: first_top_bar_end_y,
        width: extent(layout.left_panel_end_x, window_right),
        height: EGUI_SECOND_TOP_BAR_HEIGHT,
    }
}

/// The rectangle of the bar at the bottom: as wide as the second bar at the
/// top, against the window's bottom edge.
pub fn bottom_bar_rect(layout: &EguiLayoutState, window_right: i64, window_bottom: i64) -> (rect:
    PanelRect)
    ensures
        rect == (PanelRect {
            x: layout.left_panel_end_x,
            y: clamp_coord(window_bottom - EGUI_SECOND_TOP_BAR_HEIGHT) as i64,
            width: extent_between(layout.left_panel_end_x as int, window_right as int) as i64,
            height: EGUI_SECOND_TOP_BAR_HEIGHT,
        }),
{
    PanelRect {
        x: layout.left_panel_end_x,
        y: saturate(window_bottom as i128 - EGUI_SECOND_TOP_BAR_HEIGHT as i128),
        width: extent(layout.left_panel_end_x, window_right),
        height: EGUI_SECOND_TOP_BAR_HEIGHT,
    }
}

/// The rectangle of the inspector, or `None` when it is hidden: as wide as
/// the controls panel up to its end, against the window's right edge, from
/// `INSPECTOR_TOP` down to the window's bottom.
pub fn inspector_rect(layout: &EguiLayoutState, window_right: i64, window_height: i64) -> (rect:
    Option<PanelRect>)
    ensures
        rect == (if layout.inspector_collapsed {
            None
        } else {
            Some(
                PanelRect {
                    x: clamp_coord(window_right - layout.left_panel_end_x) as i64,
                    y: INSPECTOR_TOP,
                    width: layout.left_panel_end_x,
                    height: clamp_coord(window_height - INSPECTOR_TOP) as i64,
                },
            )
        }),
{
    if layout.inspector_collapsed {
        None
    } else {
        Some(
            PanelRect {
                x: saturate(window_right as i128 - layout.left_panel_end_x as i128),
                y: INSPECTOR_TOP,
                width: layout.left_panel_end_x,
                height: saturate(window_height as i128 - INSPECTOR_TOP as i128),
            },
        )
    }
}

/// The width of the panel in the left half of the middle: half the middle
/// (rounded down) while the 3D view is shown, all of it when the view is hidden.
pub open spec fn left_half_width(layout: EguiLayoutState, window_right: i64) -> int {
    let total = middle_right(layout, window_right) - layout.left_panel_end_x;
    if layout.d3_viewer_visible {
        total / 2
    } else {
        total
    }
}

/// The rectangle of the panel in the left half of the middle, or `None`
/// when it is hidden: it starts where the controls panel ends and lies
/// between the bars at the top and the bar at the bottom.
pub fn left_half_panel_rect(layout: &EguiLayoutState, window_right: i64, window_height: i64) -> (rect:
    Option<PanelRect>)
    ensures
        rect == (if layout.left_half_panel_collapsed {
            None
        } else {
            Some(
                PanelRect {
                    x: layout.left_panel_end_x,
                    y: layout.top_bars_height,
                    width: clamp_coord(left_half_width(*layout, window_right)) as i64,
                    height: clamp_coord(
                        window_height - layout.top_bars_height - layout.bottom_bar_height,
                    ) as i64,
                },
            )
        }),
{
    if layout.left_half_panel_collapsed {
        return None;
    }
    let total: i128 = middle_right_edge(layout, window_right) as i128
        - layout.left_panel_end_x as i128;
    let width: i128 = if layout.d3_viewer_visible {
        div_floor(total, 2)
    } else {
        total
    };
    Some(
        PanelRect {
            x: layout.left_panel_end_x,
            y: layout.top_bars_height,
            width: saturate(width),
            height: saturate(
                window_height as i128 - layout.top_bars_height as i128
                    - layout.bottom_bar_height as i128,
            ),
        },
    )
}

/// The rectangle of the panel that covers the 3D view, or `None` when it
/// is not shown: the middle of the window from under the bars at the top
/// down to the window's bottom.
pub fn streams_panel_rect(
    layout: &EguiLayoutState,
    streams_panel_state: &StreamsPanelState,
    window_right: i64,
    window_height: i64,
) -> (rect: Option<PanelRect>)
    ensures
        rect == (if streams_panel_state.is_visible {
            Some(
                PanelRect {
                    x: layout.left_panel_end_x,
                    y: layout.top_bars_height,
                    width: extent_between(
                        layout.left_panel_end_x as int,
                        middle_right(*layout, window_right) as int,
                    ) as i64,
                    height: extent_between(layout.top_bars_height as int, window_height as int) as i64,
                },
            )
        } else {
            None
        }),
{
    if !streams_panel_state.is_visible {
        return None;
    }
    Some(
        PanelRect {
            x: layout.left_panel_end_x,
            y: layout.top_bars_height,
            width: extent(layout.left_panel_end_x, middle_right_edge(layout, window_right)),
            height: extent(layout.top_bars_height, window_height),
        },
    )
}

/// A logical length in whole physical pixels: scaled by the display's
/// factor, rounded down, and kept within what a viewport can hold.
pub open spec fn physical_pixels(logical: int, scale_factor: int) -> int {
    let pixels = scaled(logical, scale_factor) / (ONE as int);
    if pixels < 0 {
        0
    } else if pixels > u32::MAX {
        u32::MAX as int
    } else {
        pixels
    }
}

fn to_physical_pixels(logical: i64, scale_factor: i64) -> (r: u32)
    ensures
        r == physical_pixels(logical as int, scale_factor as int),
{
    let pixels: i128 = div_floor(mul_scaled(logical, scale_factor), ONE as i128);
    if pixels < 0 {
        0
    } else if pixels > u32::MAX as i128 {
        u32::MAX
    } else {
        pixels as u32
    }
}

/// Where the 3D view starts on the left, in logical pixels: at the end of
/// the controls panel, or half way across the middle when the panel in its
/// left half is shown.
pub open spec fn view_left(layout: EguiLayoutState, window_width: i64) -> int {
    if layout.left_half_panel_collapsed {
        layout.left_panel_end_x as int
    } else {
        layout.left_panel_end_x + (middle_right(layout, window_width) - layout.left_panel_end_x) / 2
    }
}

/// The viewport of the camera for a layout, in physical pixels.
///
/// The view reaches from [`view_left`] to the right edge of the middle and
/// from under the bars at the top to the bar at the bottom. Its corner and
/// its size are scaled to physical pixels one by one. A hidden 3D view
/// keeps the corner and has no size.
pub open spec fn camera_viewport(
    layout: EguiLayoutState,
    window_width: i64,
    window_height: i64,
    scale_factor: i64,
) -> Viewport {
    let left = clamp_coord(view_left(layout, window_width));
    let top = layout.top_bars_height as int;
    let width = extent_between(left, middle_right(layout, window_width) as int);
    let height = extent_between(top, clamp_coord(window_height - layout.bottom_bar_height));
    Viewport {
        x: physical_pixels(left, scale_factor as int) as u32,
        y: physical_pixels(top, scale_factor as int) as u32,
        width: if layout.d3_viewer_visible {
            physical_pixels(width, scale_factor as int) as u32
        } else {
            0
        },
        height: if layout.d3_viewer_visible {
            physical_pixels(height, scale_factor as int) as u32
        } else {
            0
        },
    }
}

/// Resolves the viewport that the layout leaves for the camera.
pub fn resolve_camera_viewport(
    layout: &EguiLayoutState,
    window_width: i64,
    window_height: i64,
    scale_factor: i64,
) -> (viewport: Viewport)
    ensures
        viewport == camera_viewport(*layout, window_width, window_height, scale_factor),
        !layout.d3_viewer_visible ==> viewport.width == 0 && viewport.height == 0,
{
    let right: i64 = middle_right_edge(layout, window_width);
    let left_wide: i128 = if layout.left_half_panel_collapsed {
        layout.left_panel_end_x as i128
    } else {
        layout.left_panel_end_x as i128 + div_floor(
            right as i128 - layout.left_panel_end_x as i128,
            2,
        )
    };
    let left: i64 = saturate(left_wide);
    let top: i64 = layout.top_bars_height;
    let bottom: i64 = saturate(window_height as i128 - layout.bottom_bar_height as i128);
    let width: i64 = extent(left, right);
    let height: i64 = extent(top, bottom);
    Viewport {
        x: to_physical_pixels(left, scale_factor),
        y: to_physical_pixels(top, scale_factor),
        width: if layout.d3_viewer_visible {
            to_physical_pixels(width, scale_factor)
        } else {
            0
        },
        height: if layout.d3_viewer_visible {
            to_physical_pixels(height, scale_factor)
        } else {
            0
        },
    }
}

} // verus!
