//! The state records that the per-frame passes read and write.

use vstd::prelude::*;
use crate::fixed::{COORD_MAX, ONE};
use crate::vector::{Vec2, Vec3};

verus! {

/// Largest extent a bounds volume may have along one axis.
pub const EXTENT_MAX: i64 = COORD_MAX - ONE;

/// The bounds volume: centred on the origin in X and Z, rising from
/// `BOUNDS_Y_MIN` in Y. Each extent is a full width, not a half width.
#[derive(Clone, Copy, Debug, PartialEq, Eq, Structural)]
pub struct ParticleBoundsState {
    pub bounds_x: i64,
    pub bounds_z: i64,
    pub bounds_y_height: i64,
    /// The extents that the particles were last projected with.
    pub previous_bounds_x: i64,
    pub previous_bounds_z: i64,
    pub previous_bounds_y_height: i64,
}

impl ParticleBoundsState {
    /// The extents are non-negative and small enough that no particle with
    /// a normalized position in `[0, ONE]` leaves the coordinate range.
    pub open spec fn wf(self) -> bool {
        &&& 0 <= self.bounds_x <= EXTENT_MAX
        &&& 0 <= self.bounds_z <= EXTENT_MAX
        &&& 0 <= self.bounds_y_height <= EXTENT_MAX
    }

    /// The extents differ from those last projected with.
    pub open spec fn changed(self) -> bool {
        ||| self.bounds_x != self.previous_bounds_x
        ||| self.bounds_z != self.previous_bounds_z
        ||| self.bounds_y_height != self.previous_bounds_y_height
    }

    /// The state after the current extents have been projected with.
    pub open spec fn acknowledged(self) -> ParticleBoundsState {
        ParticleBoundsState {
            previous_bounds_x: self.bounds_x,
            previous_bounds_z: self.bounds_z,
            previous_bounds_y_height: self.bounds_y_height,
            ..self
        }
    }
}

impl Default for ParticleBoundsState {
    /// A volume of 10 m by 10 m, 1 m high.
    fn default() -> (s: Self)
        ensures
            s == (ParticleBoundsState {
                bounds_x: 10_000_000,
                bounds_z: 10_000_000,
                bounds_y_height: 1_000_000,
                previous_bounds_x: 10_000_000,
                previous_bounds_z: 10_000_000,
                previous_bounds_y_height: 1_000_000,
            }),
            s.wf(),
            !s.changed(),
    {
        ParticleBoundsState {
            bounds_x: 10 * ONE,
            bounds_z: 10 * ONE,
            bounds_y_height: ONE,
            previous_bounds_x: 10 * ONE,
            previous_bounds_z: 10 * ONE,
            previous_bounds_y_height: ONE,
        }
    }
}

/// The transform applied to all particles alike: a uniform scale about the
/// origin followed by an offset.
#[derive(Clone, Copy, Debug, PartialEq, Eq, Structural)]
pub struct ParticleGroupState {
    pub offset: Vec3,
    /// Uniform scale factor; `ONE` leaves sizes as they are.
    pub scale: i64,
    /// The values that the particles were last placed with.
    pub previous_offset: Vec3,
    pub previous_scale: i64,
}

impl ParticleGroupState {
    /// Offset or scale differ from those last placed with.
    pub open spec fn changed(self) -> bool {
        self.offset != self.previous_offset || self.scale != self.previous_scale
    }

    /// The state after the current values have been placed with.
    pub open spec fn acknowledged(self) -> ParticleGroupState {
        ParticleGroupState { previous_offset: self.offset, previous_scale: self.scale, ..self }
    }
}

impl Default for ParticleGroupState {
    /// No offset, scale 1.
    fn default() -> (s: Self)
        ensures
            s == (ParticleGroupState {
                offset: Vec3::zero(),
                scale: ONE,
                previous_offset: Vec3::zero(),
                previous_scale: ONE,
            }),
            !s.changed(),
    {
        ParticleGroupState {
            offset: Vec3::zero(),
            scale: ONE,
            previous_offset: Vec3::zero(),
            previous_scale: ONE,
        }
    }
}

/// Where a drag-box gesture stands.
#[derive(Clone, Copy, Debug, PartialEq, Eq, Structural)]
pub enum DragPhase {
    /// No gesture.
    Idle,
    /// The button is held and the box follows the cursor.
    Dragging,
    /// The button was released; the box waits to be applied to the selection.
    PendingCommit,
}

/// The drag-box gesture: whether the button is held, and the corners of the
/// box in logical pixels.
#[derive(Clone, Copy, Debug, PartialEq, Eq, Structural)]
pub struct SelectionBoxState {
    pub is_active: bool,
    pub start_position: Option<Vec2>,
    pub current_position: Option<Vec2>,
}

impl SelectionBoxState {
    /// The state with no gesture.
    pub open spec fn idle() -> SelectionBoxState {
        SelectionBoxState { is_active: false, start_position: None, current_position: None }
    }

    /// The phase that the fields encode.
    pub open spec fn spec_phase(&self) -> DragPhase {
        if self.is_active {
            DragPhase::Dragging
        } else if self.start_position.is_some() && self.current_position.is_some() {
            DragPhase::PendingCommit
        } else {
            DragPhase::Idle
        }
    }

    /// The phase of the gesture.
    #[verifier::when_used_as_spec(spec_phase)]
    pub fn phase(&self) -> (phase: DragPhase)
        ensures
            phase == self.spec_phase(),
    {
        if self.is_active {
            DragPhase::Dragging
        } else if self.start_position.is_some() && self.current_position.is_some() {
            DragPhase::PendingCommit
        } else {
            DragPhase::Idle
        }
    }
}

impl Default for SelectionBoxState {
    fn default() -> (s: Self)
        ensures
            s == SelectionBoxState::idle(),
    {
        SelectionBoxState { is_active: false, start_position: None, current_position: None }
    }
}

/// The mouse buttons as sampled this frame and the frame before.
#[derive(Clone, Copy, Debug, PartialEq, Eq, Structural)]
pub struct MouseButtonState {
    pub left_pressed: bool,
    pub right_pressed: bool,
    pub left_was_pressed: bool,
    pub right_was_pressed: bool,
}

impl MouseButtonState {
    /// The left button went up between the last two samples.
    pub open spec fn left_released(self) -> bool {
        self.left_was_pressed && !self.left_pressed
    }

    /// The right button went up between the last two samples.
    pub open spec fn right_released(self) -> bool {
        self.right_was_pressed && !self.right_pressed
    }
}

impl Default for MouseButtonState {
    fn default() -> (s: Self)
        ensures
            s == (MouseButtonState {
                left_pressed: false,
                right_pressed: false,
                left_was_pressed: false,
                right_was_pressed: false,
            }),
    {
        MouseButtonState {
            left_pressed: false,
            right_pressed: false,
            left_was_pressed: false,
            right_was_pressed: false,
        }
    }
}

/// How a batch of new particles is laid out.
#[derive(Clone, Copy, Debug, PartialEq, Eq, Structural)]
pub enum ParticlePlacementMode {
    /// Anywhere in the bounds volume.
    Random,
    /// Inside a ball.
    Ball,
    /// Inside an axis-aligned box.
    Cube,
}

/// What the controls ask for: the layout and size of the next batch, and
/// the pending requests to create or remove particles.
#[derive(Clone, Copy, Debug, PartialEq, Eq, Structural)]
pub struct ParticleCreationState {
    pub placement_mode: ParticlePlacementMode,
    pub batch_count: usize,
    pub ball_center: Vec3,
    pub ball_radius: i64,
    pub cube_center: Vec3,
    /// Full edge lengths of the box.
    pub cube_size: Vec3,
    /// No new particle in a ball or a box is placed lower than this.
    pub y_min: i64,
    pub create_requested: bool,
    pub remove_selected_requested: bool,
    pub remove_all_requested: bool,
}

impl Default for ParticleCreationState {
    /// Batches of ten, anywhere in the bounds volume; the ball has radius
    /// 2 m and the box measures 2 m by 1 m by 2 m, both centred 1.5 m above
    /// the origin; nothing requested.
    fn default() -> (s: Self)
        ensures
            s == (ParticleCreationState {
                placement_mode: ParticlePlacementMode::Random,
                batch_count: 10,
                ball_center: Vec3 { x: 0, y: 1_500_000, z: 0 },
                ball_radius: 2_000_000,
                cube_center: Vec3 { x: 0, y: 1_500_000, z: 0 },
                cube_size: Vec3 { x: 2_000_000, y: 1_000_000, z: 2_000_000 },
                y_min: 1_000_000,
                create_requested: false,
                remove_selected_requested: false,
                remove_all_requested: false,
            }),
    {
        ParticleCreationState {
            placement_mode: ParticlePlacementMode::Random,
            batch_count: 10,
            ball_center: Vec3 { x: 0, y: 1_500_000, z: 0 },
            ball_radius: 2_000_000,
            cube_center: Vec3 { x: 0, y: 1_500_000, z: 0 },
            cube_size: Vec3 { x: 2_000_000, y: 1_000_000, z: 2_000_000 },
            y_min: 1_000_000,
            create_requested: false,
            remove_selected_requested: false,
            remove_all_requested: false,
        }
    }
}

/// The size of the ground grid in whole metres, and the size it was last
/// laid out with.
#[derive(Clone, Copy, Debug, PartialEq, Eq, Structural)]
pub struct GridState {
    pub size_x: i32,
    pub size_z: i32,
    pub previous_size_x: i32,
    pub previous_size_z: i32,
}

impl GridState {
    /// The size differs from the one last laid out with.
    pub open spec fn changed(self) -> bool {
        self.size_x != self.previous_size_x || self.size_z != self.previous_size_z
    }
}

impl Default for GridState {
    /// A grid of 10 m by 10 m.
    fn default() -> (s: Self)
        ensures
            s == (GridState { size_x: 10, size_z: 10, previous_size_x: 10, previous_size_z: 10 }),
    {
        GridState { size_x: 10, size_z: 10, previous_size_x: 10, previous_size_z: 10 }
    }
}

/// What the panels of the user interface measured this frame, in logical
/// pixels, and which of them are shown.
#[derive(Clone, Copy, Debug, PartialEq, Eq, Structural)]
pub struct EguiLayoutState {
    /// Where the controls panel on the left ends.
    pub left_panel_end_x: i64,
    /// Where the inspector panel on the right starts.
    pub right_panel_start_x: i64,
    /// Height of the two bars at the top together.
    pub top_bars_height: i64,
    /// Height of the bar at the bottom.
    pub bottom_bar_height: i64,
    /// Width left for content inside the controls panel.
    pub left_panel_content_width: i64,
    /// Width left for content inside the inspector panel.
    pub right_panel_content_width: i64,
    /// The inspector panel is hidden.
    pub inspector_collapsed: bool,
    /// The panel that takes the left half of the middle is hidden.
    pub left_half_panel_collapsed: bool,
    /// The 3D view is shown.
    pub d3_viewer_visible: bool,
    /// The plot's axes are centred on the grid.
    pub plot_center_axes: bool,
}

impl Default for EguiLayoutState {
    /// Nothing measured yet; inspector and 3D view shown, the middle-left
    /// panel hidden.
    fn default() -> (s: Self)
        ensures
            s == (EguiLayoutState {
                left_panel_end_x: 0,
                right_panel_start_x: 0,
                top_bars_height: 0,
                bottom_bar_height: 0,
                left_panel_content_width: 0,
                right_panel_content_width: 0,
                inspector_collapsed: false,
                left_half_panel_collapsed: true,
                d3_viewer_visible: true,
                plot_center_axes: false,
            }),
    {
        EguiLayoutState {
            left_panel_end_x: 0,
            right_panel_start_x: 0,
            top_bars_height: 0,
            bottom_bar_height: 0,
            left_panel_content_width: 0,
            right_panel_content_width: 0,
            inspector_collapsed: false,
            left_half_panel_collapsed: true,
            d3_viewer_visible: true,
            plot_center_axes: false,
        }
    }
}

/// Whether the panel that covers the 3D view is shown.
#[derive(Clone, Copy, Debug, PartialEq, Eq, Structural)]
pub struct StreamsPanelState {
    pub is_visible: bool,
}

impl Default for StreamsPanelState {
    fn default() -> (s: Self)
        ensures
            s == (StreamsPanelState { is_visible: false }),
    {
        StreamsPanelState { is_visible: false }
    }
}

/// The orbit animation: whether any particle orbits, and how fast.
#[derive(Clone, Copy, Debug, PartialEq, Eq, Structural)]
pub struct Motion1State {
    pub is_active: bool,
    /// Angular speed in millionths of a radian per second.
    pub rotation_speed: i64,
}

impl Default for Motion1State {
    /// At rest; one radian per second once started.
    fn default() -> (s: Self)
        ensures
            s == (Motion1State { is_active: false, rotation_speed: 1_000_000 }),
    {
        Motion1State { is_active: false, rotation_speed: ONE }
    }
}

/// Whether the orbits of the selected particles are drawn.
#[derive(Clone, Copy, Debug, PartialEq, Eq, Structural)]
pub struct TrajectoryState {
    pub is_visible: bool,
}

impl Default for TrajectoryState {
    fn default() -> (s: Self)
        ensures
            s == (TrajectoryState { is_visible: false }),
    {
        TrajectoryState { is_visible: false }
    }
}

/// A circle drawn for the orbit of one particle.
#[derive(Clone, Copy, Debug, PartialEq, Eq, Structural)]
pub struct TrajectoryCircle {
    /// The handle of the circle itself.
    pub circle: u64,
    /// The particle whose orbit it shows.
    pub particle_entity: u64,
}

/// A pending request to start the camera controller afresh after the view
/// was changed from the controls.
#[derive(Clone, Copy, Debug, PartialEq, Eq, Structural)]
pub struct CameraViewChanged {
    pub needs_reset: bool,
    /// The camera to reset.
    pub entity: Option<u64>,
}

impl Default for CameraViewChanged {
    fn default() -> (s: Self)
        ensures
            s == (CameraViewChanged { needs_reset: false, entity: None }),
    {
        CameraViewChanged { needs_reset: false, entity: None }
    }
}

/// The field of view last seen on the perspective camera.
#[derive(Clone, Copy, Debug, PartialEq, Eq, Structural)]
pub struct CameraProjectionState {
    /// In millionths of a radian.
    pub last_perspective_fov: i64,
}

impl Default for CameraProjectionState {
    /// About 60 degrees.
    fn default() -> (s: Self)
        ensures
            s == (CameraProjectionState { last_perspective_fov: 1_047_000 }),
    {
        CameraProjectionState { last_perspective_fov: 1_047_000 }
    }
}

} // verus!
