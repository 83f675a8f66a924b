//! Fixed quantities of the scene, in millionths of their unit.

use vstd::prelude::*;

verus! {

/// Number of particles in the initial scene.
pub const PARTICLE_COUNT: usize = 50;

/// Radius of the sphere that stands for a particle (25 mm).
pub const PARTICLE_RADIUS: i64 = 25_000;

/// Extent of the particle distribution when no bounds volume is given (5 m).
pub const PARTICLE_GRID_BOUNDS: i64 = 5_000_000;

/// Distance between neighbouring lines of the ground grid (1 m).
pub const GRID_SPACING: i64 = 1_000_000;

/// Height of the first bar at the top (20 logical pixels).
pub const EGUI_TOP_BAR_HEIGHT: i64 = 20_000_000;

/// Height of the second bar at the top, and of the bar at the bottom.
pub const EGUI_SECOND_TOP_BAR_HEIGHT: i64 = 20_000_000;

/// Where the inspector panel starts below the top of the window (22 logical pixels).
pub const INSPECTOR_TOP: i64 = 22_000_000;

/// Smallest radius an orbit is drawn with (0.1 m).
pub const TRAJECTORY_MIN_RADIUS: i64 = 100_000;

/// A particle nearer than this to the axis of the orbit stays where it is (1 mm).
pub const MOTION_MIN_RADIUS: i64 = 1_000;

} // verus!
