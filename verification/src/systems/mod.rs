//! The per-frame passes over the scene.

pub mod camera;
pub mod grid;
pub mod layout;
pub mod motion;
pub mod mouse;
pub mod particle_creation;
pub mod particles;
pub mod selection;
pub mod selection_bounds;
pub mod selection_transform;
