//! Selection and spatial-transform geometry for a 3D scene of point
//! particles.
//!
//! The library holds the scene as an arena of particles and offers the
//! passes that a host runs once per frame: projecting particles from their
//! normalized positions under a resizable bounds volume, picking a particle
//! with a ray, selecting particles with a drag box, transforming the whole
//! group or the current selection, and resolving the window layout into the
//! viewport of the camera. The host owns the window, the renderer and the
//! widgets; it hands cursor positions, button states, rays and projections
//! in, and draws what comes out.
//!
//! All numbers are fixed-point integers in millionths (see [`fixed`]), and
//! every result is stated exactly, rounding and saturation included.

pub mod components;
pub mod constants;
pub mod coords;
pub mod fixed;
pub mod plugins;
pub mod ray;
pub mod screen;
pub mod setup;
pub mod systems;
pub mod vector;
pub mod world;
