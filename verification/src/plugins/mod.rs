//! Camera control.

pub mod viewport_constrained_camera;
