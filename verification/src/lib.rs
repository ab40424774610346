//! An infinite pan/zoom drawing canvas on an integer lattice: camera
//! transforms, stroke resampling, ribbon meshes and erasure.
pub mod camera;
pub mod canvas;
pub mod canvas_state;
pub mod geometry;
pub mod line_smoothing;
pub mod mesh;
pub mod user_action_mode;
