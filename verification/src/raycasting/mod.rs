//! A ray-casting demo engine: its map, its controls and its colors.

pub mod painter;
pub mod raycaster;
pub mod sdl_wrapper;
