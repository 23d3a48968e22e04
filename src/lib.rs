//! Renders chess positions as board rasters and turns a sequence of them into
//! indexed, delta-compressed animation frames.

pub mod geometry;
pub mod raster;
pub mod board;
pub mod render;
pub mod palette;
pub mod delta;
pub mod game;
pub mod adaptive;
