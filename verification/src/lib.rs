//! An immediate-mode 2D raster canvas with a frame-driven sketch scheduler.
//!
//! Geometry is rasterized into a flat RGB pixel buffer under fill and stroke
//! paint attributes; the scheduler keeps per-frame metrics and decides how
//! each frame is paced.

pub mod color;
pub mod primitives;
pub mod path;
pub mod pixelbuffer;
pub mod raster;
pub mod canvas;
pub mod text;
pub mod ppm;
pub mod renderer;
pub mod sketch;
pub mod utils;
