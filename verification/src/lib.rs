//! Geometry and raster-editing core of a pixel canvas: points and segments,
//! pixel storage, clipping of strokes to the canvas, line rasterization,
//! anchored resizing and the pointer-driven tool state machines.

pub mod canvas;
pub mod color;
pub mod image;
pub mod image_vec;
pub mod line;
pub mod point;
pub mod resizer;
pub mod segment;
pub mod text;
pub mod tool;
pub mod util;
