//! A freehand drawing surface: strokes, an undo/redo history, an integer
//! line rasterizer, a double-buffered frame compositor, and the routing of
//! pointer and keyboard events onto them.
pub mod button;
pub mod compositor;
pub mod geometry;
pub mod history;
pub mod input;
pub mod line;
pub mod raster;
