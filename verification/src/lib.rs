//! Escape-time rendering of the Mandelbrot set on a 128-bit fixed-point plane.
//!
//! * [`fixed_real`]: the fixed-point numbers that hold every plane coordinate.
//! * [`divergence`]: the iteration `z -> z^2 + c` and how fast a point escapes.
//! * [`grid`]: one cell per pixel.
//! * [`color`]: from a divergence to a colour.
//! * [`render`]: from a viewport to a grid, and from a grid to a frame buffer.
//! * [`params`]: the viewport, the input actions, and the shared store.
//! * [`worker`]: one frame per snapshot, and the decisions of the drawing loop.

pub mod color;
pub mod divergence;
pub mod fixed_real;
pub mod grid;
pub mod params;
pub mod render;
pub mod worker;
