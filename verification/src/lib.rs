//! Escape-time fractals over a rectangular region of the complex plane.
//!
//! The crate holds the part of a Mandelbrot and Julia renderer that decides:
//! how many times the recurrence `z <- z^2 + c` is applied to a point, which
//! colour band that count falls into, and in which order the cells of a pixel
//! grid are sampled. The arithmetic on plane coordinates is supplied by the
//! caller as functions, so every contract here holds for whatever number type
//! the caller computes with.

pub mod color;
pub mod escape;
pub mod fractal;
pub mod grid;
