//! Escape-time rendering of the Mandelbrot set.
//!
//! The viewport maps pixel coordinates into a window of the complex plane,
//! the evaluator iterates the quadratic recurrence until the iterate escapes
//! a radius or an iteration cap is reached, and the color mapper turns the
//! resulting count into an RGB color. A grid generator fans the evaluation
//! over every pixel of the viewport, sequentially or in parallel, with the
//! same bit-for-bit result either way.
//!
//! Plane coordinates are fixed-point numbers with 32 fractional bits
//! ([`fixed::Fixed`]), so every arithmetic step is exact or truncates in a
//! stated way, and every contract pins the computed value.

use vstd::prelude::*;

pub mod color;
pub mod data;
pub mod fixed;
pub mod sets;
pub mod util;

verus! {

} // verus!
