//! Simulation and rasterization core of a small 2D scene of bouncing circles.
//!
//! Coordinates, velocities, radii and masses are fixed-point numbers: an
//! `i32` holds the underlying value scaled by [`SCALE`] (256 subunits per
//! pixel).  All kinematic formulas are exact integer arithmetic on that
//! representation, so every contract in this crate states the result of an
//! operation exactly.

use vstd::prelude::*;

pub mod circle;
pub mod common_structs;
pub mod math;
mod rng;
pub mod state;

pub use circle::Circle;
pub use state::State;

pub use common_structs::RGBCanvas;
pub use common_structs::RGBColor;

verus! {

/// Number of fixed-point subunits per pixel.
pub const SCALE: i32 = 256;

/// Magnitude bound on positions and velocities accepted by the kinematic
/// operations: keeps every reflection formula within `i32`.
pub const COORD_LIMIT: i32 = 0x1000_0000;

/// Largest canvas side length, in pixels, accepted by the world: keeps
/// `SCALE * side` within [`COORD_LIMIT`] and a buffer of `3 * side * side`
/// bytes within `usize` on every platform.
pub const PIXEL_LIMIT: i32 = 0x8000;

} // verus!
