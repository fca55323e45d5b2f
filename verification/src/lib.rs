//! Escape-time fractal rendering core.
//!
//! The library iterates a complex recurrence per pixel (Julia, Julia-cubed or
//! Mandelbrot), maps grid coordinates to the complex plane, and turns escape
//! counts into colors through an injected color map. Plane coordinates are
//! held in a signed 64-bit fixed-point representation (see `fixed`), so every
//! arithmetic step has an exact, machine-checked meaning.

pub mod fixed;
pub mod recurrence;
pub mod color;
pub mod renderer;
