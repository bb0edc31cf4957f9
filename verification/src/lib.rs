//! Decision kernels for two-body orbit work: solving Kepler's equation,
//! converting a Cartesian state to classical elements, and Gauss's method of
//! initial orbit determination from three sightings.
//!
//! The three routines are floating-point arithmetic steered by comparisons:
//! which regime an input falls in, which closed form applies, when an
//! iteration stops, which eigenvalues are roots. This crate holds the
//! steering. It carries every double by its bit pattern (`binary64`), takes
//! the quantities a routine has computed, and returns what to do next; the
//! sines, square roots and eigenvalues are its caller's. Every function here
//! is total, and each is proved to decide exactly what its specification
//! function says.

pub mod binary64;
pub mod statevector;
pub mod keplerorbit;
pub mod kepler_equation;
pub mod elements;
pub mod gauss;
