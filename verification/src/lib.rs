//! Numerical core of a point-mass physics simulation.
//!
//! The crate provides a 3D vector algebra, a particle state with a
//! semi-implicit Euler integrator, a family of force generators that
//! accumulate forces onto particles, and a registry that drives all
//! registered generators once per simulation step.
//!
//! All quantities are fixed-point numbers: an `i64` holds the real value
//! multiplied by [`fixed::SCALE`] (2^16). Every operation is specified
//! exactly over mathematical integers, including where a result is rounded
//! toward zero.

pub mod fixed;
pub mod vector;
pub mod particle;
pub mod forcegen;
pub mod registry;
