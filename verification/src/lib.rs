//! A two-dimensional lattice Boltzmann (D2Q9) fluid simulation engine.
//!
//! Populations, densities and velocities are carried as fixed-point numbers:
//! an `i64` holds the value multiplied by [`fixed::SCALE`]. All arithmetic is
//! exact integer arithmetic with truncating division and saturation at the
//! `i64` range, so every operation of the engine has a precise contract.

pub mod array2d;
pub mod cell;
pub mod fixed;
pub mod sim;
