//! A verified flocking ("boids") engine on fixed-point coordinates.
//!
//! Positions, velocities and forces are carried as `i64` values in units of
//! one thousandth of a simulation cell, so every steering rule is exact
//! integer arithmetic with proved overflow freedom. Rendering, input and
//! frame pacing are left to the host program around this crate.

pub mod boid;
pub mod config;
pub mod fixed;
pub mod rng;
pub mod simulation;
pub mod vec2;
