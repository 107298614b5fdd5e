//! Exact one-dimensional elastic-collision simulation.
//!
//! Two rigid blocks move on a line bounded on the left by an immovable wall.
//! All kinematic quantities are exact rationals, so every collision instant
//! inside a frame is found analytically and resolved at its precise time.

pub mod rat;
pub mod sim;
pub mod laws;
