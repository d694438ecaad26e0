//! The discrete core of a two-dimensional flocking simulation: how a frame's
//! work is cut into shares for the workers, which neighbours count for an
//! agent, in which order the computed forces are committed, and the phases
//! a frame runs through.
//!
//! Coordinates, velocities and forces are the caller's: this crate decides
//! over indices, counts and phases only.

pub mod agent;
pub mod commit;
pub mod frame;
pub mod host;
pub mod mesh;
pub mod neighbors;
pub mod partition;
pub mod timing;
pub mod workers;
