//! A particle swarm optimizer over a fixed-point search space.
//!
//! A swarm of candidate solutions ("particles") moves through a continuous
//! search space, guided by each particle's own best-known position and the
//! best position found within its social neighborhood, to minimize one or
//! more scalar objective functions.
//!
//! Real numbers are represented as fixed-point values: an `i64` counts units
//! of `1 / fixed::SCALE`. All comparisons between scores are therefore total,
//! and the arithmetic of the velocity update rule saturates at the `i64`
//! range instead of overflowing.

pub mod fixed;
pub mod mopso;
pub mod particle;
pub mod pso;
pub mod rng;
pub mod topology;
