//! A particle simulation over precomputed force fields.
//!
//! An image's bright pixels ("attractors") induce a gravitational-style force
//! field over a grid; particles move under that field step by step. The crate
//! verifies the field computation kernel, the binary field codec with its
//! corruption checks, the board's particle/cell membership invariant, the
//! per-step motion integrator, and the frame scheduler's at-most-once claim
//! discipline.
//!
//! Scalars are IEEE-754 binary32 values carried as their raw bit patterns in
//! `u32`, since the verifier does not reason about floating-point types.
//! Classification and comparisons against zero are verified integer logic on
//! the patterns; arithmetic goes through the software IEEE-754 implementation
//! of `rustc_apfloat` behind trusted wrappers (see `scalar`).

pub mod scalar;
pub mod force;
pub mod engine;
pub mod particle;
pub mod board;
pub mod codec;
pub mod attractors;
pub mod ensure;
pub mod scheduler;
pub mod sequence;
