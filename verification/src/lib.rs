//! Deterministic pseudo-random number generators with machine-checked
//! contracts: a 31-bit linear congruential generator and an additive
//! feedback generator over a circular buffer of 32-bit words.
//!
//! Neither generator is suitable for security-sensitive use.

pub mod generator;
pub mod lcg;
pub mod lfsr;

pub use generator::{InvalidSeed, PseudoRandomGenerator};
pub use lcg::LinearCongruentialPRNG;
pub use lfsr::LinearFeedbackShiftRegisterPRNG;
