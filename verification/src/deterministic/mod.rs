//! Deterministic scheduling, time, randomness and simulated I/O.

pub mod fs;
pub mod platform;
pub mod random;
pub mod runtime;
pub mod time;
