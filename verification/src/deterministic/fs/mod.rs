//! Simulated file system objects.

pub mod file;
