//! A deterministic simulation kernel for testing distributed-system code.
//!
//! The kernel is made of a seeded random source, a virtual clock, a reactor
//! that owns every pending timed wake-up, a cooperative single-threaded
//! executor, a fault-injection oracle (`buggify`) and a simulated platform.
//! All state is owned: a task reaches the reactor through the exclusive
//! reference that the executor hands to it when it is polled. An executor
//! runs tasks of one kind of computation, and what it does is fixed by what
//! that kind of computation says of its polls.

pub mod buggify;
pub mod deterministic;
pub mod file;
pub mod platform;
pub mod seed;
