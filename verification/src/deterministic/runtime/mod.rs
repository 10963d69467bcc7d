//! The cooperative runtime: tasks, the ready queue, the reactor, timers and
//! the executor.

pub mod executor;
pub mod queue;
pub mod reactor;
pub mod schedule;
pub mod task;
pub mod timer;
