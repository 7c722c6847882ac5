//! Threads and their scheduling.

pub mod attributes;
pub mod laws;
pub mod model;
pub mod pool;
pub mod priority;
pub mod queue;
pub mod safety;
pub mod scheduler;
pub mod thread;
pub mod timer;
