//! The scheduling core of a small kernel for one processor.
//!
//! `sync` holds the ring buffer that carries data between interrupt
//! handlers and threads. `task` holds the threads: their identity and
//! control blocks, the run queues, the registry, timers, and the scheduler
//! that ties them together. `system` holds what the kernel says of itself.
//!
//! The scheduler never switches the processor itself. It keeps the books
//! and tells its caller which switch is due; `task::model` describes it as
//! a state machine, `task::safety` shows that every operation keeps the
//! invariant of that machine, and `task::laws` states what follows for
//! those who use it.

pub mod sync;
pub mod system;
pub mod task;
