//! The scheduler: which thread runs next, and for how long.
pub mod thread;
pub mod queue;
pub mod stack;
pub mod sched;
