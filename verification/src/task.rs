//! Tasks and the stacks they run on.

pub mod scheduler;
pub mod stack;
