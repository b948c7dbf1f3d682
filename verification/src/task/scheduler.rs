//! What the scheduler keeps of a task.

use vstd::prelude::*;

verus! {

/// A task: where its stack lies, and when it was started.
#[derive(Clone, Copy, Debug, PartialEq, Eq)]
pub struct Task {
    /// Address of the highest stack element.
    pub stack_top: usize,
    /// Address at which the stack starts.
    pub stack_start: usize,
    /// Address at which the stack ends.
    pub stack_end: usize,
    /// Start run time in micros.
    pub start_runtime: u32,
}

} // verus!
