//! Pasillo: the introspection core of a small kernel for the `atmega2560`.
//!
//! - [`types`]: values of fixed capacity that carry a tag in their first
//!   bytes: an array, a string, an error; and the check for such a tag.
//! - [`arena`]: the byte arena that stands for the machine's memory.
//! - [`debug`]: the cell for the console, the reading of lines, the table of
//!   markers, and the monitor that reads, writes and jumps in the arena.
//! - [`panic`]: what is reported on a panic, and what follows it.
//! - [`task`]: the stack pointer of a task.
//!
//! Nothing here touches a device. What is to be printed is handed out as
//! bytes, what was read is taken as bytes, and what only the machine can do
//! (masking interrupts, jumping, moving the stack pointer) is handed out as a
//! value that says what to do.

pub mod arena;
pub mod debug;
pub mod panic;
pub mod task;
pub mod types;
