//! Debugging aids: the console, the marker table and the memory monitor.

pub mod command;
pub mod console;
pub mod interactive;
pub mod memory;
pub mod text;
