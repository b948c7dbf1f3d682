//! Fixed-capacity value types and the tags that identify them.

pub mod array;
pub mod error;
pub mod magic;
pub mod string;
