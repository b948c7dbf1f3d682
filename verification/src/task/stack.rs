//! Stack locations for tasks.

use vstd::prelude::*;

verus! {

/// The length of a task's stack in bytes.
pub const STACK_LEN: usize = 512;

/// A stack pointer as the two bytes that the machine's registers take.
#[derive(Clone, Copy, Debug, PartialEq, Eq)]
pub struct StackPointer {
    /// The low byte of the address.
    pub low: u8,
    /// The byte above the low one.
    pub high: u8,
}

/// The address that `pointer` gives back: 256 times the high byte, plus the low one.
pub open spec fn address_of(pointer: StackPointer) -> int {
    pointer.high * 256 + pointer.low
}

/// Splits `location` into the two bytes that are written to the stack
/// pointer's registers, the low one first. Bits above the sixteenth do not
/// reach the registers.
pub fn jump_to_stack(location: usize) -> (pointer: StackPointer)
    ensures
        pointer.low == location % 256,
        pointer.high == (location / 256) % 256,
        address_of(pointer) == location % 65536,
{
    StackPointer { low: (location % 256) as u8, high: ((location / 256) % 256) as u8 }
}

} // verus!
