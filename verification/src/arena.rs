//! The byte arena that stands for the machine's memory.
//!
//! An address is an index into the arena. What lies past its end is not
//! there: it is neither read nor written.

use vstd::prelude::*;
use vstd::slice::{slice_subrange, slice_to_vec};

verus! {

/// At most `want` bytes of `memory` from `start` on, as far as the arena reaches.
pub open spec fn window(memory: Seq<u8>, start: int, want: int) -> Seq<u8> {
    if 0 <= start < memory.len() && 0 < want {
        if start + want < memory.len() {
            memory.subrange(start, start + want)
        } else {
            memory.subrange(start, memory.len() as int)
        }
    } else {
        Seq::empty()
    }
}

/// `memory` with `bytes` written from `at` on; what would fall past the end of
/// the arena is left out.
pub open spec fn overlay(memory: Seq<u8>, at: int, bytes: Seq<u8>) -> Seq<u8> {
    Seq::new(
        memory.len(),
        |i: int|
            if at <= i < at + bytes.len() {
                bytes[i - at]
            } else {
                memory[i]
            },
    )
}

/// `count` times the byte `byte`.
pub open spec fn repeated(byte: u8, count: nat) -> Seq<u8> {
    Seq::new(count, |i: int| byte)
}

/// Copies at most `want` bytes out of the arena, from the address `at` on.
pub fn load(memory: &[u8], at: usize, want: usize) -> (bytes: Vec<u8>)
    ensures
        bytes@ == window(memory@, at as int, want as int),
{
    if at >= memory.len() || want == 0 {
        let none: Vec<u8> = Vec::new();
        return none;
    }
    let end = if want < memory.len() - at {
        at + want
    } else {
        memory.len()
    };
    slice_to_vec(slice_subrange(memory, at, end))
}

/// Writes `bytes` into the arena from the address `at` on, as far as the arena reaches.
pub fn store(memory: &mut [u8], at: usize, bytes: &[u8])
    ensures
        final(memory)@ == overlay(old(memory)@, at as int, bytes@),
{
    if at >= memory.len() {
        return ;
    }
    let left = memory.len() - at;
    let count = if bytes.len() < left {
        bytes.len()
    } else {
        left
    };
    let mut idx: usize = 0;
    while idx < count
        invariant
            idx <= count <= bytes@.len(),
            at + count <= memory.len(),
            memory@.len() == old(memory)@.len(),
            memory@ == overlay(old(memory)@, at as int, bytes@.take(idx as int)),
        decreases count - idx,
    {
        memory[at + idx] = bytes[idx];
        idx += 1;
    }
}

/// Writes `byte` into the arena `count` times from the address `at` on, as far
/// as the arena reaches.
pub fn fill(memory: &mut [u8], at: usize, byte: u8, count: usize)
    ensures
        final(memory)@ == overlay(old(memory)@, at as int, repeated(byte, count as nat)),
{
    if at >= memory.len() {
        return ;
    }
    let left = memory.len() - at;
    let inside = if count < left {
        count
    } else {
        left
    };
    let mut idx: usize = 0;
    while idx < inside
        invariant
            idx <= inside <= count,
            at + inside <= memory.len(),
            memory@.len() == old(memory)@.len(),
            memory@ == overlay(old(memory)@, at as int, repeated(byte, idx as nat)),
        decreases inside - idx,
    {
        memory[at + idx] = byte;
        idx += 1;
    }
}

/// What was written can be read back: as far as the bytes fit into the arena,
/// they are what a read from the same address shows first.
pub proof fn lemma_load_after_store(memory: Seq<u8>, at: int, bytes: Seq<u8>, want: int)
    requires
        0 <= at,
    ensures
        overlay(memory, at, bytes).len() == memory.len(),
        forall|i: int|
            0 <= i < bytes.len() && i < want && at + i < memory.len() ==> i < window(
                overlay(memory, at, bytes),
                at,
                want,
            ).len() && window(overlay(memory, at, bytes), at, want)[i] == bytes[i],
        forall|i: int|
            0 <= i < memory.len() && !(at <= i < at + bytes.len()) ==> overlay(memory, at, bytes)[i]
                == memory[i],
{
}

} // verus!
