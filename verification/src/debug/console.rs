//! Debug serial console: the cell that holds the one console handle, and the
//! reading of lines from its bytes.

use crate::types::string::PStackStr;
use vstd::prelude::*;

verus! {

/// The slot for the one live console handle.
///
/// Whoever owns the cell decides how access to it is kept exclusive; the cell
/// says what an access does.
pub struct ConsoleCell<C> {
    slot: Option<C>,
}

impl<C> View for ConsoleCell<C> {
    type V = Option<C>;

    /// The handle in the cell, if there is one.
    closed spec fn view(&self) -> Option<C> {
        self.slot
    }
}

impl<C> ConsoleCell<C> {
    /// A cell without a handle.
    pub fn new() -> (made: Self)
        ensures
            made@ is None,
    {
        Self { slot: None }
    }

    /// Tells whether a handle is in the cell.
    pub fn is_set(&self) -> (set: bool)
        ensures
            set == self@ is Some,
    {
        self.slot.is_some()
    }

    /// Hands the handle to `f` and keeps what `f` gives back; without a handle
    /// `f` is not called and nothing changes.
    pub fn with_console<F: FnOnce(C) -> C>(&mut self, f: F)
        requires
            old(self)@ matches Some(console) ==> f.requires((console,)),
        ensures
            old(self)@ is None ==> final(self)@ is None,
            old(self)@ matches Some(console) ==> (final(self)@ matches Some(after) && f.ensures(
                (console,),
                after,
            )),
    {
        match self.slot.take() {
            Some(console) => {
                self.slot = Some(f(console));
            },
            None => {},
        }
    }
}

/// Puts `console` in the cell, whatever was there before.
pub fn set_console<C>(cell: &mut ConsoleCell<C>, console: C)
    ensures
        final(cell)@ == Some(console),
{
    cell.slot = Some(console);
}

/// The bytes that end a line: carriage return, line feed, end of file (4) and NUL.
pub open spec fn is_terminator(byte: u8) -> bool {
    byte == 0x0d || byte == 0x0a || byte == 0x04 || byte == 0x00
}

/// The number of bytes of `incoming` before its first terminator; all of
/// them where it holds none.
pub open spec fn line_len(incoming: Seq<u8>) -> int
    decreases incoming.len(),
{
    if incoming.len() == 0 || is_terminator(incoming[0]) {
        0
    } else {
        1 + line_len(incoming.drop_first())
    }
}

/// The line that a reader with room for `capacity` bytes takes from
/// `incoming`: the bytes before the first terminator, and no more than fit.
pub open spec fn line_of(incoming: Seq<u8>, capacity: int) -> Seq<u8> {
    if line_len(incoming) < capacity {
        incoming.take(line_len(incoming))
    } else {
        incoming.take(capacity)
    }
}

/// Tells whether `byte` ends a line.
pub fn ends_line(byte: u8) -> (ends: bool)
    ensures
        ends == is_terminator(byte),
{
    byte == 0x0d || byte == 0x0a || byte == 0x04 || byte == 0x00
}

/// How far a reader has come: the bytes of the line so far, and whether the
/// line is done.
pub struct ReaderState {
    pub line: Seq<u8>,
    pub done: bool,
}

/// The state of a reader that has seen no byte. With no room at all it is
/// done at once.
pub open spec fn fresh(capacity: int) -> ReaderState {
    ReaderState { line: Seq::empty(), done: capacity <= 0 }
}

/// The state after `byte` was handed to a reader in `state`. A reader that is
/// done takes nothing. A terminator ends the line and is not kept. Any other
/// byte is kept, and the line is done when it is full.
pub open spec fn accepted(state: ReaderState, byte: u8, capacity: int) -> ReaderState {
    if state.done {
        state
    } else if is_terminator(byte) {
        ReaderState { line: state.line, done: true }
    } else {
        ReaderState { line: state.line.push(byte), done: state.line.len() + 1 >= capacity }
    }
}

/// The state after the bytes `bytes` were handed to a reader in `state`, one
/// after the other.
pub open spec fn accepted_all(state: ReaderState, bytes: Seq<u8>, capacity: int) -> ReaderState
    decreases bytes.len(),
{
    if bytes.len() == 0 {
        state
    } else {
        accepted(accepted_all(state, bytes.drop_last(), capacity), bytes.last(), capacity)
    }
}

/// A line in the making: bytes are handed to it one by one until it is done.
pub struct LineReader<const LEN: usize> {
    line: PStackStr<LEN>,
    done: bool,
}

impl<const LEN: usize> View for LineReader<LEN> {
    type V = ReaderState;

    closed spec fn view(&self) -> ReaderState {
        ReaderState { line: self.line@, done: self.done }
    }
}

impl<const LEN: usize> LineReader<LEN> {
    #[verifier::type_invariant]
    spec fn well_formed(self) -> bool {
        !self.done ==> self.line@.len() < LEN
    }

    /// A reader that has seen no byte.
    pub fn new() -> (made: Self)
        ensures
            made@ == fresh(LEN as int),
    {
        Self { line: PStackStr::new(), done: LEN == 0 }
    }

    /// Tells whether the line is done: a terminator came, or the line is full.
    pub fn is_done(&self) -> (done: bool)
        ensures
            done == self@.done,
    {
        self.done
    }

    /// Takes one byte that was read.
    pub fn accept(&mut self, byte: u8)
        ensures
            final(self)@ == accepted(old(self)@, byte, LEN as int),
    {
        proof {
            use_type_invariant(&*self);
        }
        if self.done {
            return ;
        }
        if ends_line(byte) {
            self.done = true;
            return ;
        }
        let mut line = PStackStr::<LEN>::new();
        core::mem::swap(&mut self.line, &mut line);
        line.push(byte);
        if line.len() >= LEN {
            self.done = true;
        }
        core::mem::swap(&mut self.line, &mut line);
    }

    /// The line as far as it was read.
    pub fn into_line(self) -> (line: PStackStr<LEN>)
        ensures
            line@ == self@.line,
    {
        self.line
    }
}

/// Where no terminator stands among the first `upto` bytes, the line is at
/// least that long; and it ends there if a terminator, or nothing, follows.
pub proof fn lemma_line_len(incoming: Seq<u8>, upto: int)
    requires
        0 <= upto <= incoming.len(),
        forall|k: int| 0 <= k < upto ==> !is_terminator(incoming[k]),
    ensures
        line_len(incoming) >= upto,
        (upto == incoming.len() || is_terminator(incoming[upto])) ==> line_len(incoming) == upto,
    decreases incoming.len(),
{
    if upto == 0 {
        if incoming.len() > 0 && !is_terminator(incoming[0]) {
            lemma_line_len(incoming.drop_first(), 0);
        }
    } else {
        let rest = incoming.drop_first();
        assert forall|k: int| 0 <= k < upto - 1 implies !is_terminator(rest[k]) by {
            assert(rest[k] == incoming[k + 1]);
        }
        lemma_line_len(rest, upto - 1);
    }
}

/// Reads a line from the bytes `incoming`, in the order in which the console
/// gave them, up until `LEN` bytes. A "newline" is a carriage return, a line
/// feed, an end of file or a NUL byte.
pub fn read_line<const LEN: usize>(incoming: &[u8]) -> (line: PStackStr<LEN>)
    ensures
        line@ == line_of(incoming@, LEN as int),
{
    let mut reader = LineReader::<LEN>::new();
    let mut idx: usize = 0;
    proof {
        lemma_line_len(incoming@, 0);
    }
    while idx < incoming.len() && !reader.is_done()
        invariant
            idx <= incoming@.len(),
            !reader@.done ==> idx < LEN && reader@.line == incoming@.take(idx as int) && (forall|
                k: int,
            |
                0 <= k < idx ==> !is_terminator(incoming@[k])),
            reader@.done ==> reader@.line == line_of(incoming@, LEN as int),
        decreases incoming@.len() - idx,
    {
        let byte = incoming[idx];
        proof {
            lemma_line_len(incoming@, idx as int);
            if !is_terminator(byte) {
                lemma_line_len(incoming@, idx + 1);
            }
        }
        reader.accept(byte);
        idx += 1;
    }
    proof {
        if !reader@.done {
            lemma_line_len(incoming@, idx as int);
        }
    }
    reader.into_line()
}

/// The line ends at its first terminator: no terminator stands before the
/// end of the line, and one stands there unless the bytes are used up.
pub proof fn lemma_line_ends_at_terminator(incoming: Seq<u8>)
    ensures
        0 <= line_len(incoming) <= incoming.len(),
        forall|k: int| 0 <= k < line_len(incoming) ==> !is_terminator(incoming[k]),
        line_len(incoming) < incoming.len() ==> is_terminator(incoming[line_len(incoming)]),
    decreases incoming.len(),
{
    if incoming.len() > 0 && !is_terminator(incoming[0]) {
        let rest = incoming.drop_first();
        lemma_line_ends_at_terminator(rest);
        assert forall|k: int| 0 <= k < line_len(incoming) implies !is_terminator(incoming[k]) by {
            if k > 0 {
                assert(incoming[k] == rest[k - 1]);
            }
        }
    }
}

/// A reader that is handed the bytes of `incoming` one by one ends up with the
/// line that [`read_line`] takes from them; and it is done exactly when a
/// terminator was among them or as many bytes came as the line can hold.
pub proof fn lemma_reader_reads_the_line(incoming: Seq<u8>, capacity: int)
    requires
        0 <= capacity,
    ensures
        accepted_all(fresh(capacity), incoming, capacity).line == line_of(incoming, capacity),
        accepted_all(fresh(capacity), incoming, capacity).done == (line_len(incoming)
            < incoming.len() || incoming.len() >= capacity),
    decreases incoming.len(),
{
    lemma_line_ends_at_terminator(incoming);
    if incoming.len() > 0 {
        let before = incoming.drop_last();
        let byte = incoming.last();
        lemma_reader_reads_the_line(before, capacity);
        lemma_line_ends_at_terminator(before);
        if line_len(before) < before.len() {
            assert forall|k: int| 0 <= k < line_len(before) implies !is_terminator(
                incoming[k],
            ) by {
                assert(incoming[k] == before[k]);
            }
            lemma_line_len(incoming, line_len(before));
        } else {
            assert forall|k: int| 0 <= k < before.len() implies !is_terminator(incoming[k]) by {
                assert(incoming[k] == before[k]);
            }
            lemma_line_len(incoming, before.len() as int);
            if before.len() < capacity && !is_terminator(byte) {
                lemma_line_len(incoming, incoming.len() as int);
            }
        }
    }
}

} // verus!
