//! An interactive "debugger" or "monitor," [`HallwayMonitor`], meant for debug scenarios to look
//! through memory.
//!
//! The monitor works on a byte arena that stands for the machine's memory: an
//! address is an index into it, and an address past its end is never read or
//! written.

use crate::arena::{fill, load, overlay, repeated, store, window};
use crate::debug::command::{command_of, parse_command, Command, CommandView};
use crate::debug::memory::{MarkerEntry, MarkerRegistry};
use crate::debug::text::{digits_of, hex_pair, push_bytes, push_hex_pair, push_number, push_text};
use vstd::prelude::*;
use vstd::string::StringSliceAdditionalSpecFns;

verus! {

/// The longest line that the monitor reads, in bytes.
pub const LINE_LEN: usize = 96;

/// What `help` shows.
pub const HELP_MESSAGE: &'static str =
    "Commands:\nhelp/h - <--\nexit/e - <--\ncli - [cl]ear [i]nterrupts\nena - [ena]ble interrupts\nr<0xLEN> - [r]ead memory\nw<0xBYTE>(,<0bBYTE>...) - [w]rite bytes\ncw<0xBYTE>,0xLEN - [c]opy [w]rite\nj - [j]ump to a function pointer\na<0xLEN> - [a]dvance pointer\nb<0xLEN> - [b]acktrack pointer\nlm - [l]ist [m]arkers\nm<name> - point to [m]arker\ng<0xPOS> - [g]oto position";

/// What the caller is to do once a command has run.
#[derive(Clone, Copy, Debug, PartialEq, Eq)]
pub enum Action {
    /// Ask for the next line.
    Continue,
    /// Unmask the interrupts and leave the monitor.
    Exit,
    /// Mask the interrupts.
    ClearInterrupts,
    /// Unmask the interrupts.
    EnableInterrupts,
    /// Hand control to the code at this address; it does not come back.
    Jump(usize),
}

/// What a command has to show.
#[derive(Debug, PartialEq, Eq)]
pub enum Report {
    /// Nothing.
    Silent,
    /// The list of commands.
    Help,
    /// Bytes of memory, and the address of the first.
    Dump(usize, Vec<u8>),
    /// The markers, each with its index.
    Markers(Vec<(usize, &'static str)>),
    /// The marker that the position was set to.
    Pointing(&'static str),
    /// No marker has the index that was asked for.
    NotFound,
    /// The line that was no command.
    Invalid(Vec<u8>),
}

/// A [`Report`] as a value to reason about.
pub enum ReportView {
    Silent,
    Help,
    Dump(usize, Seq<u8>),
    Markers(Seq<(usize, &'static str)>),
    Pointing(&'static str),
    NotFound,
    Invalid(Seq<u8>),
}

impl View for Report {
    type V = ReportView;

    open spec fn view(&self) -> ReportView {
        match self {
            Report::Silent => ReportView::Silent,
            Report::Help => ReportView::Help,
            Report::Dump(start, bytes) => ReportView::Dump(*start, bytes@),
            Report::Markers(listed) => ReportView::Markers(listed@),
            Report::Pointing(name) => ReportView::Pointing(*name),
            Report::NotFound => ReportView::NotFound,
            Report::Invalid(line) => ReportView::Invalid(line@),
        }
    }
}

/// What one command gives back.
pub struct Reply {
    pub action: Action,
    pub report: Report,
}

/// The state after one command, and what the command gives back.
pub struct Turn {
    pub cursor: Option<usize>,
    pub memory: Seq<u8>,
    pub action: Action,
    pub report: ReportView,
}

/// The names in `markers`, each with its index.
pub open spec fn listing(markers: Seq<MarkerEntry>) -> Seq<(usize, &'static str)> {
    Seq::new(markers.len(), |i: int| (i as usize, markers[i].0))
}

/// `cursor` moved up by `by` bytes; past the highest address it goes on from zero.
pub open spec fn moved_up(cursor: usize, by: usize) -> usize {
    if cursor + by > usize::MAX {
        (cursor + by - usize::MAX - 1) as usize
    } else {
        (cursor + by) as usize
    }
}

/// `cursor` moved down by `by` bytes; below zero it goes on from the highest address.
pub open spec fn moved_down(cursor: usize, by: usize) -> usize {
    if cursor - by < 0 {
        (cursor - by + usize::MAX + 1) as usize
    } else {
        (cursor - by) as usize
    }
}

/// What `command` does in the state `cursor`, `memory`, with the table `markers`.
///
/// Without a position, reading, writing, jumping and moving do nothing at all.
/// A write leaves the position where it was.
pub open spec fn turn(
    cursor: Option<usize>,
    command: CommandView,
    memory: Seq<u8>,
    markers: Seq<MarkerEntry>,
) -> Turn {
    let idle = Turn { cursor, memory, action: Action::Continue, report: ReportView::Silent };
    match command {
        CommandView::Help => Turn { report: ReportView::Help, ..idle },
        CommandView::Exit => Turn { action: Action::Exit, ..idle },
        CommandView::ClearInterrupts => Turn { action: Action::ClearInterrupts, ..idle },
        CommandView::EnableInterrupts => Turn { action: Action::EnableInterrupts, ..idle },
        CommandView::Read(count) => match cursor {
            Some(at) => Turn {
                report: ReportView::Dump(at, window(memory, at as int, count * 8)),
                ..idle
            },
            None => idle,
        },
        CommandView::Write(bytes) => match cursor {
            Some(at) => Turn { memory: overlay(memory, at as int, bytes), ..idle },
            None => idle,
        },
        CommandView::CopyWrite(byte, count) => match cursor {
            Some(at) => Turn {
                memory: overlay(memory, at as int, repeated(byte, count as nat)),
                ..idle
            },
            None => idle,
        },
        CommandView::Jump => match cursor {
            Some(at) => Turn { action: Action::Jump(at), ..idle },
            None => idle,
        },
        CommandView::Advance(by) => match cursor {
            Some(at) => Turn { cursor: Some(moved_up(at, by)), ..idle },
            None => idle,
        },
        CommandView::Backtrack(by) => match cursor {
            Some(at) => Turn { cursor: Some(moved_down(at, by)), ..idle },
            None => idle,
        },
        CommandView::ListMarkers => Turn { report: ReportView::Markers(listing(markers)), ..idle },
        CommandView::Marker(index) => if index < markers.len() {
            Turn {
                cursor: Some(markers[index as int].1),
                report: ReportView::Pointing(markers[index as int].0),
                ..idle
            }
        } else {
            Turn { report: ReportView::NotFound, ..idle }
        },
        CommandView::Goto(address) => match address {
            Some(at) => Turn { cursor: Some(at), ..idle },
            None => idle,
        },
        CommandView::Invalid(line) => Turn { report: ReportView::Invalid(line), ..idle },
    }
}

/// An interactive "debugger" to examine memory.
pub struct HallwayMonitor {
    pos: Option<usize>,
}

impl View for HallwayMonitor {
    type V = Option<usize>;

    /// The position, if one was set.
    closed spec fn view(&self) -> Option<usize> {
        self.pos
    }
}

impl Default for HallwayMonitor {
    fn default() -> (made: Self)
        ensures
            made@ is None,
    {
        Self { pos: None }
    }
}

impl HallwayMonitor {
    /// A monitor without a position.
    pub fn new() -> (made: Self)
        ensures
            made@ is None,
    {
        Self::default()
    }

    /// The position, if one was set.
    pub fn position(&self) -> (pos: Option<usize>)
        ensures
            pos == self@,
    {
        self.pos
    }

    /// The list of commands, as it is printed.
    pub fn help(&self) -> (out: Vec<u8>)
        ensures
            out@ == report_text(ReportView::Help),
    {
        Report::Help.render()
    }

    /// What the monitor prints when it starts: a welcome, then the list of commands.
    pub fn greeting(&self) -> (out: Vec<u8>)
        ensures
            out@ == "Welcome to Hallway Monitor!\n".spec_bytes() + report_text(ReportView::Help),
    {
        let mut out: Vec<u8> = Vec::new();
        push_text(&mut out, "Welcome to Hallway Monitor!\n");
        let help = self.help();
        push_bytes(&mut out, help.as_slice());
        out
    }

    /// What the monitor prints before it reads a line: the status, then `> `.
    pub fn prompt(&self) -> (out: Vec<u8>)
        ensures
            out@ == status_text(self@) + "> ".spec_bytes(),
    {
        let mut out = self.status();
        push_text(&mut out, "> ");
        out
    }

    /// The line, or lines, printed before each prompt.
    pub fn status(&self) -> (out: Vec<u8>)
        ensures
            out@ == status_text(self@),
    {
        let mut out: Vec<u8> = Vec::new();
        match self.pos {
            Some(at) => {
                push_text(&mut out, "Position: 0x");
                push_number(&mut out, at, 16);
                push_text(&mut out, "\n");
            },
            None => {
                push_text(
                    &mut out,
                    "No position specified.\nHINT: Point to a marker first!\nHINT: See `help`.\n",
                );
            },
        }
        out
    }

    /// What `r` shows for `len` groups of eight bytes: the bytes from the
    /// position on, as far as the arena reaches. Nothing without a position.
    fn read_memory(&self, len: usize, memory: &[u8]) -> (report: Report)
        ensures
            self@ is None ==> report@ == ReportView::Silent,
            self@ matches Some(at) ==> report@ == ReportView::Dump(
                at,
                window(memory@, at as int, len * 8),
            ),
    {
        let at = match self.pos {
            Some(at) => at,
            None => {
                return Report::Silent;
            },
        };
        let want = if len > memory.len() / 8 {
            memory.len()
        } else {
            len * 8
        };
        Report::Dump(at, load(memory, at, want))
    }

    /// Writes `bytes` from the position on. Nothing without a position.
    fn write_memory(&self, bytes: &[u8], memory: &mut [u8])
        ensures
            self@ is None ==> final(memory)@ == old(memory)@,
            self@ matches Some(at) ==> final(memory)@ == overlay(old(memory)@, at as int, bytes@),
    {
        match self.pos {
            Some(at) => store(memory, at, bytes),
            None => {},
        }
    }

    /// Writes `byte` `count` times from the position on. Nothing without a position.
    fn copy_write(&self, byte: u8, count: usize, memory: &mut [u8])
        ensures
            self@ is None ==> final(memory)@ == old(memory)@,
            self@ matches Some(at) ==> final(memory)@ == overlay(
                old(memory)@,
                at as int,
                repeated(byte, count as nat),
            ),
    {
        match self.pos {
            Some(at) => fill(memory, at, byte, count),
            None => {},
        }
    }

    /// Advance the position by `by` bytes.
    fn advance(&mut self, by: usize)
        ensures
            old(self)@ is None ==> final(self)@ is None,
            old(self)@ matches Some(at) ==> final(self)@ == Some(moved_up(at, by)),
    {
        self.pos = match self.pos {
            Some(at) => Some(at.wrapping_add(by)),
            None => None,
        };
    }

    /// Backtrack the position by `by` bytes.
    fn backtrack(&mut self, by: usize)
        ensures
            old(self)@ is None ==> final(self)@ is None,
            old(self)@ matches Some(at) ==> final(self)@ == Some(moved_down(at, by)),
    {
        self.pos = match self.pos {
            Some(at) => Some(at.wrapping_sub(by)),
            None => None,
        };
    }

    /// Points to the marker at `idx`; without such a marker the position stays.
    fn marker<const CAP: usize>(&mut self, idx: usize, markers: &MarkerRegistry<CAP>) -> (report:
        Report)
        ensures
            idx < markers@.len() ==> final(self)@ == Some(markers@[idx as int].1) && report@
                == ReportView::Pointing(markers@[idx as int].0),
            idx >= markers@.len() ==> final(self)@ == old(self)@ && report@ == ReportView::NotFound,
    {
        match markers.entry(idx) {
            Some(entry) => {
                self.pos = Some(entry.1);
                Report::Pointing(entry.0)
            },
            None => Report::NotFound,
        }
    }

    /// Runs one command on the arena `memory`, with the table `markers`.
    pub fn execute<const CAP: usize>(
        &mut self,
        command: Command,
        memory: &mut [u8],
        markers: &MarkerRegistry<CAP>,
    ) -> (reply: Reply)
        ensures
            final(self)@ == turn(old(self)@, command@, old(memory)@, markers@).cursor,
            final(memory)@ == turn(old(self)@, command@, old(memory)@, markers@).memory,
            reply.action == turn(old(self)@, command@, old(memory)@, markers@).action,
            reply.report@ == turn(old(self)@, command@, old(memory)@, markers@).report,
    {
        match command {
            Command::Help => Reply { action: Action::Continue, report: Report::Help },
            Command::Exit => Reply { action: Action::Exit, report: Report::Silent },
            Command::ClearInterrupts => Reply {
                action: Action::ClearInterrupts,
                report: Report::Silent,
            },
            Command::EnableInterrupts => Reply {
                action: Action::EnableInterrupts,
                report: Report::Silent,
            },
            Command::Read(count) => Reply {
                action: Action::Continue,
                report: self.read_memory(count, memory),
            },
            Command::Write(bytes) => {
                self.write_memory(bytes.as_slice(), memory);
                Reply { action: Action::Continue, report: Report::Silent }
            },
            Command::CopyWrite(byte, count) => {
                self.copy_write(byte, count, memory);
                Reply { action: Action::Continue, report: Report::Silent }
            },
            Command::Jump => match self.pos {
                Some(at) => Reply { action: Action::Jump(at), report: Report::Silent },
                None => Reply { action: Action::Continue, report: Report::Silent },
            },
            Command::Advance(by) => {
                self.advance(by);
                Reply { action: Action::Continue, report: Report::Silent }
            },
            Command::Backtrack(by) => {
                self.backtrack(by);
                Reply { action: Action::Continue, report: Report::Silent }
            },
            Command::ListMarkers => {
                let listed = markers.list();
                assert(listed@ =~= listing(markers@));
                Reply { action: Action::Continue, report: Report::Markers(listed) }
            },
            Command::Marker(index) => {
                let report = self.marker(index, markers);
                Reply { action: Action::Continue, report }
            },
            Command::Goto(address) => {
                match address {
                    Some(at) => {
                        self.pos = Some(at);
                    },
                    None => {},
                }
                Reply { action: Action::Continue, report: Report::Silent }
            },
            Command::Invalid(line) => Reply {
                action: Action::Continue,
                report: Report::Invalid(line),
            },
        }
    }

    /// Runs one turn of the monitor: reads `line` as a command and runs it.
    pub fn interactive<const CAP: usize>(
        &mut self,
        line: &[u8],
        memory: &mut [u8],
        markers: &MarkerRegistry<CAP>,
    ) -> (reply: Reply)
        ensures
            final(self)@ == turn(old(self)@, command_of(line@), old(memory)@, markers@).cursor,
            final(memory)@ == turn(old(self)@, command_of(line@), old(memory)@, markers@).memory,
            reply.action == turn(old(self)@, command_of(line@), old(memory)@, markers@).action,
            reply.report@ == turn(old(self)@, command_of(line@), old(memory)@, markers@).report,
    {
        self.execute(parse_command(line), memory, markers)
    }
}

/// What `r` prints for `bytes`, the first of which lies at `start`: each byte
/// as `0x` and two digits and a space; after every eighth, the address of the
/// byte that follows, and the line ends.
pub open spec fn dump_text(start: usize, bytes: Seq<u8>) -> Seq<u8>
    decreases bytes.len(),
{
    if bytes.len() == 0 {
        Seq::empty()
    } else {
        let shown = dump_text(start, bytes.drop_last()) + "0x".spec_bytes() + hex_pair(bytes.last())
            + " ".spec_bytes();
        if bytes.len() % 8 == 0 && bytes.len() <= usize::MAX {
            shown + "<-- @0x".spec_bytes() + digits_of(
                moved_up(start, bytes.len() as usize) as nat,
                16,
            ) + "\n".spec_bytes()
        } else {
            shown
        }
    }
}

/// What `lm` prints for `listed`: a line for each marker, with its index in
/// decimal and its name.
pub open spec fn markers_text(listed: Seq<(usize, &'static str)>) -> Seq<u8>
    decreases listed.len(),
{
    if listed.len() == 0 {
        Seq::empty()
    } else {
        markers_text(listed.drop_last()) + digits_of(listed.last().0 as nat, 10)
            + " --> ".spec_bytes() + listed.last().1.spec_bytes() + "\n".spec_bytes()
    }
}

/// What is printed for `report`.
pub open spec fn report_text(report: ReportView) -> Seq<u8> {
    match report {
        ReportView::Silent => Seq::empty(),
        ReportView::Help => HELP_MESSAGE.spec_bytes() + "\n".spec_bytes(),
        ReportView::Dump(start, bytes) => dump_text(start, bytes),
        ReportView::Markers(listed) => markers_text(listed),
        ReportView::Pointing(name) => "Pointing to marker `".spec_bytes() + name.spec_bytes()
            + "`!\n".spec_bytes(),
        ReportView::NotFound => "Marker not found\nHINT: Use `lm` to list markers\n".spec_bytes(),
        ReportView::Invalid(line) => "invalid input `".spec_bytes() + line
            + "`\nsee `help`\n".spec_bytes(),
    }
}

/// What is printed before each prompt in the state `cursor`.
pub open spec fn status_text(cursor: Option<usize>) -> Seq<u8> {
    match cursor {
        Some(at) => "Position: 0x".spec_bytes() + digits_of(at as nat, 16) + "\n".spec_bytes(),
        None => "No position specified.\nHINT: Point to a marker first!\nHINT: See `help`.\n".spec_bytes(),
    }
}

impl Report {
    /// The text to print for this report.
    pub fn render(&self) -> (out: Vec<u8>)
        ensures
            out@ == report_text(self@),
    {
        let mut out: Vec<u8> = Vec::new();
        match self {
            Report::Silent => {},
            Report::Help => {
                push_text(&mut out, HELP_MESSAGE);
                push_text(&mut out, "\n");
            },
            Report::Dump(start, bytes) => {
                let mut idx: usize = 0;
                while idx < bytes.len()
                    invariant
                        idx <= bytes@.len(),
                        out@ == dump_text(*start, bytes@.take(idx as int)),
                    decreases bytes@.len() - idx,
                {
                    let ghost upto = bytes@.take(idx + 1);
                    assert(upto.drop_last() =~= bytes@.take(idx as int));
                    push_text(&mut out, "0x");
                    push_hex_pair(&mut out, bytes[idx]);
                    push_text(&mut out, " ");
                    if (idx + 1) % 8 == 0 {
                        push_text(&mut out, "<-- @0x");
                        push_number(&mut out, start.wrapping_add(idx + 1), 16);
                        push_text(&mut out, "\n");
                    }
                    idx += 1;
                }
                assert(bytes@.take(idx as int) =~= bytes@);
            },
            Report::Markers(listed) => {
                let mut idx: usize = 0;
                while idx < listed.len()
                    invariant
                        idx <= listed@.len(),
                        out@ == markers_text(listed@.take(idx as int)),
                    decreases listed@.len() - idx,
                {
                    let ghost upto = listed@.take(idx + 1);
                    assert(upto.drop_last() =~= listed@.take(idx as int));
                    push_number(&mut out, listed[idx].0, 10);
                    push_text(&mut out, " --> ");
                    push_text(&mut out, listed[idx].1);
                    push_text(&mut out, "\n");
                    idx += 1;
                }
                assert(listed@.take(idx as int) =~= listed@);
            },
            Report::Pointing(name) => {
                push_text(&mut out, "Pointing to marker `");
                push_text(&mut out, name);
                push_text(&mut out, "`!\n");
            },
            Report::NotFound => {
                push_text(&mut out, "Marker not found\nHINT: Use `lm` to list markers\n");
            },
            Report::Invalid(line) => {
                push_text(&mut out, "invalid input `");
                push_bytes(&mut out, line.as_slice());
                push_text(&mut out, "`\nsee `help`\n");
            },
        }
        out
    }
}

/// Moving up and then down by the same number of bytes leads back to where
/// one was, and so does moving down and then up.
pub proof fn lemma_moves_undo_each_other(cursor: usize, by: usize)
    ensures
        moved_down(moved_up(cursor, by), by) == cursor,
        moved_up(moved_down(cursor, by), by) == cursor,
{
}

/// An advance that is followed by a backtrack of as many bytes leaves the
/// position as it was, set or not.
pub proof fn lemma_backtrack_undoes_advance(
    cursor: Option<usize>,
    by: usize,
    memory: Seq<u8>,
    markers: Seq<MarkerEntry>,
)
    ensures
        turn(
            turn(cursor, CommandView::Advance(by), memory, markers).cursor,
            CommandView::Backtrack(by),
            memory,
            markers,
        ).cursor == cursor,
{
    if let Some(at) = cursor {
        lemma_moves_undo_each_other(at, by);
    }
}

/// A write leaves the position where it was, and a read that follows shows
/// the bytes that were written, from the position on, as far as they lie in
/// the arena and in what is read.
pub proof fn lemma_read_shows_what_was_written(
    at: usize,
    bytes: Seq<u8>,
    count: usize,
    memory: Seq<u8>,
    markers: Seq<MarkerEntry>,
)
    ensures
        turn(Some(at), CommandView::Write(bytes), memory, markers).cursor == Some(at),
        ({
            let written = turn(Some(at), CommandView::Write(bytes), memory, markers);
            let read = turn(written.cursor, CommandView::Read(count), written.memory, markers);
            &&& read.cursor == Some(at)
            &&& read.memory == written.memory
            &&& read.report matches ReportView::Dump(start, shown)
            &&& start == at
            &&& forall|i: int|
                0 <= i < bytes.len() && i < count * 8 && at + i < memory.len() ==> i < shown.len()
                    && shown[i] == bytes[i]
        }),
{
}

/// Without a position, the commands that work at the position do nothing:
/// the memory is not touched, no position appears, nothing is shown.
pub proof fn lemma_unset_position_is_inert(
    command: CommandView,
    memory: Seq<u8>,
    markers: Seq<MarkerEntry>,
)
    requires
        command is Read || command is Write || command is CopyWrite || command is Jump
            || command is Advance || command is Backtrack,
    ensures
        turn(None, command, memory, markers) == (Turn {
            cursor: None,
            memory,
            action: Action::Continue,
            report: ReportView::Silent,
        }),
{
}

/// A position that was set is never cleared: whatever the command, the monitor
/// has a position afterwards.
pub proof fn lemma_position_is_never_cleared(
    at: usize,
    command: CommandView,
    memory: Seq<u8>,
    markers: Seq<MarkerEntry>,
)
    ensures
        turn(Some(at), command, memory, markers).cursor is Some,
{
}

/// Only a goto that names an address and a marker that is there give the
/// monitor a position when it has none.
pub proof fn lemma_position_is_set_by_goto_or_marker(
    command: CommandView,
    memory: Seq<u8>,
    markers: Seq<MarkerEntry>,
)
    requires
        turn(None, command, memory, markers).cursor is Some,
    ensures
        command matches CommandView::Goto(address) ==> address is Some,
        command matches CommandView::Marker(index) ==> index < markers.len(),
        command is Goto || command is Marker,
{
}

/// Only the two writing commands change the memory, and no command changes
/// the size of the arena.
pub proof fn lemma_memory_is_changed_by_writes_only(
    cursor: Option<usize>,
    command: CommandView,
    memory: Seq<u8>,
    markers: Seq<MarkerEntry>,
)
    ensures
        turn(cursor, command, memory, markers).memory.len() == memory.len(),
        !(command is Write || command is CopyWrite) ==> turn(
            cursor,
            command,
            memory,
            markers,
        ).memory == memory,
{
}

} // verus!
