//! Panic handler: what is reported when the kernel gives up, and what follows.

use crate::debug::text::{digits_of, push_bytes, push_number, push_text};
use vstd::prelude::*;
use vstd::string::StringSliceAdditionalSpecFns;

verus! {

/// The length of the line that is waited for before the monitor starts: the
/// first key that is pressed ends the wait.
pub const CONFIRM_LEN: usize = 1;

/// The time between two changes of the indicator in the busy loop, in milliseconds.
pub const BLINK_MILLIS: u16 = 500;

/// Where in the source a panic came from.
pub struct PanicLocation<'a> {
    pub file: &'a str,
    pub line: u32,
    pub column: u32,
}

/// What the panic handler does once the console is set up anew: it prints
/// `report`; then, where `monitor` is set, it waits for a line of
/// [`CONFIRM_LEN`] bytes and runs the monitor; then it prints `farewell` and
/// changes the indicator every [`BLINK_MILLIS`] milliseconds, forever.
pub struct PanicPlan {
    pub report: Vec<u8>,
    pub monitor: bool,
    pub farewell: Vec<u8>,
}

/// One line of debug output that says `text`.
pub open spec fn debug_line(text: Seq<u8>) -> Seq<u8> {
    "[debug] ".spec_bytes() + text + "\n".spec_bytes()
}

/// The line for the panic's message, if it has one.
pub open spec fn message_text(message: Option<&str>) -> Seq<u8> {
    match message {
        Some(message) => debug_line("PANICKED! ".spec_bytes() + message.spec_bytes()),
        None => Seq::empty(),
    }
}

/// The line for the panic's place, if it has one: file, line and column, with
/// colons between them.
pub open spec fn location_text(location: Option<PanicLocation<'_>>) -> Seq<u8> {
    match location {
        Some(location) => debug_line(
            "PANICKED! ".spec_bytes() + location.file.spec_bytes() + ":".spec_bytes() + digits_of(
                location.line as nat,
                10,
            ) + ":".spec_bytes() + digits_of(location.column as nat, 10),
        ),
        None => Seq::empty(),
    }
}

/// The line that says what comes next.
pub open spec fn outlook_text(debug: bool) -> Seq<u8> {
    if debug {
        debug_line("Enter to start Hallway Monitor...".spec_bytes())
    } else {
        debug_line("Run with debug assertions to start Hallway Monitor.".spec_bytes())
    }
}

/// Appends to `out` one line of debug output that says `text`.
fn push_debug_line(out: &mut Vec<u8>, text: &[u8])
    ensures
        final(out)@ == old(out)@ + debug_line(text@),
{
    push_text(out, "[debug] ");
    push_bytes(out, text);
    push_text(out, "\n");
}

/// Appends to `out` the line for the panic's message, if it has one.
fn push_message(out: &mut Vec<u8>, message: Option<&str>)
    ensures
        final(out)@ == old(out)@ + message_text(message),
{
    match message {
        Some(message) => {
            let mut text: Vec<u8> = Vec::new();
            push_text(&mut text, "PANICKED! ");
            push_text(&mut text, message);
            push_debug_line(out, text.as_slice());
        },
        None => {
        },
    }
}

/// Appends to `out` the line for the panic's place, if it has one.
fn push_location(out: &mut Vec<u8>, location: Option<PanicLocation<'_>>)
    ensures
        final(out)@ == old(out)@ + location_text(location),
{
    match location {
        Some(location) => {
            let mut text: Vec<u8> = Vec::new();
            push_text(&mut text, "PANICKED! ");
            push_text(&mut text, location.file);
            push_text(&mut text, ":");
            push_number(&mut text, location.line as usize, 10);
            push_text(&mut text, ":");
            push_number(&mut text, location.column as usize, 10);
            push_debug_line(out, text.as_slice());
        },
        None => {
        },
    }
}

/// Says what is to happen on a panic with this message and place; `debug`
/// tells whether the monitor is there to be run.
pub fn panic(message: Option<&str>, location: Option<PanicLocation<'_>>, debug: bool) -> (plan:
    PanicPlan)
    ensures
        plan.report@ == message_text(message) + location_text(location) + outlook_text(debug),
        plan.monitor == debug,
        plan.farewell@ == debug_line("Entering busy loop.".spec_bytes()),
{
    let mut report: Vec<u8> = Vec::new();
    push_message(&mut report, message);
    push_location(&mut report, location);
    if debug {
        push_debug_line(&mut report, "Enter to start Hallway Monitor...".as_bytes());
    } else {
        push_debug_line(
            &mut report,
            "Run with debug assertions to start Hallway Monitor.".as_bytes(),
        );
    }
    let mut farewell: Vec<u8> = Vec::new();
    push_debug_line(&mut farewell, "Entering busy loop.".as_bytes());
    PanicPlan { report, monitor: debug, farewell }
}

} // verus!
