//! The grammar of the monitor's command lines.
//!
//! A line is a sequence of bytes. It is trimmed, its first bytes choose the
//! command, and the numbers in it are read token by token.

use crate::debug::text::{digit_byte, digits_of};
use vstd::prelude::*;
use vstd::slice::{slice_subrange, slice_to_vec};

verus! {

/// ASCII white space: the space, and the bytes from tab to carriage return.
pub open spec fn is_space(byte: u8) -> bool {
    byte == 0x20 || (0x09 <= byte && byte <= 0x0d)
}

/// `line` without the white space at its end.
pub open spec fn trim_end(line: Seq<u8>) -> Seq<u8>
    decreases line.len(),
{
    if line.len() > 0 && is_space(line.last()) {
        trim_end(line.drop_last())
    } else {
        line
    }
}

/// `line` without the white space at its start.
pub open spec fn trim_start(line: Seq<u8>) -> Seq<u8>
    decreases line.len(),
{
    if line.len() > 0 && is_space(line[0]) {
        trim_start(line.drop_first())
    } else {
        line
    }
}

/// `line` without the white space at either end.
pub open spec fn trimmed(line: Seq<u8>) -> Seq<u8> {
    trim_start(trim_end(line))
}

/// What the digit `byte` counts for: `0` to `9`, then the letters of either
/// case from 10 on. A byte that is no digit counts 36, more than any digit.
pub open spec fn digit_value(byte: u8) -> int {
    if 0x30 <= byte && byte <= 0x39 {
        byte - 0x30
    } else if 0x61 <= byte && byte <= 0x7a {
        byte - 0x61 + 10
    } else if 0x41 <= byte && byte <= 0x5a {
        byte - 0x41 + 10
    } else {
        36
    }
}

/// Every byte of `digits` is a digit in `radix`.
pub open spec fn all_digits(digits: Seq<u8>, radix: int) -> bool {
    forall|i: int| 0 <= i < digits.len() ==> digit_value(#[trigger] digits[i]) < radix
}

/// The number that `digits` write in `radix`, the most significant digit first.
pub open spec fn value_of(digits: Seq<u8>, radix: int) -> int
    decreases digits.len(),
{
    if digits.len() == 0 {
        0
    } else {
        value_of(digits.drop_last(), radix) * radix + digit_value(digits.last())
    }
}

/// The number that `token` stands for: one `+` may lead, at least one digit
/// follows, nothing else occurs, and the number fits a `usize`.
pub open spec fn number_of(token: Seq<u8>, radix: int) -> Option<usize> {
    let digits = if token.len() > 0 && token[0] == 0x2b {
        token.drop_first()
    } else {
        token
    };
    if digits.len() > 0 && all_digits(digits, radix) && value_of(digits, radix) <= usize::MAX {
        Some(value_of(digits, radix) as usize)
    } else {
        None
    }
}

/// `token` without any `0x` that leads it, however many there are.
pub open spec fn strip_0x(token: Seq<u8>) -> Seq<u8>
    decreases token.len(),
{
    if token.len() >= 2 && token[0] == 0x30 && token[1] == 0x78 {
        strip_0x(token.skip(2))
    } else {
        token
    }
}

/// The token of at most `len` bytes that starts at `offset`: nothing where the
/// line ends before `offset`, what is left of the line where it ends before
/// `len` bytes are had; and no `0x` in front.
pub open spec fn token_at(input: Seq<u8>, offset: int, len: int) -> Seq<u8> {
    let rest = if 0 <= offset <= input.len() {
        input.skip(offset)
    } else {
        Seq::empty()
    };
    let cut = if 0 <= len <= rest.len() {
        rest.take(len)
    } else {
        rest
    };
    strip_0x(cut)
}

/// The number in the token at `offset`, or `default` where that token is no number.
pub open spec fn parsed_or(input: Seq<u8>, offset: int, len: int, radix: int, default: usize) -> usize {
    match number_of(token_at(input, offset, len), radix) {
        Some(value) => value,
        None => default,
    }
}

/// Cuts the white space off both ends of `line`.
pub fn trim(line: &[u8]) -> (kept: &[u8])
    ensures
        kept@ == trimmed(line@),
{
    let mut end: usize = line.len();
    assert(line@.take(end as int) =~= line@);
    while end > 0 && is_space_byte(line[end - 1])
        invariant
            end <= line@.len(),
            trim_end(line@) == trim_end(line@.take(end as int)),
        decreases end,
    {
        assert(line@.take(end as int).drop_last() =~= line@.take(end - 1));
        end -= 1;
    }
    let mut start: usize = 0;
    while start < end && is_space_byte(line[start])
        invariant
            start <= end <= line@.len(),
            trimmed(line@) == trim_start(line@.subrange(start as int, end as int)),
        decreases end - start,
    {
        assert(line@.subrange(start as int, end as int).drop_first() =~= line@.subrange(
            start + 1,
            end as int,
        ));
        start += 1;
    }
    slice_subrange(line, start, end)
}

/// Tells whether `byte` is ASCII white space.
pub fn is_space_byte(byte: u8) -> (space: bool)
    ensures
        space == is_space(byte),
{
    byte == 0x20 || (0x09 <= byte && byte <= 0x0d)
}

/// What the digit `byte` counts for, or 36 where it is no digit.
pub fn digit_of(byte: u8) -> (value: u32)
    ensures
        value == digit_value(byte),
{
    if 0x30 <= byte && byte <= 0x39 {
        (byte - 0x30) as u32
    } else if 0x61 <= byte && byte <= 0x7a {
        (byte - 0x61) as u32 + 10
    } else if 0x41 <= byte && byte <= 0x5a {
        (byte - 0x41) as u32 + 10
    } else {
        36
    }
}

proof fn lemma_value_grows(digits: Seq<u8>, radix: int, upto: int)
    requires
        1 <= radix,
        0 <= upto <= digits.len(),
    ensures
        0 <= value_of(digits.take(upto), radix) <= value_of(digits, radix),
    decreases digits.len() - upto,
{
    lemma_value_not_negative(digits.take(upto), radix);
    if upto == digits.len() {
        assert(digits.take(upto) =~= digits);
    } else {
        lemma_value_grows(digits, radix, upto + 1);
        assert(digits.take(upto + 1).drop_last() =~= digits.take(upto));
        assert(value_of(digits.take(upto), radix) * radix >= value_of(digits.take(upto), radix))
            by (nonlinear_arith)
            requires
                value_of(digits.take(upto), radix) >= 0,
                radix >= 1,
        ;
    }
}

proof fn lemma_value_not_negative(digits: Seq<u8>, radix: int)
    requires
        1 <= radix,
    ensures
        0 <= value_of(digits, radix),
    decreases digits.len(),
{
    if digits.len() > 0 {
        lemma_value_not_negative(digits.drop_last(), radix);
        assert(value_of(digits.drop_last(), radix) * radix >= 0) by (nonlinear_arith)
            requires
                value_of(digits.drop_last(), radix) >= 0,
                radix >= 1,
        ;
    }
}

/// Reads `token` as a number in `radix`.
pub fn parse_number(token: &[u8], radix: u32) -> (number: Option<usize>)
    requires
        2 <= radix <= 36,
    ensures
        number == number_of(token@, radix as int),
{
    let start: usize = if token.len() > 0 && token[0] == 0x2b {
        1
    } else {
        0
    };
    if start == token.len() {
        return None;
    }
    let ghost digits = if start == 1 {
        token@.drop_first()
    } else {
        token@
    };
    let mut value: usize = 0;
    let mut idx: usize = start;
    while idx < token.len()
        invariant
            2 <= radix <= 36,
            start <= idx <= token@.len(),
            digits == token@.subrange(start as int, token@.len() as int),
            digits.len() > 0,
            number_of(token@, radix as int) == (if all_digits(digits, radix as int) && value_of(
                digits,
                radix as int,
            ) <= usize::MAX {
                Some(value_of(digits, radix as int) as usize)
            } else {
                None
            }),
            all_digits(digits.take(idx - start), radix as int),
            value == value_of(digits.take(idx - start), radix as int),
        decreases token@.len() - idx,
    {
        let digit = digit_of(token[idx]);
        assert(digits[idx - start] == token@[idx as int]);
        if digit >= radix {
            return None;
        }
        let ghost longer = digits.take(idx - start + 1);
        assert(longer.drop_last() =~= digits.take(idx - start));
        assert(all_digits(longer, radix as int));
        proof {
            lemma_value_grows(digits, radix as int, idx - start + 1);
        }
        let scaled = match value.checked_mul(radix as usize) {
            Some(scaled) => scaled,
            None => {
                return None;
            },
        };
        value = match scaled.checked_add(digit as usize) {
            Some(sum) => sum,
            None => {
                return None;
            },
        };
        idx += 1;
    }
    assert(digits.take(idx - start) =~= digits);
    Some(value)
}

/// The token of at most `len` bytes of `input` that starts at `offset`,
/// without any `0x` in front.
pub fn token(input: &[u8], offset: usize, len: usize) -> (found: &[u8])
    ensures
        found@ == token_at(input@, offset as int, len as int),
{
    let mut start: usize = if offset <= input.len() {
        offset
    } else {
        input.len()
    };
    let end: usize = if len <= input.len() - start {
        start + len
    } else {
        input.len()
    };
    let ghost rest = if offset <= input@.len() {
        input@.skip(offset as int)
    } else {
        Seq::<u8>::empty()
    };
    let ghost cut = if len <= rest.len() {
        rest.take(len as int)
    } else {
        rest
    };
    assert(cut =~= input@.subrange(start as int, end as int));
    while end - start >= 2 && input[start] == 0x30 && input[start + 1] == 0x78
        invariant
            start <= end <= input@.len(),
            strip_0x(cut) == strip_0x(input@.subrange(start as int, end as int)),
        decreases end - start,
    {
        assert(input@.subrange(start as int, end as int).skip(2) =~= input@.subrange(
            start + 2,
            end as int,
        ));
        start += 2;
    }
    slice_subrange(input, start, end)
}

/// Reads the number in `input[offset..offset + len]` in `radix`; `default`
/// where there is none.
pub fn helper_parse(input: &[u8], offset: usize, len: usize, radix: u32, default: usize) -> (value:
    usize)
    requires
        2 <= radix <= 36,
    ensures
        value == parsed_or(input@, offset as int, len as int, radix as int, default),
{
    match parse_number(token(input, offset, len), radix) {
        Some(value) => value,
        None => default,
    }
}

/// One command of the monitor.
#[derive(Debug, PartialEq, Eq)]
pub enum Command {
    /// Show the commands.
    Help,
    /// Leave the monitor.
    Exit,
    /// Mask the interrupts.
    ClearInterrupts,
    /// Unmask the interrupts.
    EnableInterrupts,
    /// Show this many groups of eight bytes.
    Read(usize),
    /// Write these bytes, one after the other.
    Write(Vec<u8>),
    /// Write this byte this many times.
    CopyWrite(u8, usize),
    /// Jump to the position.
    Jump,
    /// Move the position up by this many bytes.
    Advance(usize),
    /// Move the position down by this many bytes.
    Backtrack(usize),
    /// Show the markers.
    ListMarkers,
    /// Point to the marker with this index.
    Marker(usize),
    /// Point to this address; `None` where the line gave no number.
    Goto(Option<usize>),
    /// None of the above: the trimmed line is kept, to be shown.
    Invalid(Vec<u8>),
}

/// A [`Command`] as a value to reason about.
pub enum CommandView {
    Help,
    Exit,
    ClearInterrupts,
    EnableInterrupts,
    Read(usize),
    Write(Seq<u8>),
    CopyWrite(u8, usize),
    Jump,
    Advance(usize),
    Backtrack(usize),
    ListMarkers,
    Marker(usize),
    Goto(Option<usize>),
    Invalid(Seq<u8>),
}

impl View for Command {
    type V = CommandView;

    open spec fn view(&self) -> CommandView {
        match self {
            Command::Help => CommandView::Help,
            Command::Exit => CommandView::Exit,
            Command::ClearInterrupts => CommandView::ClearInterrupts,
            Command::EnableInterrupts => CommandView::EnableInterrupts,
            Command::Read(count) => CommandView::Read(*count),
            Command::Write(bytes) => CommandView::Write(bytes@),
            Command::CopyWrite(byte, count) => CommandView::CopyWrite(*byte, *count),
            Command::Jump => CommandView::Jump,
            Command::Advance(by) => CommandView::Advance(*by),
            Command::Backtrack(by) => CommandView::Backtrack(*by),
            Command::ListMarkers => CommandView::ListMarkers,
            Command::Marker(index) => CommandView::Marker(*index),
            Command::Goto(address) => CommandView::Goto(*address),
            Command::Invalid(line) => CommandView::Invalid(line@),
        }
    }
}

/// `line` starts with the bytes of `prefix`.
pub open spec fn begins(line: Seq<u8>, prefix: Seq<u8>) -> bool {
    &&& prefix.len() <= line.len()
    &&& forall|i: int| 0 <= i < prefix.len() ==> line[i] == prefix[i]
}

/// The byte that a write stores for the number `value`: the number itself, or
/// 255 where it is no byte.
pub open spec fn as_byte(value: usize) -> u8 {
    if value <= 0xff {
        value as u8
    } else {
        0xff
    }
}

/// The length of a write's token: four bytes where an `x` stands at `marker`,
/// else two.
pub open spec fn token_len(line: Seq<u8>, marker: int) -> int {
    if 0 <= marker < line.len() && line[marker] == 0x78 {
        4
    } else {
        2
    }
}

/// The bytes that the tokens of a write give from `offset` on. Each round
/// passes one byte over (the command letter, then the separators), reads one
/// token in hexadecimal and takes 0 where the token is no number.
pub open spec fn written_bytes(line: Seq<u8>, offset: int) -> Seq<u8>
    decreases line.len() - offset,
{
    if offset < 0 || offset >= line.len() {
        Seq::empty()
    } else {
        let start = offset + 1;
        let len = token_len(line, start + 1);
        let byte = as_byte(parsed_or(line, start, len, 16, 0));
        if start + len >= line.len() {
            seq![byte]
        } else {
            seq![byte] + written_bytes(line, start + len)
        }
    }
}

/// The command that the line `raw` gives. The line is trimmed; then the first
/// of these prefixes that it starts with decides, in this order: `h`, `ena`,
/// `e`, `cli`, `r`, `w`, `cw`, `j`, `a`, `b`, `lm`, `m`, `g`.
pub open spec fn command_of(raw: Seq<u8>) -> CommandView {
    let line = trimmed(raw);
    if begins(line, seq![0x68u8]) {  // h
        CommandView::Help
    } else if begins(line, seq![0x65u8, 0x6eu8, 0x61u8]) {  // ena
        CommandView::EnableInterrupts
    } else if begins(line, seq![0x65u8]) {  // e
        CommandView::Exit
    } else if begins(line, seq![0x63u8, 0x6cu8, 0x69u8]) {  // cli
        CommandView::ClearInterrupts
    } else if begins(line, seq![0x72u8]) {  // r
        CommandView::Read(parsed_or(line, 1, 8, 16, 8))
    } else if begins(line, seq![0x77u8]) {  // w
        CommandView::Write(written_bytes(line, 0))
    } else if begins(line, seq![0x63u8, 0x77u8]) {  // cw
        let len = token_len(line, 3);
        CommandView::CopyWrite(
            as_byte(parsed_or(line, 2, len, 16, 0)),
            parsed_or(line, 1 + len + 2, 4, 16, 1),
        )
    } else if begins(line, seq![0x6au8]) {  // j
        CommandView::Jump
    } else if begins(line, seq![0x61u8]) {  // a
        CommandView::Advance(parsed_or(line, 1, 8, 16, 1))
    } else if begins(line, seq![0x62u8]) {  // b
        CommandView::Backtrack(parsed_or(line, 1, 8, 16, 1))
    } else if begins(line, seq![0x6cu8, 0x6du8]) {  // lm
        CommandView::ListMarkers
    } else if begins(line, seq![0x6du8]) {  // m
        CommandView::Marker(parsed_or(line, 1, 8, 16, 0))
    } else if begins(line, seq![0x67u8]) {  // g
        CommandView::Goto(number_of(token_at(line, 1, 8), 16))
    } else {
        CommandView::Invalid(line)
    }
}

/// Tells whether `line` starts with the byte `first`.
fn begins_1(line: &[u8], first: u8) -> (found: bool)
    ensures
        found == begins(line@, seq![first]),
{
    line.len() >= 1 && line[0] == first
}

/// Tells whether `line` starts with `first` and `second`.
fn begins_2(line: &[u8], first: u8, second: u8) -> (found: bool)
    ensures
        found == begins(line@, seq![first, second]),
{
    line.len() >= 2 && line[0] == first && line[1] == second
}

/// Tells whether `line` starts with `first`, `second` and `third`.
fn begins_3(line: &[u8], first: u8, second: u8, third: u8) -> (found: bool)
    ensures
        found == begins(line@, seq![first, second, third]),
{
    line.len() >= 3 && line[0] == first && line[1] == second && line[2] == third
}

/// The byte that a write stores for `value`.
fn byte_of(value: usize) -> (byte: u8)
    ensures
        byte == as_byte(value),
{
    if value <= 0xff {
        value as u8
    } else {
        0xff
    }
}

/// The length of the write token whose marker would stand at `marker`.
fn token_len_at(line: &[u8], marker: usize) -> (len: usize)
    ensures
        len == token_len(line@, marker as int),
{
    if marker < line.len() && line[marker] == 0x78 {
        4
    } else {
        2
    }
}

/// The bytes that the tokens of the write command `line` give.
fn write_tokens(line: &[u8]) -> (bytes: Vec<u8>)
    ensures
        bytes@ == written_bytes(line@, 0),
{
    let mut bytes: Vec<u8> = Vec::new();
    let mut offset: usize = 0;
    while offset < line.len()
        invariant
            offset <= line@.len(),
            written_bytes(line@, 0) == bytes@ + written_bytes(line@, offset as int),
        decreases line@.len() - offset,
    {
        let start = offset + 1;
        let len = if line.len() - start > 1 {
            token_len_at(line, start + 1)
        } else {
            2
        };
        let byte = byte_of(helper_parse(line, start, len, 16, 0));
        let next = if len <= line.len() - start {
            start + len
        } else {
            line.len()
        };
        bytes.push(byte);
        offset = next;
    }
    bytes
}

/// Reads one line as a command.
pub fn parse_command(raw: &[u8]) -> (command: Command)
    ensures
        command@ == command_of(raw@),
{
    let line = trim(raw);
    if begins_1(line, 0x68) {
        Command::Help
    } else if begins_3(line, 0x65, 0x6e, 0x61) {
        Command::EnableInterrupts
    } else if begins_1(line, 0x65) {
        Command::Exit
    } else if begins_3(line, 0x63, 0x6c, 0x69) {
        Command::ClearInterrupts
    } else if begins_1(line, 0x72) {
        Command::Read(helper_parse(line, 1, 8, 16, 8))
    } else if begins_1(line, 0x77) {
        Command::Write(write_tokens(line))
    } else if begins_2(line, 0x63, 0x77) {
        let len = token_len_at(line, 3);
        let byte = byte_of(helper_parse(line, 2, len, 16, 0));
        Command::CopyWrite(byte, helper_parse(line, 1 + len + 2, 4, 16, 1))
    } else if begins_1(line, 0x6a) {
        Command::Jump
    } else if begins_1(line, 0x61) {
        Command::Advance(helper_parse(line, 1, 8, 16, 1))
    } else if begins_1(line, 0x62) {
        Command::Backtrack(helper_parse(line, 1, 8, 16, 1))
    } else if begins_2(line, 0x6c, 0x6d) {
        Command::ListMarkers
    } else if begins_1(line, 0x6d) {
        Command::Marker(helper_parse(line, 1, 8, 16, 0))
    } else if begins_1(line, 0x67) {
        Command::Goto(parse_number(token(line, 1, 8), 16))
    } else {
        Command::Invalid(slice_to_vec(line))
    }
}

/// What is written for a number is read back as that number: the digits that
/// [`digits_of`] gives are a token that stands for the number they were made for.
pub proof fn lemma_digits_read_back(number: usize, radix: int)
    requires
        2 <= radix <= 36,
    ensures
        number_of(digits_of(number as nat, radix as nat), radix) == Some(number),
{
    lemma_digits_value(number as nat, radix as nat);
}

proof fn lemma_digits_value(number: nat, radix: nat)
    requires
        2 <= radix <= 36,
    ensures
        digits_of(number, radix).len() > 0,
        digits_of(number, radix)[0] != 0x2b,
        all_digits(digits_of(number, radix), radix as int),
        value_of(digits_of(number, radix), radix as int) == number,
    decreases number,
{
    let digits = digits_of(number, radix);
    if number < radix {
        assert(value_of(digits.drop_last(), radix as int) == 0);
    } else {
        let head = digits_of(number / radix, radix);
        let last = (number % radix) as int;
        crate::debug::text::lemma_quotient_is_less(number, radix);
        lemma_digits_value(number / radix, radix);
        assert(0 <= last < radix) by (nonlinear_arith)
            requires
                last == (number % radix) as int,
                radix >= 2,
        ;
        assert(digits.drop_last() =~= head);
        assert(all_digits(digits, radix as int));
        assert((number / radix) * radix + number % radix == number) by (nonlinear_arith)
            requires
                radix >= 2,
        ;
    }
}

} // verus!
