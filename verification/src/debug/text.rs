//! Text for the console, built as bytes.

use vstd::prelude::*;
use vstd::string::StringSliceAdditionalSpecFns;

verus! {

/// The byte that writes the digit `digit`: `0` to `9`, then `a` to `z`.
pub open spec fn digit_byte(digit: int) -> u8 {
    if digit < 10 {
        (0x30 + digit) as u8
    } else {
        (0x61 + digit - 10) as u8
    }
}

/// `number` written in `radix`, most significant digit first, with no digit
/// more than it takes.
pub open spec fn digits_of(number: nat, radix: nat) -> Seq<u8>
    decreases number,
{
    if number < radix || radix < 2 {
        seq![digit_byte(number as int)]
    } else {
        proof {
            lemma_quotient_is_less(number, radix);
        }
        digits_of(number / radix, radix).push(digit_byte((number % radix) as int))
    }
}

/// Dividing by two or more makes a number smaller, unless it is zero.
pub proof fn lemma_quotient_is_less(number: nat, radix: nat)
    requires
        2 <= radix <= number,
    ensures
        number / radix < number,
{
    assert(number / radix < number) by (nonlinear_arith)
        requires
            2 <= radix <= number,
    ;
}

/// `byte` written as two hexadecimal digits.
pub open spec fn hex_pair(byte: u8) -> Seq<u8> {
    seq![digit_byte(byte as int / 16), digit_byte(byte as int % 16)]
}

/// Appends `bytes` to `out`.
pub fn push_bytes(out: &mut Vec<u8>, bytes: &[u8])
    ensures
        final(out)@ == old(out)@ + bytes@,
{
    let mut idx: usize = 0;
    while idx < bytes.len()
        invariant
            idx <= bytes@.len(),
            out@ == old(out)@ + bytes@.take(idx as int),
        decreases bytes@.len() - idx,
    {
        out.push(bytes[idx]);
        idx += 1;
    }
}

/// Appends the bytes of `text` to `out`.
pub fn push_text(out: &mut Vec<u8>, text: &str)
    ensures
        final(out)@ == old(out)@ + text.spec_bytes(),
{
    push_bytes(out, text.as_bytes());
}

/// The byte that writes `digit`.
fn digit_char(digit: usize) -> (byte: u8)
    requires
        digit < 36,
    ensures
        byte == digit_byte(digit as int),
{
    if digit < 10 {
        0x30 + digit as u8
    } else {
        0x61 + (digit - 10) as u8
    }
}

/// Appends `number`, written in `radix`, to `out`.
pub fn push_number(out: &mut Vec<u8>, number: usize, radix: usize)
    requires
        2 <= radix <= 36,
    ensures
        final(out)@ == old(out)@ + digits_of(number as nat, radix as nat),
    decreases number,
{
    if number >= radix {
        proof {
            lemma_quotient_is_less(number as nat, radix as nat);
        }
        push_number(out, number / radix, radix);
        out.push(digit_char(number % radix));
    } else {
        out.push(digit_char(number));
    }
}

/// Appends `byte`, written as two hexadecimal digits, to `out`.
pub fn push_hex_pair(out: &mut Vec<u8>, byte: u8)
    ensures
        final(out)@ == old(out)@ + hex_pair(byte),
{
    out.push(digit_char((byte / 16) as usize));
    out.push(digit_char((byte % 16) as usize));
}

} // verus!
