use vstd::prelude::*;

use crate::text::{trim_end, trim_end_bytes, push_all};

verus! {

/// Number of empty turns that `delay` takes.
pub const DELAY_TURNS: u32 = 10_000_000;

/// Waits by counting.
pub fn delay() {
    let mut i: u32 = 0;
    while i < DELAY_TURNS
        invariant
            i <= DELAY_TURNS,
        decreases DELAY_TURNS - i,
    {
        i = i + 1;
    }
}

/// The value of a binary-coded decimal byte: tens in the high nibble, units in the
/// low one.
pub open spec fn bcd_value(bcd: u8) -> nat {
    (bcd as nat / 16) * 10 + bcd as nat % 16
}

/// Decodes a binary-coded decimal byte, as the real-time clock reports them.
pub fn bcd_to_decimal(bcd: u8) -> (r: u8)
    ensures
        r == bcd_value(bcd),
{
    assert(bcd >> 4u8 == bcd / 16 && bcd & 0x0Fu8 == bcd % 16) by (bit_vector);
    ((bcd >> 4) * 10) + (bcd & 0x0F)
}

/// The ASCII digit for `d`.
pub open spec fn digit(d: nat) -> u8 {
    (48 + d) as u8
}

/// The decimal digits of `n`.
pub open spec fn decimal(n: nat) -> Seq<u8>
    decreases n,
{
    if n < 10 {
        seq![digit(n)]
    } else {
        decimal(n / 10).push(digit(n % 10))
    }
}

/// The decimal digits of `n`, at least two of them.
pub open spec fn two_digits(n: nat) -> Seq<u8> {
    if n < 10 {
        seq![digit(0), digit(n)]
    } else {
        decimal(n)
    }
}

fn push_two_digits(out: &mut Vec<u8>, n: u8)
    ensures
        final(out)@ == old(out)@ + two_digits(n as nat),
{
    let ghost m = n as nat;
    if n < 10 {
        out.push(48);
        out.push(48 + n);
        assert(final(out)@ =~= old(out)@ + two_digits(m));
    } else if n < 100 {
        out.push(48 + n / 10);
        out.push(48 + n % 10);
        assert(decimal(m / 10) == seq![digit(m / 10)]);
        assert(final(out)@ =~= old(out)@ + two_digits(m));
    } else {
        out.push(48 + n / 100);
        out.push(48 + (n / 10) % 10);
        out.push(48 + n % 10);
        assert(m / 10 / 10 == m / 100);
        assert(decimal(m / 10 / 10) == seq![digit(m / 100)]);
        assert(decimal(m / 10) =~= seq![digit(m / 100), digit((m / 10) % 10)]);
        assert(final(out)@ =~= old(out)@ + two_digits(m));
    }
}

/// A time of day as the real-time clock gives it.
#[derive(Clone, Copy, PartialEq, Eq, Structural, Debug)]
pub struct Time {
    pub seconds: u8,
    pub minutes: u8,
    pub hours: u8,
}

/// The ASCII colon.
pub const COLON: u8 = 0x3A;

/// `hh:mm:ss`, each field in at least two digits.
pub open spec fn time_text(t: Time) -> Seq<u8> {
    two_digits(t.hours as nat) + seq![COLON] + two_digits(t.minutes as nat) + seq![COLON]
        + two_digits(t.seconds as nat)
}

impl Time {
    /// The time from the clock's binary-coded decimal registers.
    pub fn from_bcd(seconds: u8, minutes: u8, hours: u8) -> (t: Time)
        ensures
            t.seconds == bcd_value(seconds),
            t.minutes == bcd_value(minutes),
            t.hours == bcd_value(hours),
    {
        Time {
            seconds: bcd_to_decimal(seconds),
            minutes: bcd_to_decimal(minutes),
            hours: bcd_to_decimal(hours),
        }
    }

    /// The time as text.
    pub fn to_text(&self) -> (r: Vec<u8>)
        ensures
            r@ == time_text(*self),
    {
        let mut r: Vec<u8> = Vec::new();
        push_two_digits(&mut r, self.hours);
        r.push(COLON);
        push_two_digits(&mut r, self.minutes);
        r.push(COLON);
        push_two_digits(&mut r, self.seconds);
        assert(r@ =~= time_text(*self));
        r
    }
}

/// The four bytes of a register, least significant first.
pub open spec fn le_bytes(w: u32) -> Seq<u8> {
    seq![(w & 0xFF) as u8, ((w >> 8) & 0xFF) as u8, ((w >> 16) & 0xFF) as u8, ((w >> 24) & 0xFF) as u8]
}

/// The bytes of a run of registers, each least significant byte first.
pub open spec fn words_bytes(ws: Seq<u32>) -> Seq<u8>
    decreases ws.len(),
{
    if ws.len() == 0 {
        Seq::empty()
    } else {
        words_bytes(ws.drop_last()) + le_bytes(ws.last())
    }
}

fn push_le_bytes(out: &mut Vec<u8>, w: u32)
    ensures
        final(out)@ == old(out)@ + le_bytes(w),
{
    out.push((w & 0xFF) as u8);
    out.push(((w >> 8) & 0xFF) as u8);
    out.push(((w >> 16) & 0xFF) as u8);
    out.push(((w >> 24) & 0xFF) as u8);
    assert(final(out)@ =~= old(out)@ + le_bytes(w));
}

/// The processor's vendor name from the `ebx`, `edx` and `ecx` registers that the
/// identification instruction fills, in that order.
pub fn vendor_string(ebx: u32, edx: u32, ecx: u32) -> (r: Vec<u8>)
    ensures
        r@ == le_bytes(ebx) + le_bytes(edx) + le_bytes(ecx),
{
    let mut r: Vec<u8> = Vec::new();
    push_le_bytes(&mut r, ebx);
    push_le_bytes(&mut r, edx);
    push_le_bytes(&mut r, ecx);
    assert(r@ =~= le_bytes(ebx) + le_bytes(edx) + le_bytes(ecx));
    r
}

/// The processor's brand name from the registers of the three brand queries, in
/// order, without its trailing whitespace.
pub fn brand_string(words: &[u32]) -> (r: Vec<u8>)
    ensures
        r@ == trim_end(words_bytes(words@)),
{
    let mut bytes: Vec<u8> = Vec::new();
    let mut i: usize = 0;
    while i < words.len()
        invariant
            i <= words@.len(),
            bytes@ == words_bytes(words@.take(i as int)),
        decreases words@.len() - i,
    {
        push_le_bytes(&mut bytes, words[i]);
        assert(words@.take(i + 1).drop_last() =~= words@.take(i as int));
        i = i + 1;
    }
    assert(words@.take(i as int) =~= words@);
    let mut r: Vec<u8> = Vec::new();
    push_all(&mut r, trim_end_bytes(bytes.as_slice()));
    r
}

/// What a key does in the free-typing modes.
#[derive(Clone, Copy, PartialEq, Eq, Structural, Debug)]
pub enum EditorKey {
    /// A backslash leaves the mode.
    Exit,
    /// A slash clears the screen.
    ClearScreen,
    /// Any other character is shown.
    Show(char),
    /// The "no character" sentinel does nothing.
    Ignore,
}

pub open spec fn editor_action(c: char) -> EditorKey {
    if c == '\\' {
        EditorKey::Exit
    } else if c == '/' {
        EditorKey::ClearScreen
    } else if c == '\0' {
        EditorKey::Ignore
    } else {
        EditorKey::Show(c)
    }
}

/// Decides what a key does in the free-typing modes.
pub fn editor_key(c: char) -> (k: EditorKey)
    ensures
        k == editor_action(c),
{
    if c == '\\' {
        EditorKey::Exit
    } else if c == '/' {
        EditorKey::ClearScreen
    } else if c == '\0' {
        EditorKey::Ignore
    } else {
        EditorKey::Show(c)
    }
}

/// The characters that the calculator takes into an expression.
pub open spec fn is_expression_char(c: char) -> bool {
    ('0' <= c && c <= '9') || c == '+' || c == '-' || c == '*' || c == '/' || c == '.' || c == ' '
}

pub fn accepts_expression_char(c: char) -> (r: bool)
    ensures
        r == is_expression_char(c),
{
    ('0' <= c && c <= '9') || c == '+' || c == '-' || c == '*' || c == '/' || c == '.' || c == ' '
}

} // verus!
