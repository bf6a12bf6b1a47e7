use vstd::prelude::*;

verus! {

/// Scancode of the left shift key when pressed.
pub const LEFT_SHIFT: u8 = 0x2A;

/// Scancode of the right shift key when pressed.
pub const RIGHT_SHIFT: u8 = 0x36;

/// Bit that marks a scancode as the release of a key.
pub const RELEASE_BIT: u8 = 0x80;

/// Mask that extracts the key from a release scancode.
pub const KEY_MASK: u8 = 0x7F;

/// The sentinel that stands for "no character".
pub const NO_CHAR: char = '\0';

/// What a scancode without a mapping decodes to.
pub const UNKNOWN_CHAR: char = '?';

pub open spec fn is_shift_code(code: u8) -> bool {
    code == LEFT_SHIFT || code == RIGHT_SHIFT
}

/// A scancode with its high bit set reports that a key was let go.
pub open spec fn is_release(code: u8) -> bool {
    code >= RELEASE_BIT
}

/// The key that a release scancode reports: its low seven bits.
pub open spec fn released_key(code: u8) -> u8 {
    (code % 128) as u8
}

/// The US QWERTY table: the character of a key, unshifted or shifted.
pub open spec fn key_char(code: u8, shift: bool) -> char {
    match code {
        0x02 => if shift { '!' } else { '1' },
        0x03 => if shift { '@' } else { '2' },
        0x04 => if shift { '#' } else { '3' },
        0x05 => if shift { '$' } else { '4' },
        0x06 => if shift { '%' } else { '5' },
        0x07 => if shift { '^' } else { '6' },
        0x08 => if shift { '&' } else { '7' },
        0x09 => if shift { '*' } else { '8' },
        0x0A => if shift { '(' } else { '9' },
        0x0B => if shift { ')' } else { '0' },
        0x0C => if shift { '_' } else { '-' },
        0x0D => if shift { '+' } else { '=' },
        0x10 => if shift { 'Q' } else { 'q' },
        0x11 => if shift { 'W' } else { 'w' },
        0x12 => if shift { 'E' } else { 'e' },
        0x13 => if shift { 'R' } else { 'r' },
        0x14 => if shift { 'T' } else { 't' },
        0x15 => if shift { 'Y' } else { 'y' },
        0x16 => if shift { 'U' } else { 'u' },
        0x17 => if shift { 'I' } else { 'i' },
        0x18 => if shift { 'O' } else { 'o' },
        0x19 => if shift { 'P' } else { 'p' },
        0x1A => if shift { '{' } else { '[' },
        0x1B => if shift { '}' } else { ']' },
        0x1C => '\n',
        0x1E => if shift { 'A' } else { 'a' },
        0x1F => if shift { 'S' } else { 's' },
        0x20 => if shift { 'D' } else { 'd' },
        0x21 => if shift { 'F' } else { 'f' },
        0x22 => if shift { 'G' } else { 'g' },
        0x23 => if shift { 'H' } else { 'h' },
        0x24 => if shift { 'J' } else { 'j' },
        0x25 => if shift { 'K' } else { 'k' },
        0x26 => if shift { 'L' } else { 'l' },
        0x27 => if shift { ':' } else { ';' },
        0x28 => if shift { '"' } else { '\'' },
        0x29 => if shift { '~' } else { '`' },
        0x2B => if shift { '|' } else { '\\' },
        0x2C => if shift { 'Z' } else { 'z' },
        0x2D => if shift { 'X' } else { 'x' },
        0x2E => if shift { 'C' } else { 'c' },
        0x2F => if shift { 'V' } else { 'v' },
        0x30 => if shift { 'B' } else { 'b' },
        0x31 => if shift { 'N' } else { 'n' },
        0x32 => if shift { 'M' } else { 'm' },
        0x33 => if shift { '<' } else { ',' },
        0x34 => if shift { '>' } else { '.' },
        0x35 => if shift { '?' } else { '/' },
        0x39 => ' ',
        _ => UNKNOWN_CHAR,
    }
}

/// The shift state after one scancode.
pub open spec fn next_shift(shift: bool, code: u8) -> bool {
    if is_release(code) {
        if is_shift_code(released_key(code)) {
            false
        } else {
            shift
        }
    } else if is_shift_code(code) {
        true
    } else {
        shift
    }
}

/// The character that one scancode yields in a given shift state.
pub open spec fn decoded_char(shift: bool, code: u8) -> char {
    if is_release(code) || is_shift_code(code) {
        NO_CHAR
    } else {
        key_char(code, shift)
    }
}

/// Looks up a key press in the table.
pub fn scancode_to_char(scancode: u8, shift: bool) -> (c: char)
    ensures
        c == key_char(scancode, shift),
{
    match scancode {
        0x02 => if shift { '!' } else { '1' },
        0x03 => if shift { '@' } else { '2' },
        0x04 => if shift { '#' } else { '3' },
        0x05 => if shift { '$' } else { '4' },
        0x06 => if shift { '%' } else { '5' },
        0x07 => if shift { '^' } else { '6' },
        0x08 => if shift { '&' } else { '7' },
        0x09 => if shift { '*' } else { '8' },
        0x0A => if shift { '(' } else { '9' },
        0x0B => if shift { ')' } else { '0' },
        0x0C => if shift { '_' } else { '-' },
        0x0D => if shift { '+' } else { '=' },
        0x10 => if shift { 'Q' } else { 'q' },
        0x11 => if shift { 'W' } else { 'w' },
        0x12 => if shift { 'E' } else { 'e' },
        0x13 => if shift { 'R' } else { 'r' },
        0x14 => if shift { 'T' } else { 't' },
        0x15 => if shift { 'Y' } else { 'y' },
        0x16 => if shift { 'U' } else { 'u' },
        0x17 => if shift { 'I' } else { 'i' },
        0x18 => if shift { 'O' } else { 'o' },
        0x19 => if shift { 'P' } else { 'p' },
        0x1A => if shift { '{' } else { '[' },
        0x1B => if shift { '}' } else { ']' },
        0x1C => '\n',
        0x1E => if shift { 'A' } else { 'a' },
        0x1F => if shift { 'S' } else { 's' },
        0x20 => if shift { 'D' } else { 'd' },
        0x21 => if shift { 'F' } else { 'f' },
        0x22 => if shift { 'G' } else { 'g' },
        0x23 => if shift { 'H' } else { 'h' },
        0x24 => if shift { 'J' } else { 'j' },
        0x25 => if shift { 'K' } else { 'k' },
        0x26 => if shift { 'L' } else { 'l' },
        0x27 => if shift { ':' } else { ';' },
        0x28 => if shift { '"' } else { '\'' },
        0x29 => if shift { '~' } else { '`' },
        0x2B => if shift { '|' } else { '\\' },
        0x2C => if shift { 'Z' } else { 'z' },
        0x2D => if shift { 'X' } else { 'x' },
        0x2E => if shift { 'C' } else { 'c' },
        0x2F => if shift { 'V' } else { 'v' },
        0x30 => if shift { 'B' } else { 'b' },
        0x31 => if shift { 'N' } else { 'n' },
        0x32 => if shift { 'M' } else { 'm' },
        0x33 => if shift { '<' } else { ',' },
        0x34 => if shift { '>' } else { '.' },
        0x35 => if shift { '?' } else { '/' },
        0x39 => ' ',
        _ => UNKNOWN_CHAR,
    }
}

/// The decoder's state: whether a shift key is held down.
#[derive(Clone, Copy, PartialEq, Eq, Structural, Debug)]
pub struct Keyboard {
    pub shift_pressed: bool,
}

impl Keyboard {
    pub fn new() -> (k: Keyboard)
        ensures
            !k.shift_pressed,
    {
        Keyboard { shift_pressed: false }
    }

    pub fn shift_active(&self) -> (r: bool)
        ensures
            r == self.shift_pressed,
    {
        self.shift_pressed
    }

    /// Decodes one raw scancode, tracking the shift keys. Releases and shift presses
    /// yield `NO_CHAR`.
    pub fn decode(&mut self, scancode: u8) -> (c: char)
        ensures
            c == decoded_char(old(self).shift_pressed, scancode),
            final(self).shift_pressed == next_shift(old(self).shift_pressed, scancode),
    {
        assert(scancode & 0x80u8 != 0u8 <==> scancode >= 0x80u8) by (bit_vector);
        assert(scancode & 0x7Fu8 == scancode % 128u8) by (bit_vector);
        if scancode & RELEASE_BIT != 0 {
            let key_released = scancode & KEY_MASK;
            if key_released == LEFT_SHIFT || key_released == RIGHT_SHIFT {
                self.shift_pressed = false;
            }
            return NO_CHAR;
        }
        if scancode == LEFT_SHIFT || scancode == RIGHT_SHIFT {
            self.shift_pressed = true;
            return NO_CHAR;
        }
        scancode_to_char(scancode, self.shift_pressed)
    }
}

/// Decoding is a function of the scancode and the shift state alone: two decoders in
/// the same state give the same character and reach the same state. A scancode that
/// does not concern a shift key leaves the state as it was, so decoding it again
/// gives the same character again.
pub proof fn lemma_decode_is_pure(a: Keyboard, b: Keyboard, code: u8)
    requires
        a.shift_pressed == b.shift_pressed,
    ensures
        decoded_char(a.shift_pressed, code) == decoded_char(b.shift_pressed, code),
        next_shift(a.shift_pressed, code) == next_shift(b.shift_pressed, code),
        !is_shift_code(code) && !is_shift_code(released_key(code)) ==> {
            &&& next_shift(a.shift_pressed, code) == a.shift_pressed
            &&& decoded_char(next_shift(a.shift_pressed, code), code) == decoded_char(
                a.shift_pressed,
                code,
            )
        },
{
}

/// A shift press sets the shift state; the release of a shift key clears it; the
/// release of any other key, and any other press, leaves it as it was. None of
/// these yields a character.
pub proof fn lemma_shift_tracking(shift: bool, code: u8)
    ensures
        is_shift_code(code) ==> next_shift(shift, code) && decoded_char(shift, code) == NO_CHAR,
        is_release(code) ==> decoded_char(shift, code) == NO_CHAR,
        is_release(code) && is_shift_code(released_key(code)) ==> !next_shift(shift, code),
        is_release(code) && !is_shift_code(released_key(code)) ==> next_shift(shift, code)
            == shift,
        !is_release(code) && !is_shift_code(code) ==> next_shift(shift, code) == shift,
{
}

} // verus!
