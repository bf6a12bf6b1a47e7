use h3x::keyboard::{scancode_to_char, Keyboard, NO_CHAR};

#[test]
fn letters_follow_shift() {
    assert_eq!(scancode_to_char(0x1E, false), 'a');
    assert_eq!(scancode_to_char(0x1E, true), 'A');
    assert_eq!(scancode_to_char(0x32, false), 'm');
    assert_eq!(scancode_to_char(0x10, true), 'Q');
}

#[test]
fn digit_row_and_punctuation() {
    assert_eq!(scancode_to_char(0x02, false), '1');
    assert_eq!(scancode_to_char(0x02, true), '!');
    assert_eq!(scancode_to_char(0x0B, true), ')');
    assert_eq!(scancode_to_char(0x0C, true), '_');
    assert_eq!(scancode_to_char(0x28, false), '\'');
    assert_eq!(scancode_to_char(0x28, true), '"');
    assert_eq!(scancode_to_char(0x2B, false), '\\');
    assert_eq!(scancode_to_char(0x35, false), '/');
    assert_eq!(scancode_to_char(0x35, true), '?');
}

#[test]
fn enter_and_space_ignore_shift() {
    assert_eq!(scancode_to_char(0x1C, false), '\n');
    assert_eq!(scancode_to_char(0x1C, true), '\n');
    assert_eq!(scancode_to_char(0x39, true), ' ');
}

#[test]
fn unmapped_scancode_gives_placeholder() {
    assert_eq!(scancode_to_char(0x01, false), '?');
    assert_eq!(scancode_to_char(0x3B, true), '?');
    let mut k = Keyboard::new();
    assert_eq!(k.decode(0x58), '?');
}

#[test]
fn decoding_same_pair_repeats() {
    let mut k = Keyboard::new();
    let first = k.decode(0x1F);
    let second = k.decode(0x1F);
    assert_eq!(first, 's');
    assert_eq!(first, second);
    k.decode(0x36);
    let a = k.decode(0x1F);
    let b = k.decode(0x1F);
    assert_eq!(a, 'S');
    assert_eq!(a, b);
}

#[test]
fn shift_press_and_release() {
    let mut k = Keyboard::new();
    assert!(!k.shift_active());
    assert_eq!(k.decode(0x2A), NO_CHAR);
    assert!(k.shift_active());
    assert_eq!(k.decode(0x1E), 'A');
    assert_eq!(k.decode(0xAA), NO_CHAR);
    assert!(!k.shift_active());
    assert_eq!(k.decode(0x1E), 'a');
    assert_eq!(k.decode(0x36), NO_CHAR);
    assert!(k.shift_active());
    assert_eq!(k.decode(0xB6), NO_CHAR);
    assert!(!k.shift_active());
}

#[test]
fn release_of_other_key_keeps_shift() {
    let mut k = Keyboard::new();
    k.decode(0x2A);
    assert_eq!(k.decode(0x9E), NO_CHAR);
    assert!(k.shift_active());
    assert_eq!(k.decode(0x9D), NO_CHAR);
    assert!(k.shift_active());
    assert_eq!(k.decode(0x1E), 'A');
}
