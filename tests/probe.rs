use h3x::probe::{
    accepts_expression_char, bcd_to_decimal, brand_string, delay, editor_key, vendor_string,
    EditorKey, Time,
};

#[test]
fn bcd_decoding() {
    assert_eq!(bcd_to_decimal(0x00), 0);
    assert_eq!(bcd_to_decimal(0x59), 59);
    assert_eq!(bcd_to_decimal(0x23), 23);
    assert_eq!(bcd_to_decimal(0xFF), 165);
}

#[test]
fn time_text_pads_fields() {
    let t = Time::from_bcd(0x30, 0x05, 0x09);
    assert_eq!(t, Time { seconds: 30, minutes: 5, hours: 9 });
    assert_eq!(t.to_text(), b"09:05:30".to_vec());
    let late = Time { seconds: 165, minutes: 59, hours: 23 };
    assert_eq!(late.to_text(), b"23:59:165".to_vec());
}

#[test]
fn vendor_from_registers() {
    assert_eq!(vendor_string(0x756e_6547, 0x4965_6e69, 0x6c65_746e), b"GenuineIntel".to_vec());
}

#[test]
fn brand_trims_trailing_space() {
    let mut text = b"Test CPU @ 1GHz".to_vec();
    text.resize(48, b' ');
    let words: Vec<u32> = text
        .chunks(4)
        .map(|c| u32::from_le_bytes([c[0], c[1], c[2], c[3]]))
        .collect();
    assert_eq!(brand_string(&words), b"Test CPU @ 1GHz".to_vec());
}

#[test]
fn editor_keys() {
    assert_eq!(editor_key('\\'), EditorKey::Exit);
    assert_eq!(editor_key('/'), EditorKey::ClearScreen);
    assert_eq!(editor_key('\0'), EditorKey::Ignore);
    assert_eq!(editor_key('k'), EditorKey::Show('k'));
}

#[test]
fn expression_characters() {
    assert!(accepts_expression_char('7'));
    assert!(accepts_expression_char('/'));
    assert!(accepts_expression_char(' '));
    assert!(!accepts_expression_char('a'));
    assert!(!accepts_expression_char('='));
}

#[test]
fn delay_returns() {
    delay();
}
