use h3x::kernel::Response;
use h3x::shell::{Buffer, Shell, Step, BUFFER_SIZE};

fn type_line(sh: &mut Shell, text: &str) -> Step {
    let mut last = Step::Ignored;
    for c in text.chars() {
        last = sh.on_char(c);
    }
    last
}

#[test]
fn buffer_keeps_last_slot_free() {
    let mut b = Buffer::new();
    for i in 0..100u32 {
        b.add_char((i % 26) as u8 + b'a');
    }
    assert_eq!(b.index(), BUFFER_SIZE - 1);
    assert_eq!(b.get_input().len(), BUFFER_SIZE - 1);
    b.reset();
    assert_eq!(b.index(), 0);
    assert_eq!(b.get_input(), b"");
}

#[test]
fn typed_lines_reach_the_store() {
    let mut sh = Shell::new();
    assert_eq!(sh.on_char('t'), Step::Echo('t'));
    assert_eq!(sh.on_char('\0'), Step::Ignored);
    type_line(&mut sh, "ouch apple\n");
    type_line(&mut sh, "touch banana\n");
    let step = type_line(&mut sh, "ls\n");
    assert_eq!(step, Step::Executed(Response::Show(b"apple banana ".to_vec())));
    assert_eq!(sh.line.get_input(), b"");
}

#[test]
fn overflowing_line_is_abandoned() {
    let mut sh = Shell::new();
    for _ in 0..77 {
        assert_eq!(sh.on_char('x'), Step::Echo('x'));
    }
    assert_eq!(sh.on_char('y'), Step::Abandoned('y'));
    assert_eq!(sh.line.index(), 0);
    let step = type_line(&mut sh, "echo hi\n");
    assert_eq!(step, Step::Executed(Response::Show(b"hi".to_vec())));
}

#[test]
fn line_end_in_last_slot_is_dispatched() {
    let mut sh = Shell::new();
    let mut line = String::from("echo ");
    while line.len() < 77 {
        line.push('z');
    }
    type_line(&mut sh, &line);
    match sh.on_char('\n') {
        Step::Executed(Response::Show(t)) => assert_eq!(t.len(), 72),
        other => panic!("unexpected {:?}", other),
    }
}

#[test]
fn scancodes_drive_the_shell() {
    let mut sh = Shell::new();
    // l, s, Enter with key releases in between
    assert_eq!(sh.on_scancode(0x26), Step::Echo('l'));
    assert_eq!(sh.on_scancode(0xA6), Step::Ignored);
    assert_eq!(sh.on_scancode(0x1F), Step::Echo('s'));
    assert_eq!(sh.on_scancode(0x1C), Step::Executed(Response::Show(Vec::new())));
    assert_eq!(sh.on_scancode(0x2A), Step::Ignored);
    assert_eq!(sh.on_scancode(0x1E), Step::Echo('A'));
    assert!(sh.keyboard.shift_active());
}
