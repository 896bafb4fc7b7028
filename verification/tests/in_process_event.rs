use atuin::event::{Key, KeyModifiers, MouseButton, MouseEvent, MouseEventKind, Parsed};
use atuin::parser::{parse, parse_cb, parse_csi_u, parse_escape, parse_utf8, Parse};

fn mouse(parse: Parse) -> MouseEvent {
    match parse {
        Parse::Event(Parsed::Mouse(mouse), _) => mouse,
        _ => panic!("expected a mouse event"),
    }
}

fn key(parse: Parse) -> Key {
    match parse {
        Parse::Event(Parsed::Key(key), _) => key,
        _ => panic!("expected a key event"),
    }
}

fn len(parse: Parse) -> usize {
    match parse {
        Parse::Event(_, len) => len,
        Parse::NeedMore => panic!("expected an event"),
    }
}

#[test]
fn parses_sgr_mouse_motion_as_moved() {
    let event = mouse(parse(b"\x1b[<35;10;20M"));
    assert_eq!(event.kind, MouseEventKind::Moved);
    assert_eq!(event.column, 9);
    assert_eq!(event.row, 19);
}

#[test]
fn parses_sgr_scroll_and_release() {
    assert_eq!(mouse(parse(b"\x1b[<64;1;2M")).kind, MouseEventKind::ScrollUp);
    assert_eq!(mouse(parse(b"\x1b[<65;1;2M")).kind, MouseEventKind::ScrollDown);
    assert_eq!(
        mouse(parse(b"\x1b[<0;1;2m")).kind,
        MouseEventKind::Up(MouseButton::Left)
    );
}

#[test]
fn parses_x10_mouse() {
    // cb=0x20 -> left button, cx=0x21, cy=0x22 -> (0, 1).
    let event = mouse(parse(b"\x1b[M\x20\x21\x22"));
    assert_eq!(event.kind, MouseEventKind::Down(MouseButton::Left));
    assert_eq!(event.column, 0);
    assert_eq!(event.row, 1);
}

#[test]
fn unknown_csi_is_ignored_instead_of_esc() {
    // e.g. focus-in; must not cancel the TUI.
    assert_eq!(key(parse(b"\x1b[I")), Key::Null);
}

#[test]
fn incomplete_mouse_report_requests_more_data() {
    assert!(matches!(parse(b"\x1b[<35;10"), Parse::NeedMore));
}

#[test]
fn parses_csi_u_encoded_keys() {
    assert_eq!(key(parse(b"\x1b[97u")), Key::Char('a'));
    assert_eq!(key(parse(b"\x1b[114;5u")), Key::Ctrl('r'));
    assert_eq!(key(parse(b"\x1b[57352u")), Key::Up);
    assert_eq!(key(parse(b"\x1b[13u")), Key::Enter);
    assert_eq!(key(parse(b"\x1b[127u")), Key::Backspace);
}

#[test]
fn csi_u_uses_alternate_key_for_shift() {
    // Kitty "report alternate keys": base 'a', alternate 'A'.
    assert_eq!(key(parse(b"\x1b[97:65;2u")), Key::Char('A'));
}

#[test]
fn parses_shift_tab_as_backtab() {
    assert_eq!(key(parse(b"\x1b[Z")), Key::BackTab);
    assert_eq!(key(parse(b"\x1b[9;2u")), Key::BackTab);
    assert_eq!(key(parse(b"\x1b[9u")), Key::Tab);
}

#[test]
fn single_byte_keys() {
    assert_eq!(key(parse(b"\x08")), Key::Backspace);
    assert_eq!(key(parse(b"\x7f")), Key::Backspace);
    assert_eq!(key(parse(b"\t")), Key::Tab);
    assert_eq!(key(parse(b"\n")), Key::Ctrl('j'));
    assert_eq!(key(parse(b"\r")), Key::Enter);
    assert_eq!(key(parse(b" ")), Key::Char(' '));
    assert_eq!(key(parse(b"~")), Key::Char('~'));
    assert_eq!(key(parse(b"\x01")), Key::Ctrl('a'));
    assert_eq!(key(parse(b"\x1a")), Key::Ctrl('z'));
    assert_eq!(key(parse(b"\x00")), Key::Char('\u{fffd}'));
    assert_eq!(key(parse(b"\x1c")), Key::Char('\u{fffd}'));
    assert_eq!(len(parse(b"abc")), 1);
}

#[test]
fn cursor_and_editing_keys() {
    for lead in [b'[', b'O'] {
        assert_eq!(key(parse(&[0x1b, lead, b'A'])), Key::Up);
        assert_eq!(key(parse(&[0x1b, lead, b'B'])), Key::Down);
        assert_eq!(key(parse(&[0x1b, lead, b'C'])), Key::Right);
        assert_eq!(key(parse(&[0x1b, lead, b'D'])), Key::Left);
        assert_eq!(key(parse(&[0x1b, lead, b'H'])), Key::Home);
        assert_eq!(key(parse(&[0x1b, lead, b'F'])), Key::End);
    }
    assert_eq!(key(parse(b"\x1b[1~")), Key::Home);
    assert_eq!(key(parse(b"\x1b[7~")), Key::Home);
    assert_eq!(key(parse(b"\x1b[3;5~")), Key::Delete);
    assert_eq!(key(parse(b"\x1b[4~")), Key::End);
    assert_eq!(key(parse(b"\x1b[8~")), Key::End);
    assert_eq!(key(parse(b"\x1b[5~")), Key::PageUp);
    assert_eq!(key(parse(b"\x1b[6~")), Key::PageDown);
    assert_eq!(key(parse(b"\x1b[2~")), Key::Null);
    assert_eq!(key(parse(b"\x1b[x~")), Key::Null);
    assert_eq!(key(parse(b"\x1b[~")), Key::Null);
    assert_eq!(key(parse(b"\x1bOM")), Key::Null);
}

#[test]
fn numbers_may_have_a_plus_sign_and_leading_zeros() {
    assert_eq!(key(parse(b"\x1b[+5~")), Key::PageUp);
    assert_eq!(key(parse(b"\x1b[0000000000005~")), Key::PageUp);
    assert_eq!(key(parse(b"\x1b[+~")), Key::Null);
    assert_eq!(key(parse(b"\x1b[++5~")), Key::Null);
    assert_eq!(key(parse(b"\x1b[4294967301~")), Key::Null);
}

#[test]
fn the_escape_key() {
    assert_eq!(parse(b"\x1b"), Parse::NeedMore);
    assert_eq!(parse(b"\x1bx"), Parse::Event(Parsed::Key(Key::Esc), 1));
    assert_eq!(parse(b"\x1b\x1b"), Parse::Event(Parsed::Key(Key::Esc), 1));
    assert_eq!(parse(b"\x1b[27u"), Parse::Event(Parsed::Key(Key::Esc), 5));
    assert_eq!(parse(b"\x1b[O"), Parse::Event(Parsed::Key(Key::Null), 3));
    assert_eq!(parse_escape(b"\x1b["), Parse::NeedMore);
}

#[test]
fn sequences_that_never_end_are_the_escape_key() {
    let mut buf = b"\x1b[".to_vec();
    buf.extend(std::iter::repeat(b'1').take(31));
    assert_eq!(parse(&buf), Parse::NeedMore);
    buf.push(b'1');
    assert_eq!(parse(&buf), Parse::Event(Parsed::Key(Key::Esc), 1));
    buf[33] = b'~';
    assert_eq!(parse(&buf), Parse::Event(Parsed::Key(Key::Null), 34));
}

#[test]
fn sgr_reports_may_stay_incomplete_without_limit() {
    let mut buf = b"\x1b[<".to_vec();
    buf.extend(std::iter::repeat(b'1').take(500));
    assert_eq!(parse(&buf), Parse::NeedMore);
}

#[test]
fn sgr_reports_that_cannot_be_read_are_ignored() {
    assert_eq!(parse(b"\x1b[<0;1M"), Parse::Event(Parsed::Key(Key::Null), 7));
    assert_eq!(key(parse(b"\x1b[<256;1;1M")), Key::Null);
    assert_eq!(key(parse(b"\x1b[<0;65536;1M")), Key::Null);
    assert_eq!(key(parse(b"\x1b[<0;1;xM")), Key::Null);
    assert_eq!(key(parse(b"\x1b[<0;1;1;\xffM")), Key::Null);
    assert_eq!(mouse(parse(b"\x1b[<0;1;1;\xc3\xa9M")).column, 0);
}

#[test]
fn sgr_reports_are_read_back() {
    let event = mouse(parse(b"\x1b[<28;65535;0M"));
    assert_eq!(event.kind, MouseEventKind::Down(MouseButton::Left));
    assert_eq!(event.column, 65534);
    assert_eq!(event.row, 0);
    assert_eq!(event.modifiers, KeyModifiers { shift: true, control: true, alt: true });
    assert_eq!(len(parse(b"\x1b[<28;65535;0Mabc")), 14);
    // The release letter changes presses alone.
    assert_eq!(mouse(parse(b"\x1b[<2;1;1m")).kind, MouseEventKind::Up(MouseButton::Right));
    assert_eq!(mouse(parse(b"\x1b[<32;1;1m")).kind, MouseEventKind::Drag(MouseButton::Left));
    assert_eq!(mouse(parse(b"\x1b[<64;1;1m")).kind, MouseEventKind::ScrollUp);
}

#[test]
fn x10_reports_are_read_back() {
    assert_eq!(parse(b"\x1b[M\x20\x21"), Parse::NeedMore);
    let event = mouse(parse(&[0x1b, b'[', b'M', 32 + 65, 33 + 222, 33 + 100, b'x']));
    assert_eq!(event.kind, MouseEventKind::ScrollDown);
    assert_eq!(event.column, 222);
    assert_eq!(event.row, 100);
    let event = mouse(parse(&[0x1b, b'[', b'M', 0, 0, 32]));
    assert_eq!(event.kind, MouseEventKind::Down(MouseButton::Left));
    assert_eq!((event.column, event.row), (0, 0));
}

#[test]
fn mouse_report_bytes() {
    assert_eq!(parse_cb(0).0, MouseEventKind::Down(MouseButton::Left));
    assert_eq!(parse_cb(1).0, MouseEventKind::Down(MouseButton::Middle));
    assert_eq!(parse_cb(2).0, MouseEventKind::Down(MouseButton::Right));
    assert_eq!(parse_cb(3).0, MouseEventKind::Up(MouseButton::Left));
    assert_eq!(parse_cb(33).0, MouseEventKind::Drag(MouseButton::Middle));
    assert_eq!(parse_cb(34).0, MouseEventKind::Drag(MouseButton::Right));
    assert_eq!(parse_cb(35).0, MouseEventKind::Moved);
    assert_eq!(parse_cb(66).0, MouseEventKind::ScrollLeft);
    assert_eq!(parse_cb(67).0, MouseEventKind::ScrollRight);
    assert_eq!(parse_cb(96).0, MouseEventKind::Moved);
    assert_eq!(parse_cb(128).0, MouseEventKind::Moved);
    assert_eq!(parse_cb(255).0, MouseEventKind::Moved);
    assert_eq!(parse_cb(4).1, KeyModifiers { shift: true, control: false, alt: false });
    assert_eq!(parse_cb(8).1, KeyModifiers { shift: false, control: false, alt: true });
    assert_eq!(parse_cb(16).1, KeyModifiers { shift: false, control: true, alt: false });
}

#[test]
fn csi_u_bodies() {
    assert_eq!(parse_csi_u(b"97;2"), Key::Char('A'));
    assert_eq!(parse_csi_u(b"97;6"), Key::Ctrl('a'));
    assert_eq!(parse_csi_u(b"49;2"), Key::Char('1'));
    assert_eq!(parse_csi_u(b"97:66;5"), Key::Ctrl('B'));
    assert_eq!(parse_csi_u(b"97:;2"), Key::Char('A'));
    assert_eq!(parse_csi_u(b"97;0"), Key::Char('a'));
    assert_eq!(parse_csi_u(b"97;300"), Key::Char('a'));
    assert_eq!(parse_csi_u(b"97;5:1"), Key::Ctrl('a'));
    assert_eq!(parse_csi_u(b"233"), Key::Char('\u{e9}'));
    assert_eq!(parse_csi_u(b"128512"), Key::Char('\u{1f600}'));
    assert_eq!(parse_csi_u(b"55296"), Key::Null);
    assert_eq!(parse_csi_u(b"1114112"), Key::Null);
    assert_eq!(parse_csi_u(b""), Key::Null);
    assert_eq!(parse_csi_u(b"x"), Key::Null);
    assert_eq!(parse_csi_u(b"97;1;\xff"), Key::Null);
    assert_eq!(parse_csi_u(b"97;1;\xc3\xa9"), Key::Char('a'));
    assert_eq!(parse_csi_u(b"8"), Key::Backspace);
    assert_eq!(parse_csi_u(b"57349"), Key::Delete);
    assert_eq!(parse_csi_u(b"57350"), Key::Left);
    assert_eq!(parse_csi_u(b"57351"), Key::Right);
    assert_eq!(parse_csi_u(b"57353"), Key::Down);
    assert_eq!(parse_csi_u(b"57354"), Key::PageUp);
    assert_eq!(parse_csi_u(b"57355"), Key::PageDown);
    assert_eq!(parse_csi_u(b"57356"), Key::Home);
    assert_eq!(parse_csi_u(b"57357"), Key::End);
}

#[test]
fn control_keys_agree_with_csi_u() {
    for b in 1u8..=26 {
        if b == 8 || b == 9 || b == 13 {
            continue;
        }
        let letter = b'a' + (b - 1);
        let report = format!("\x1b[{};5u", letter);
        assert_eq!(key(parse(&[b])), key(parse(report.as_bytes())));
    }
    assert_eq!(key(parse(b"\x1b[10u")), key(parse(b"\n")));
}

#[test]
fn characters_are_read_back() {
    for c in [' ', 'a', '~', '\u{80}', '\u{e9}', '\u{7ff}', '\u{800}', '\u{20ac}', '\u{ffff}',
        '\u{10000}', '\u{1f600}', '\u{10ffff}']
    {
        let mut buf = c.to_string().into_bytes();
        let width = buf.len();
        buf.extend_from_slice(b"later");
        assert_eq!(parse(&buf), Parse::Event(Parsed::Key(Key::Char(c)), width));
    }
}

#[test]
fn bytes_that_are_no_character_are_replaced() {
    assert_eq!(parse(b"\xe2\x82"), Parse::NeedMore);
    assert_eq!(parse(b"\xf0\x9f\x98"), Parse::NeedMore);
    assert_eq!(parse_utf8(b"\xc3"), Parse::NeedMore);
    let replaced = Parse::Event(Parsed::Key(Key::Char('\u{fffd}')), 1);
    assert_eq!(parse(b"\x80a"), replaced);
    assert_eq!(parse(b"\xc3a"), replaced);
    assert_eq!(parse(b"\xc0\x80"), replaced);
    assert_eq!(parse(b"\xed\xa0\x80"), replaced);
    assert_eq!(parse(b"\xff\x80\x80\x80"), replaced);
}

#[test]
fn later_bytes_change_no_event() {
    for event in [&b"\x1b[A"[..], b"\x1bx", b"\x1b[<0;1;1M", b"\x1b[M   ", b"\xc3\xa9", b"\x1b[97u"] {
        let mut more = event.to_vec();
        more.extend_from_slice(b"\x1b[<M~u");
        assert_eq!(parse(&more), parse(event));
    }
}
