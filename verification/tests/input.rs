use atuin::bytes::{field, find_subslice, parse_decimal, starts_with};
use atuin::event::{
    key_event, parsed_event, Event, Key, KeyCode, KeyEvent, KeyModifiers, MouseButton, MouseEvent,
    MouseEventKind, Parsed,
};
use atuin::input::{
    install, poll, poll_timeout, read, reset, wait_fd, DrainStep, Input, PollStep, ReadCall,
    ReadOutcome, ReadStep, Wait, WaitStep, PARTIAL_WAIT, PASTE_TIMEOUT,
};

fn terminal(bytes: &[u8]) -> Input<u32> {
    let mut input = Input::open(7);
    assert_eq!(input.drain(bytes, ReadOutcome::Read(bytes.len())), step_after(bytes.len()));
    input
}

fn step_after(n: usize) -> DrainStep {
    if n == 0 {
        DrainStep::Done
    } else {
        DrainStep::Again
    }
}

fn plain(code: KeyCode) -> Event {
    Event::Key(KeyEvent {
        code,
        modifiers: KeyModifiers { shift: false, control: false, alt: false },
    })
}

fn emitted(step: ReadStep) -> Event {
    match step {
        ReadStep::Emit(event) => event,
        other => panic!("expected an event, got {:?}", other),
    }
}

#[test]
fn finds_the_first_occurrence() {
    assert_eq!(find_subslice(b"abcabc", b"bc"), Some(1));
    assert_eq!(find_subslice(b"aab", b"ab"), Some(1));
    assert_eq!(find_subslice(b"abc", b"abc"), Some(0));
    assert_eq!(find_subslice(b"abc", b""), None);
    assert_eq!(find_subslice(b"ab", b"abc"), None);
    assert_eq!(find_subslice(b"abc", b"x"), None);
}

#[test]
fn splits_into_fields() {
    assert_eq!(field(b"1;22;", b';', 0), Some(&b"1"[..]));
    assert_eq!(field(b"1;22;", b';', 1), Some(&b"22"[..]));
    assert_eq!(field(b"1;22;", b';', 2), Some(&b""[..]));
    assert_eq!(field(b"1;22;", b';', 3), None);
    assert_eq!(field(b"", b';', 0), Some(&b""[..]));
    assert!(starts_with(b"abc", b"ab"));
    assert!(!starts_with(b"a", b"ab"));
}

#[test]
fn reads_decimal_numbers() {
    assert_eq!(parse_decimal(b"0", 255), Some(0));
    assert_eq!(parse_decimal(b"255", 255), Some(255));
    assert_eq!(parse_decimal(b"+007", 255), Some(7));
    assert_eq!(parse_decimal(b"256", 255), None);
    assert_eq!(parse_decimal(b"", 255), None);
    assert_eq!(parse_decimal(b"+", 255), None);
    assert_eq!(parse_decimal(b"-1", 255), None);
    assert_eq!(parse_decimal(b"1 ", 255), None);
    assert_eq!(parse_decimal(b"4294967295", u32::MAX), Some(u32::MAX));
    assert_eq!(parse_decimal(b"99999999999999999999999", u32::MAX), None);
}

#[test]
fn only_control_keys_carry_a_modifier() {
    assert_eq!(parsed_event(Parsed::Key(Key::Char('a'))), plain(KeyCode::Char('a')));
    assert_eq!(parsed_event(Parsed::Key(Key::BackTab)), plain(KeyCode::BackTab));
    assert_eq!(
        key_event(Key::Ctrl('r')),
        KeyEvent {
            code: KeyCode::Char('r'),
            modifiers: KeyModifiers { shift: false, control: true, alt: false },
        }
    );
    assert_ne!(key_event(Key::Ctrl('r')), key_event(Key::Char('r')));
    assert_eq!(parsed_event(Parsed::Paste("x".to_string())), Event::Paste("x".to_string()));
}

#[test]
fn reads_buffered_events_one_by_one() {
    let mut slot = Some(terminal(b"a\x1b[B\xc3\xa9"));
    let mut call = ReadCall::new();
    assert_eq!(emitted(read(&mut slot, &mut call, 0)), plain(KeyCode::Char('a')));
    assert_eq!(emitted(read(&mut slot, &mut call, 0)), plain(KeyCode::Down));
    assert_eq!(emitted(read(&mut slot, &mut call, 0)), plain(KeyCode::Char('\u{e9}')));
    assert_eq!(read(&mut slot, &mut call, 0), ReadStep::Wait(Wait::Empty, 30));
}

#[test]
fn streams_are_read_back() {
    let mut input = terminal(
        b"g\x1b[<65;2;3M\x1bOA\x1b[200~git\x1b[201~\t\x1b[M !!\x1b[57349u\xe2\x82\xac\x1b[I\x12",
    );
    let mut call = ReadCall::new();
    let mut events = Vec::new();
    loop {
        match input.read_event(&mut call, 0) {
            ReadStep::Emit(event) => events.push(event),
            other => {
                assert_eq!(other, ReadStep::Wait(Wait::Empty, 30));
                break;
            }
        }
    }
    let none = KeyModifiers { shift: false, control: false, alt: false };
    assert_eq!(
        events,
        vec![
            plain(KeyCode::Char('g')),
            Event::Mouse(MouseEvent {
                kind: MouseEventKind::ScrollDown,
                column: 1,
                row: 2,
                modifiers: none,
            }),
            plain(KeyCode::Up),
            Event::Paste("git".to_string()),
            plain(KeyCode::Tab),
            Event::Mouse(MouseEvent {
                kind: MouseEventKind::Down(MouseButton::Left),
                column: 0,
                row: 0,
                modifiers: none,
            }),
            plain(KeyCode::Delete),
            plain(KeyCode::Char('\u{20ac}')),
            plain(KeyCode::Null),
            Event::Key(KeyEvent {
                code: KeyCode::Char('r'),
                modifiers: KeyModifiers { shift: false, control: true, alt: false },
            }),
        ]
    );
}

#[test]
fn streams_may_be_cut_into_reads() {
    let sent = b"g\x1b[<65;2;3M\x1bOA\x1b[200~g\xc3\xa9\x1b[201~\t\x1b[M !!\x1b[97;5u\xe2\x82\xac";
    let all = |cuts: &[usize]| {
        let mut input = terminal(b"");
        let mut call = ReadCall::new();
        let mut events = Vec::new();
        let mut from = 0;
        for (turn, to) in cuts.iter().chain([&sent.len()]).enumerate() {
            let read = &sent[from..*to];
            input.drain(read, ReadOutcome::Read(read.len()));
            from = *to;
            loop {
                let now = turn as u64 * (PASTE_TIMEOUT - 1);
                match input.read_event(&mut call, now) {
                    ReadStep::Emit(event) => {
                        events.push(event);
                        call = ReadCall::new();
                    }
                    ReadStep::Wait(wait, _) => {
                        assert_eq!(input.waited(&mut call, wait, true, now), None);
                        break;
                    }
                    ReadStep::Open => panic!("the terminal is open"),
                }
            }
        }
        assert!(input.buf.is_empty());
        events
    };
    let whole = all(&[]);
    assert_eq!(whole.len(), 8);
    assert_eq!(whole[3], Event::Paste("g\u{e9}".to_string()));
    for first in 0..sent.len() {
        for second in first..sent.len() {
            assert_eq!(all(&[first, second]), whole);
        }
    }
}

#[test]
fn truncated_pastes_are_handed_on() {
    let mut input = terminal(b"\x1b[200~\x1b[A\x1b[201");
    let mut call = ReadCall::new();
    call.paste_deadline = Some(5);
    assert_eq!(
        emitted(input.read_event(&mut call, 5)),
        Event::Paste("\u{1b}[A\u{1b}[201".to_string())
    );
    assert!(input.buf.is_empty());
}

#[test]
fn an_idle_terminal_gives_a_null_key() {
    let mut input = terminal(b"");
    let mut call = ReadCall::new();
    assert_eq!(input.waited(&mut call, Wait::Empty, true, 0), None);
    assert_eq!(input.waited(&mut call, Wait::Empty, false, 0), Some(plain(KeyCode::Null)));
}

#[test]
fn incomplete_events_are_given_up() {
    let mut input = terminal(b"\x1b[1");
    let mut call = ReadCall::new();
    assert_eq!(input.read_event(&mut call, 0), ReadStep::Wait(Wait::Partial, 30));
    assert_eq!(input.waited(&mut call, Wait::Partial, true, 0), None);
    assert_eq!(input.buf, b"\x1b[1");
    assert_eq!(input.waited(&mut call, Wait::Partial, false, 0), Some(plain(KeyCode::Esc)));
    assert_eq!(input.buf, b"[1");

    let mut input = terminal(b"\xe2\x82");
    assert_eq!(input.read_event(&mut call, 0), ReadStep::Wait(Wait::Partial, 30));
    assert_eq!(
        input.waited(&mut call, Wait::Partial, false, 0),
        Some(plain(KeyCode::Char('\u{fffd}')))
    );
    assert_eq!(input.buf, b"\x82");
}

#[test]
fn pastes_are_read_back() {
    let mut input = terminal(b"\x1b[200~ls \x1b[A\xc3\xa9\r\x1b[201~x");
    let mut call = ReadCall::new();
    assert_eq!(
        emitted(input.read_event(&mut call, 0)),
        Event::Paste("ls \u{1b}[A\u{e9}\r".to_string())
    );
    assert_eq!(input.buf, b"x");
    assert_eq!(input.file, 7);

    let mut input = terminal(b"\x1b[200~\x1b[201~");
    assert_eq!(emitted(input.read_event(&mut call, 0)), Event::Paste(String::new()));
    assert!(input.buf.is_empty());
}

#[test]
fn pastes_that_are_no_text_get_replacement_characters() {
    let mut input = terminal(b"\x1b[200~a\xffb\x1b[201~");
    let mut call = ReadCall::new();
    assert_eq!(
        emitted(input.read_event(&mut call, 0)),
        Event::Paste("a\u{fffd}b".to_string())
    );
}

#[test]
fn pastes_may_span_reads_and_are_cut_after_the_deadline() {
    let mut input = terminal(b"\x1b[200~ab");
    let mut call = ReadCall::new();
    assert_eq!(input.read_event(&mut call, 100), ReadStep::Wait(Wait::Paste, 30));
    assert_eq!(call.paste_deadline, Some(100 + PASTE_TIMEOUT));
    // Nothing came: the deadline stays.
    assert_eq!(input.waited(&mut call, Wait::Paste, false, 100 + PARTIAL_WAIT), None);
    assert_eq!(call.paste_deadline, Some(100 + PASTE_TIMEOUT));
    // Something came: the deadline moves.
    assert_eq!(input.waited(&mut call, Wait::Paste, true, 200), None);
    assert_eq!(call.paste_deadline, Some(200 + PASTE_TIMEOUT));
    input.drain(b"c", ReadOutcome::Read(1));
    assert_eq!(input.read_event(&mut call, 199 + PASTE_TIMEOUT), ReadStep::Wait(Wait::Paste, 30));
    assert_eq!(
        emitted(input.read_event(&mut call, 200 + PASTE_TIMEOUT)),
        Event::Paste("abc".to_string())
    );
    assert!(input.buf.is_empty());
}

#[test]
fn a_key_ends_a_paste_deadline() {
    let mut input = terminal(b"a");
    let mut call = ReadCall::new();
    call.paste_deadline = Some(5);
    assert_eq!(emitted(input.read_event(&mut call, 0)), plain(KeyCode::Char('a')));
    assert_eq!(call.paste_deadline, None);
}

#[test]
fn reads_may_be_cut_anywhere() {
    let whole = b"\x1b[<0;3;4Mx";
    for cut in 0..whole.len() {
        let mut input = terminal(&whole[..cut]);
        let mut call = ReadCall::new();
        if cut < 9 {
            assert!(matches!(input.read_event(&mut call, 0), ReadStep::Wait(_, 30)));
        }
        let rest = &whole[cut..];
        input.drain(rest, ReadOutcome::Read(rest.len()));
        assert!(matches!(input.read_event(&mut call, 0), ReadStep::Emit(Event::Mouse(_))));
        assert_eq!(input.buf, b"x");
    }
}

#[test]
fn input_after_a_paste_stays() {
    let mut early = terminal(b"\x1b[200~ab\x1b[201~");
    let mut late = terminal(b"\x1b[200~ab\x1b[201~\x1b[201~z");
    let mut call = ReadCall::new();
    assert_eq!(early.read_event(&mut call, 0), late.read_event(&mut call, 0));
    assert!(early.buf.is_empty());
    assert_eq!(late.buf, b"\x1b[201~z");
}

#[test]
fn drains_until_there_is_no_more() {
    let mut input = terminal(b"");
    assert_eq!(input.drain(b"abcd", ReadOutcome::Read(2)), DrainStep::Again);
    assert_eq!(input.drain(b"wxyz", ReadOutcome::Interrupted), DrainStep::Again);
    assert_eq!(input.drain(b"wxyz", ReadOutcome::WouldBlock), DrainStep::Done);
    assert_eq!(input.drain(b"wxyz", ReadOutcome::Failed), DrainStep::Fail);
    assert_eq!(input.drain(b"wxyz", ReadOutcome::Read(0)), DrainStep::Done);
    assert_eq!(input.drain(b"wxyz", ReadOutcome::Read(4)), DrainStep::Again);
    assert_eq!(input.buf, b"abwxyz");
}

#[test]
fn polls_the_terminal_only_without_buffered_input() {
    let mut slot: Option<Input<u32>> = None;
    assert_eq!(poll(&slot, 10), PollStep::Open);
    install(&mut slot, 1);
    assert_eq!(poll(&slot, 10), PollStep::Wait(10));
    assert_eq!(poll(&slot, u128::MAX), PollStep::Wait(i32::MAX));
    slot.as_mut().unwrap().drain(b"a", ReadOutcome::Read(1));
    assert_eq!(poll(&slot, 10), PollStep::Ready);
    assert_eq!(poll_timeout(2147483647), i32::MAX);
    assert_eq!(poll_timeout(2147483648), i32::MAX);
    assert_eq!(poll_timeout(0), 0);
}

#[test]
fn the_terminal_is_opened_once_and_dropped_by_reset() {
    let mut slot: Option<Input<u32>> = None;
    let mut call = ReadCall::new();
    assert_eq!(read(&mut slot, &mut call, 0), ReadStep::Open);
    install(&mut slot, 1);
    slot.as_mut().unwrap().drain(b"a", ReadOutcome::Read(1));
    install(&mut slot, 2);
    assert_eq!(slot.as_ref().unwrap().file, 1);
    assert_eq!(slot.as_ref().unwrap().buf, b"a");
    reset(&mut slot);
    assert!(slot.is_none());
    install(&mut slot, 3);
    assert!(slot.unwrap().buf.is_empty());
}

#[test]
fn waiting_on_the_terminal() {
    assert_eq!(wait_fd(1, 1, 1, false), WaitStep::Done(true));
    assert_eq!(wait_fd(1, 5, 1, false), WaitStep::Done(true));
    assert_eq!(wait_fd(1, 4, 1, false), WaitStep::Done(false));
    assert_eq!(wait_fd(0, 1, 1, true), WaitStep::Done(false));
    assert_eq!(wait_fd(-1, 1, 1, true), WaitStep::Again);
    assert_eq!(wait_fd(-1, 1, 1, false), WaitStep::Fail);
}
