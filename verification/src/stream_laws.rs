//! What is typed, clicked and pasted one after another is read one after another.

use vstd::prelude::*;
use vstd::utf8::*;

use crate::bytes;
use crate::event::{self, EventView, Key, MouseEvent, ParsedView};
use crate::input;
use crate::input::{Look, ReadStepView};
use crate::input_laws;
use crate::parser;
use crate::parser::{ParseView, MAX_SEQ};
use crate::parser_laws;
use crate::reports;

verus! {

/// The key that one byte of ASCII stands for.
pub open spec fn byte_key(b: u8) -> Key {
    if b == 0x08 || b == 0x7f {
        Key::Backspace
    } else if b == 0x09 {
        Key::Tab
    } else if b == 0x0d {
        Key::Enter
    } else if 0x01 <= b <= 0x1a {
        Key::Ctrl((b + 0x60) as char)
    } else if 0x20 <= b <= 0x7e {
        Key::Char(b as char)
    } else {
        Key::Char('\u{fffd}')
    }
}

/// What a terminal reports.
pub enum Report {
    /// A character, in UTF-8.
    Character(char),
    /// A key that one byte stands for, such as tab, or a letter held with the control key.
    Byte(u8),
    /// A control sequence after `ESC [` or `ESC O`.
    Sequence { intro: u8, body: Seq<u8>, last: u8 },
    /// The mouse, in the SGR form, with column and row counted from one.
    Sgr { cb: u8, x: u16, y: u16, release: bool },
    /// The mouse, in the X10 form, with column and row counted from zero.
    X10 { cb: u8, column: u8, row: u8 },
    /// A bracketed paste.
    Paste(Seq<char>),
}

impl Report {
    /// A report that can be told from others by its bytes: a character is printable, a key of one
    /// byte is ASCII and does not begin a sequence, a control sequence is no mouse report and
    /// does not begin a paste, and a paste does not hold the bytes that end it.
    pub open spec fn well_formed(self) -> bool {
        match self {
            Report::Character(c) => ' ' <= c <= '~' || c as u32 >= 0x80,
            Report::Byte(b) => b < 0x80 && b != 0x1b,
            Report::Sequence { intro, body, last } => {
                &&& intro == 0x5b || intro == 0x4f
                &&& body.len() < MAX_SEQ
                &&& forall|i: int| 0 <= i < body.len() ==> !(0x40 <= #[trigger] body[i] <= 0x7e)
                &&& 0x40 <= last <= 0x7e
                &&& intro == 0x5b ==> (body + seq![last])[0] != 0x4d && (body + seq![last])[0]
                    != 0x3c
                &&& seq![0x1b, intro] + body + seq![last] != input::paste_start()
            },
            Report::Sgr { .. } => true,
            Report::X10 { cb, column, row } => cb <= 223 && column <= 222 && row <= 222,
            Report::Paste(text) => forall|at: int|
                !bytes::occurs_at(encode_utf8(text), input::paste_end(), at),
        }
    }

    /// The bytes that the terminal sends.
    pub open spec fn written(self) -> Seq<u8> {
        match self {
            Report::Character(c) => encode_utf8(seq![c]),
            Report::Byte(b) => seq![b],
            Report::Sequence { intro, body, last } => seq![0x1b, intro] + body + seq![last],
            Report::Sgr { cb, x, y, release } => reports::sgr_bytes(cb, x, y, release),
            Report::X10 { cb, column, row } => seq![
                0x1bu8,
                0x5b,
                0x4d,
                (cb + 32) as u8,
                (column + 33) as u8,
                (row + 33) as u8,
            ],
            Report::Paste(text) => input::paste_start() + encode_utf8(text) + input::paste_end(),
        }
    }

    /// The event that it is.
    pub open spec fn event(self) -> EventView {
        match self {
            Report::Character(c) => EventView::Key(event::key_event_of(Key::Char(c))),
            Report::Byte(b) => EventView::Key(event::key_event_of(byte_key(b))),
            Report::Sequence { intro, body, last } => EventView::Key(
                event::key_event_of(parser::csi_key(body, last)),
            ),
            Report::Sgr { cb, x, y, release } => EventView::Mouse(
                parser::mouse_at(
                    if release {
                        parser::released(parser::cb_kind(cb))
                    } else {
                        parser::cb_kind(cb)
                    },
                    parser::cb_modifiers(cb),
                    x as int,
                    y as int,
                ),
            ),
            Report::X10 { cb, column, row } => EventView::Mouse(
                MouseEvent {
                    kind: parser::cb_kind(cb),
                    column: column as u16,
                    row: row as u16,
                    modifiers: parser::cb_modifiers(cb),
                },
            ),
            Report::Paste(text) => EventView::Paste(text),
        }
    }
}

/// The bytes of reports sent one after another.
pub open spec fn stream(sent: Seq<Report>) -> Seq<u8>
    decreases sent.len(),
{
    if sent.len() == 0 {
        Seq::empty()
    } else {
        sent[0].written() + stream(sent.drop_first())
    }
}

/// The events that calls which read one each hand on, until there is nothing more to hand on.
pub open spec fn events(buf: Seq<u8>, now: u64) -> Seq<EventView>
    decreases buf.len(),
{
    let seen = input::look(buf, None, now);
    match seen.step {
        ReadStepView::Emit(e) => if seen.buf.len() < buf.len() {
            seq![e] + events(seen.buf, now)
        } else {
            Seq::empty()
        },
        _ => Seq::empty(),
    }
}

proof fn lemma_look_at_event(buf: Seq<u8>, parsed: ParsedView, len: nat, deadline: Option<u64>, now: u64)
    requires
        buf.len() > 0,
        !input::in_paste(buf),
        parser::parse_of(buf) == ParseView::Event(parsed, len),
    ensures
        input::look(buf, deadline, now) == (Look {
            step: ReadStepView::Emit(event::event_of(parsed)),
            buf: buf.skip(len as int),
            deadline: None,
        }),
{
}

proof fn lemma_paste_bytes(buf: Seq<u8>, i: int)
    requires
        input::in_paste(buf),
        0 <= i < 6,
    ensures
        buf.len() >= 6,
        buf[i] == input::paste_start()[i],
{
    assert(buf.subrange(0, 6)[i] == buf[i]);
}

/// Only the start marker of a paste begins a paste.
proof fn lemma_sequence_is_no_paste(intro: u8, body: Seq<u8>, last: u8, later: Seq<u8>)
    requires
        forall|i: int| 0 <= i < body.len() ==> !(0x40 <= #[trigger] body[i] <= 0x7e),
        0x40 <= last <= 0x7e,
        seq![0x1b, intro] + body + seq![last] != input::paste_start(),
    ensures
        !input::in_paste(seq![0x1b, intro] + body + seq![last] + later),
{
    let written = seq![0x1b, intro] + body + seq![last];
    let buf = written + later;
    if input::in_paste(buf) {
        assert forall|i: int| 0 <= i < 6 implies #[trigger] buf[i] == input::paste_start()[i] by {
            lemma_paste_bytes(buf, i);
        }
        let n = body.len() as int;
        assert(written[n + 2] == last);
        assert(n <= 3) by {
            if n > 3 {
                assert(buf[5] == body[3]);
            }
        }
        assert(n == 3) by {
            if n < 3 {
                assert(buf[n + 2] == last);
            }
        }
        assert(written =~= input::paste_start());
    }
}

/// Bytes that are no paste and one event in front of whatever comes after are read as that event.
proof fn lemma_read_back(written: Seq<u8>, parsed: ParsedView, later: Seq<u8>, deadline: Option<u64>, now: u64)
    requires
        written.len() > 0,
        !input::in_paste(written + later),
        parser::parse_of(written + later) == ParseView::Event(parsed, written.len()),
    ensures
        input::look(written + later, deadline, now) == (Look {
            step: ReadStepView::Emit(event::event_of(parsed)),
            buf: later,
            deadline: None,
        }),
{
    lemma_look_at_event(written + later, parsed, written.len(), deadline, now);
    assert((written + later).skip(written.len() as int) =~= later);
}

proof fn lemma_character(c: char, later: Seq<u8>, deadline: Option<u64>, now: u64)
    requires
        Report::Character(c).well_formed(),
    ensures
        input::look(Report::Character(c).written() + later, deadline, now) == (Look {
            step: ReadStepView::Emit(Report::Character(c).event()),
            buf: later,
            deadline: None,
        }),
{
    let written = encode_utf8(seq![c]);
    parser_laws::lemma_encoded_char(c);
    parser_laws::law_characters_are_read_back(c, later);
    assert(!input::in_paste(written + later)) by {
        assert((written + later)[0] == written[0]);
        if input::in_paste(written + later) {
            lemma_paste_bytes(written + later, 0);
        }
    }
    lemma_read_back(written, ParsedView::Key(Key::Char(c)), later, deadline, now);
}

proof fn lemma_parse_byte(buf: Seq<u8>)
    requires
        buf.len() > 0,
        buf[0] < 0x80,
        buf[0] != 0x1b,
    ensures
        parser::parse_of(buf) == parser::a_key(byte_key(buf[0]), 1),
{
}

proof fn lemma_byte(b: u8, later: Seq<u8>, deadline: Option<u64>, now: u64)
    requires
        Report::Byte(b).well_formed(),
    ensures
        input::look(Report::Byte(b).written() + later, deadline, now) == (Look {
            step: ReadStepView::Emit(Report::Byte(b).event()),
            buf: later,
            deadline: None,
        }),
{
    let written = seq![b];
    lemma_parse_byte(written + later);
    assert(!input::in_paste(written + later)) by {
        if input::in_paste(written + later) {
            lemma_paste_bytes(written + later, 0);
        }
    }
    lemma_read_back(written, ParsedView::Key(byte_key(b)), later, deadline, now);
}

proof fn lemma_sequence(intro: u8, body: Seq<u8>, last: u8, later: Seq<u8>, deadline: Option<u64>, now: u64)
    requires
        (Report::Sequence { intro, body, last }).well_formed(),
    ensures
        input::look((Report::Sequence { intro, body, last }).written() + later, deadline, now) == (Look {
            step: ReadStepView::Emit((Report::Sequence { intro, body, last }).event()),
            buf: later,
            deadline: None,
        }),
{
    let written = seq![0x1b, intro] + body + seq![last];
    lemma_sequence_is_no_paste(intro, body, last, later);
    parser_laws::law_control_sequences_are_read(intro, body, last, later);
    lemma_read_back(written, ParsedView::Key(parser::csi_key(body, last)), later, deadline, now);
}

/// A mouse report is no paste.
proof fn lemma_mouse_is_no_paste(buf: Seq<u8>)
    requires
        buf.len() > 2,
        buf[2] != 0x32,
    ensures
        !input::in_paste(buf),
{
    if input::in_paste(buf) {
        lemma_paste_bytes(buf, 2);
    }
}

proof fn lemma_sgr(cb: u8, x: u16, y: u16, release: bool, later: Seq<u8>, deadline: Option<u64>, now: u64)
    ensures
        input::look((Report::Sgr { cb, x, y, release }).written() + later, deadline, now) == (Look {
            step: ReadStepView::Emit((Report::Sgr { cb, x, y, release }).event()),
            buf: later,
            deadline: None,
        }),
{
    let written = reports::sgr_bytes(cb, x, y, release);
    reports::law_sgr_mouse_reports_are_read_back(cb, x, y, release, later);
    assert((written + later)[2] == 0x3c);
    lemma_mouse_is_no_paste(written + later);
    lemma_read_back(written, parser::parse_of(written + later)->Event_0, later, deadline, now);
}

proof fn lemma_x10(cb: u8, column: u8, row: u8, later: Seq<u8>, deadline: Option<u64>, now: u64)
    requires
        (Report::X10 { cb, column, row }).well_formed(),
    ensures
        input::look((Report::X10 { cb, column, row }).written() + later, deadline, now) == (Look {
            step: ReadStepView::Emit((Report::X10 { cb, column, row }).event()),
            buf: later,
            deadline: None,
        }),
{
    let written = (Report::X10 { cb, column, row }).written();
    reports::law_x10_mouse_reports_are_read_back(cb, column, row, later);
    assert((written + later)[2] == 0x4d);
    lemma_mouse_is_no_paste(written + later);
    lemma_read_back(written, parser::parse_of(written + later)->Event_0, later, deadline, now);
}

/// Every report is read back as its event, at whatever time, and what comes after it stays.
pub proof fn law_reports_are_read_back(report: Report, later: Seq<u8>, deadline: Option<u64>, now: u64)
    requires
        report.well_formed(),
    ensures
        ({
            let seen = input::look(report.written() + later, deadline, now);
            &&& seen.step == ReadStepView::Emit(report.event())
            &&& seen.buf == later
        }),
{
    match report {
        Report::Character(c) => lemma_character(c, later, deadline, now),
        Report::Byte(b) => lemma_byte(b, later, deadline, now),
        Report::Sequence { intro, body, last } => lemma_sequence(intro, body, last, later, deadline, now),
        Report::Sgr { cb, x, y, release } => lemma_sgr(cb, x, y, release, later, deadline, now),
        Report::X10 { cb, column, row } => lemma_x10(cb, column, row, later, deadline, now),
        Report::Paste(text) => {
            input_laws::law_pasted_text_arrives_unchanged(text, later, deadline, now);
        },
    }
}

proof fn lemma_next_event(buf: Seq<u8>, event: EventView, rest: Seq<u8>, now: u64)
    requires
        input::look(buf, None, now).step == ReadStepView::Emit(event),
        input::look(buf, None, now).buf == rest,
    ensures
        events(buf, now) == seq![event] + events(rest, now),
{
    input_laws::law_looks_make_progress(buf, None, now);
}

/// Reports sent one after another are read as their events, all of them and in their order.
#[verifier::rlimit(40)]
pub proof fn law_streams_are_read_back(sent: Seq<Report>, now: u64)
    requires
        forall|i: int| 0 <= i < sent.len() ==> (#[trigger] sent[i]).well_formed(),
    ensures
        events(stream(sent), now) == sent.map_values(|report: Report| report.event()),
    decreases sent.len(),
{
    let read = sent.map_values(|report: Report| report.event());
    if sent.len() == 0 {
        assert(events(stream(sent), now) =~= read);
    } else {
        let rest = sent.drop_first();
        assert forall|i: int| 0 <= i < rest.len() implies (#[trigger] rest[i]).well_formed() by {
            assert(rest[i] == sent[i + 1]);
        }
        law_streams_are_read_back(rest, now);
        law_reports_are_read_back(sent[0], stream(rest), None, now);
        lemma_next_event(stream(sent), sent[0].event(), stream(rest), now);
        assert(read =~= seq![sent[0].event()] + rest.map_values(|report: Report| report.event()));
    }
}

} // verus!
