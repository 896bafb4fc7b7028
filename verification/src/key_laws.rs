//! Which key the bytes of a terminal stand for, and as which key press it is handed on.

use vstd::prelude::*;
use vstd::utf8::*;

use crate::bytes;
use crate::event::{
    self, Event, EventView, Key, KeyCode, KeyEvent, KeyModifiers, MouseEvent, Parsed, ParsedView,
};
use crate::input;
use crate::input::ReadStepView;
use crate::parser;
use crate::parser::{Parse, ParseView};
use crate::parser_laws;
use crate::reports;
use crate::stream_laws;
use crate::stream_laws::Report;

verus! {

// ---------------------------------------------------------------------------
// Key presses
// ---------------------------------------------------------------------------

/// No modifier key.
pub open spec fn unmodified() -> KeyModifiers {
    KeyModifiers { shift: false, control: false, alt: false }
}

/// A key press without a modifier key.
pub open spec fn press(code: KeyCode) -> EventView {
    EventView::Key(KeyEvent { code, modifiers: unmodified() })
}

/// A key press with the control key held.
pub open spec fn control_press(code: KeyCode) -> EventView {
    EventView::Key(
        KeyEvent { code, modifiers: KeyModifiers { shift: false, control: true, alt: false } },
    )
}

/// Every key is handed on under its own name, without a modifier key; but a character held with the
/// control key is handed on as that character with it.
pub proof fn law_keys_keep_their_names(c: char)
    ensures
        event::event_of(ParsedView::Key(Key::Char(c))) == press(KeyCode::Char(c)),
        event::event_of(ParsedView::Key(Key::Ctrl(c))) == control_press(KeyCode::Char(c)),
        event::event_of(ParsedView::Key(Key::Up)) == press(KeyCode::Up),
        event::event_of(ParsedView::Key(Key::Down)) == press(KeyCode::Down),
        event::event_of(ParsedView::Key(Key::Left)) == press(KeyCode::Left),
        event::event_of(ParsedView::Key(Key::Right)) == press(KeyCode::Right),
        event::event_of(ParsedView::Key(Key::Home)) == press(KeyCode::Home),
        event::event_of(ParsedView::Key(Key::End)) == press(KeyCode::End),
        event::event_of(ParsedView::Key(Key::PageUp)) == press(KeyCode::PageUp),
        event::event_of(ParsedView::Key(Key::PageDown)) == press(KeyCode::PageDown),
        event::event_of(ParsedView::Key(Key::Backspace)) == press(KeyCode::Backspace),
        event::event_of(ParsedView::Key(Key::Delete)) == press(KeyCode::Delete),
        event::event_of(ParsedView::Key(Key::Tab)) == press(KeyCode::Tab),
        event::event_of(ParsedView::Key(Key::BackTab)) == press(KeyCode::BackTab),
        event::event_of(ParsedView::Key(Key::Enter)) == press(KeyCode::Enter),
        event::event_of(ParsedView::Key(Key::Esc)) == press(KeyCode::Esc),
        event::event_of(ParsedView::Key(Key::Null)) == press(KeyCode::Null),
{
}

/// The same of a single key: [`event::key_event_of`] is what is handed on.
pub proof fn law_key_presses_are_handed_on(key: Key)
    ensures
        event::event_of(ParsedView::Key(key)) == EventView::Key(event::key_event_of(key)),
        event::key_event_of(key).modifiers.control <==> key is Ctrl,
        !event::key_event_of(key).modifiers.shift,
        !event::key_event_of(key).modifiers.alt,
{
}

/// A key press with no modifier key holds none.
pub proof fn law_no_modifier_keys()
    ensures
        KeyModifiers::spec_none() == unmodified(),
{
}

/// Mouse reports and pastes are handed on as they are.
pub proof fn law_mouse_reports_and_pastes_are_handed_on(mouse: MouseEvent, text: Seq<char>)
    ensures
        event::event_of(ParsedView::Mouse(mouse)) == EventView::Mouse(mouse),
        event::event_of(ParsedView::Paste(text)) == EventView::Paste(text),
{
}

/// What is said of events and of what was parsed is said of their own fields.
pub proof fn law_event_views(key: Key, press: KeyEvent, mouse: MouseEvent, text: String, len: usize)
    ensures
        Parsed::Key(key)@ == ParsedView::Key(key),
        Parsed::Mouse(mouse)@ == ParsedView::Mouse(mouse),
        Parsed::Paste(text)@ == ParsedView::Paste(text@),
        Event::Key(press)@ == EventView::Key(press),
        Event::Mouse(mouse)@ == EventView::Mouse(mouse),
        Event::Paste(text)@ == EventView::Paste(text@),
        Parse::Event(Parsed::Key(key), len)@ == ParseView::Event(ParsedView::Key(key), len as nat),
        Parse::Event(Parsed::Mouse(mouse), len)@ == ParseView::Event(
            ParsedView::Mouse(mouse),
            len as nat,
        ),
        Parse::NeedMore@ == ParseView::NeedMore,
{
}

// ---------------------------------------------------------------------------
// One byte
// ---------------------------------------------------------------------------

/// A key that takes up `len` bytes.
pub open spec fn read_as(key: Key, len: nat) -> ParseView {
    ParseView::Event(ParsedView::Key(key), len)
}

/// Which key a single byte stands for, whatever comes after it.
pub proof fn law_single_bytes(b: u8, later: Seq<u8>)
    requires
        b < 0x80,
        b != 0x1b,
    ensures
        b == 0x08 || b == 0x7f ==> parser::parse_of(seq![b] + later) == read_as(Key::Backspace, 1),
        b == 0x09 ==> parser::parse_of(seq![b] + later) == read_as(Key::Tab, 1),
        b == 0x0d ==> parser::parse_of(seq![b] + later) == read_as(Key::Enter, 1),
        0x01 <= b <= 0x1a && b != 0x08 && b != 0x09 && b != 0x0d ==> parser::parse_of(
            seq![b] + later,
        ) == read_as(Key::Ctrl((b - 1 + 'a' as u32) as char), 1),
        0x20 <= b <= 0x7e ==> parser::parse_of(seq![b] + later) == read_as(
            Key::Char(b as char),
            1,
        ),
        b == 0 || 0x1c <= b <= 0x1f ==> parser::parse_of(seq![b] + later) == read_as(
            Key::Char('\u{fffd}'),
            1,
        ),
{
    assert((seq![b] + later)[0] == b);
}

/// Which key press is handed on for a single byte, whatever comes after it and whenever it is
/// looked at; what comes after it stays.
pub proof fn law_single_bytes_are_handed_on(
    b: u8,
    later: Seq<u8>,
    deadline: Option<u64>,
    now: u64,
)
    requires
        b < 0x80,
        b != 0x1b,
    ensures
        ({
            let seen = input::look(seq![b] + later, deadline, now);
            &&& seen.buf == later
            &&& b == 0x08 || b == 0x7f ==> seen.step == ReadStepView::Emit(press(KeyCode::Backspace))
            &&& b == 0x09 ==> seen.step == ReadStepView::Emit(press(KeyCode::Tab))
            &&& b == 0x0d ==> seen.step == ReadStepView::Emit(press(KeyCode::Enter))
            &&& 0x01 <= b <= 0x1a && b != 0x08 && b != 0x09 && b != 0x0d ==> seen.step
                == ReadStepView::Emit(control_press(KeyCode::Char((b - 1 + 'a' as u32) as char)))
            &&& 0x20 <= b <= 0x7e ==> seen.step == ReadStepView::Emit(
                press(KeyCode::Char(b as char)),
            )
            &&& b == 0 || 0x1c <= b <= 0x1f ==> seen.step == ReadStepView::Emit(
                press(KeyCode::Char('\u{fffd}')),
            )
        }),
{
    stream_laws::law_reports_are_read_back(Report::Byte(b), later, deadline, now);
}

// ---------------------------------------------------------------------------
// Characters outside ASCII
// ---------------------------------------------------------------------------

/// How many bytes a character begun by `lead` takes up.
pub open spec fn width(lead: u8) -> int {
    if lead < 0xe0 {
        2
    } else if lead < 0xf0 {
        3
    } else {
        4
    }
}

/// A byte outside ASCII is the beginning of a character. With too few bytes after it, more are
/// needed; where they are no character, it alone is replaced.
pub proof fn law_characters_outside_ascii(buf: Seq<u8>)
    requires
        buf.len() > 0,
        buf[0] >= 0x80,
    ensures
        buf.len() < width(buf[0]) <==> parser::parse_of(buf) is NeedMore,
        buf.len() >= width(buf[0]) && !valid_utf8(buf.take(width(buf[0]))) ==> parser::parse_of(
            buf,
        ) == read_as(Key::Char('\u{fffd}'), 1),
{
}

// ---------------------------------------------------------------------------
// Control sequences
// ---------------------------------------------------------------------------

/// The body of a control sequence: fewer than 32 bytes, none of which ends it, and, after
/// `ESC [`, not the beginning of a mouse report.
pub open spec fn is_body(intro: u8, body: Seq<u8>) -> bool {
    &&& intro == 0x5b || intro == 0x4f
    &&& body.len() < 32
    &&& forall|i: int| 0 <= i < body.len() ==> !(0x40 <= #[trigger] body[i] <= 0x7e)
    &&& intro == 0x5b && body.len() > 0 ==> body[0] != 0x3c
}

/// A control sequence, and what comes after it.
pub open spec fn sequence(intro: u8, body: Seq<u8>, last: u8, later: Seq<u8>) -> Seq<u8> {
    seq![0x1b, intro] + body + seq![last] + later
}

proof fn lemma_sequence(intro: u8, body: Seq<u8>, last: u8, later: Seq<u8>)
    requires
        is_body(intro, body),
        0x40 <= last <= 0x7e,
        intro == 0x5b && body.len() == 0 ==> last != 0x4d,
    ensures
        parser::parse_of(sequence(intro, body, last, later)) == read_as(
            parser::csi_key(body, last),
            body.len() + 3,
        ),
{
    if body.len() > 0 {
        assert((body + seq![last])[0] == body[0]);
    } else {
        assert((body + seq![last])[0] == last);
    }
    parser_laws::law_control_sequences_are_read(intro, body, last, later);
}

/// The letter that ends a control sequence alone decides which cursor key it is, whatever the
/// parameters before it; and a letter that is not known makes it a null key, which cancels
/// nothing.
pub proof fn law_cursor_keys(intro: u8, body: Seq<u8>, last: u8, later: Seq<u8>)
    requires
        is_body(intro, body),
        0x40 <= last <= 0x7e,
        intro == 0x5b && body.len() == 0 ==> last != 0x4d,
    ensures
        ({
            let parsed = parser::parse_of(sequence(intro, body, last, later));
            let len = body.len() + 3;
            &&& last == 'A' as u8 ==> parsed == read_as(Key::Up, len)
            &&& last == 'B' as u8 ==> parsed == read_as(Key::Down, len)
            &&& last == 'C' as u8 ==> parsed == read_as(Key::Right, len)
            &&& last == 'D' as u8 ==> parsed == read_as(Key::Left, len)
            &&& last == 'H' as u8 ==> parsed == read_as(Key::Home, len)
            &&& last == 'F' as u8 ==> parsed == read_as(Key::End, len)
            &&& last == 'Z' as u8 ==> parsed == read_as(Key::BackTab, len)
            &&& !(last == 'A' as u8 || last == 'B' as u8 || last == 'C' as u8 || last == 'D' as u8
                || last == 'H' as u8 || last == 'F' as u8 || last == 'Z' as u8 || last == '~' as u8
                || last == 'u' as u8) ==> parsed == read_as(Key::Null, len)
        }),
{
    lemma_sequence(intro, body, last, later);
}

/// The number in front of the first semicolon decides which editing key a sequence that ends in
/// `~` is, whatever comes after the semicolon.
pub proof fn law_editing_keys(intro: u8, body: Seq<u8>, later: Seq<u8>)
    requires
        is_body(intro, body),
    ensures
        ({
            let parsed = parser::parse_of(sequence(intro, body, '~' as u8, later));
            let number = bytes::decimal(bytes::split(body, ';' as u8)[0], 0xffff_ffff);
            let len = body.len() + 3;
            &&& number == Some(1nat) || number == Some(7nat) ==> parsed == read_as(Key::Home, len)
            &&& number == Some(3nat) ==> parsed == read_as(Key::Delete, len)
            &&& number == Some(4nat) || number == Some(8nat) ==> parsed == read_as(Key::End, len)
            &&& number == Some(5nat) ==> parsed == read_as(Key::PageUp, len)
            &&& number == Some(6nat) ==> parsed == read_as(Key::PageDown, len)
            &&& (match number {
                Some(n) => n == 0 || n == 2 || n > 8,
                None => true,
            }) ==> parsed == read_as(Key::Null, len)
        }),
{
    lemma_sequence(intro, body, 0x7e, later);
}

// ---------------------------------------------------------------------------
// The Kitty keyboard protocol
// ---------------------------------------------------------------------------

/// The parts between semicolons.
pub open spec fn parts(body: Seq<u8>) -> Seq<Seq<u8>> {
    bytes::split(body, ';' as u8)
}

/// The number at the front of the body: the code point of the key.
pub open spec fn code_point(body: Seq<u8>) -> Option<nat> {
    bytes::decimal(bytes::split(parts(body)[0], ':' as u8)[0], 0xffff_ffff)
}

/// The number after the first colon in the first part: the code point of the key with shift.
pub open spec fn shifted_code_point(body: Seq<u8>) -> Option<nat> {
    let codes = bytes::split(parts(body)[0], ':' as u8);
    if codes.len() >= 2 {
        bytes::decimal(codes[1], 0xffff_ffff)
    } else {
        None
    }
}

/// The modifier keys held, one bit each: the number at the front of the second part less one.
pub open spec fn held(body: Seq<u8>) -> nat {
    if parts(body).len() >= 2 {
        match bytes::decimal(bytes::split(parts(body)[1], ':' as u8)[0], 255) {
            Some(n) => if n >= 1 {
                (n - 1) as nat
            } else {
                0
            },
            None => 0,
        }
    } else {
        0
    }
}

/// The lowest bit is shift, and the third lowest control.
pub open spec fn shift_held(body: Seq<u8>) -> bool {
    held(body) % 2 == 1
}

pub open spec fn control_held(body: Seq<u8>) -> bool {
    (held(body) / 4) % 2 == 1
}

/// A number is the code point of a character.
pub open spec fn names_a_character(n: nat) -> bool {
    n <= 0xd7ff || 0xe000 <= n <= 0x10ffff
}

/// The code points that stand for keys rather than for characters.
pub open spec fn names_a_key(n: nat) -> bool {
    n == 8 || n == 9 || n == 10 || n == 13 || n == 27 || n == 127 || 57349 <= n <= 57357
}

proof fn lemma_kitty(intro: u8, body: Seq<u8>, later: Seq<u8>)
    requires
        is_body(intro, body),
    ensures
        parser::parse_of(sequence(intro, body, 'u' as u8, later)) == read_as(
            parser::csi_u_of(body),
            body.len() + 3,
        ),
        bytes::split(body, 0x3b).len() >= 1,
        bytes::split(bytes::split(body, 0x3b)[0], 0x3a).len() >= 1,
        parser::csi_u_modifiers(bytes::split(body, 0x3b)) == held(body),
{
    lemma_sequence(intro, body, 0x75, later);
    bytes::lemma_split_nonempty(body, 0x3b);
    bytes::lemma_split_nonempty(bytes::split(body, 0x3b)[0], 0x3a);
}

/// A report without a number at its front, or that is not UTF-8, is a null key.
pub proof fn law_reports_without_a_number(intro: u8, body: Seq<u8>, later: Seq<u8>)
    requires
        is_body(intro, body),
        code_point(body) is None || !valid_utf8(body),
    ensures
        parser::parse_of(sequence(intro, body, 'u' as u8, later)) == read_as(
            Key::Null,
            body.len() + 3,
        ),
{
    lemma_kitty(intro, body, later);
}

/// The code points that stand for keys, whatever else is reported; only tab looks at shift.
pub proof fn law_reported_keys(intro: u8, body: Seq<u8>, later: Seq<u8>, n: nat)
    requires
        is_body(intro, body),
        valid_utf8(body),
        code_point(body) == Some(n),
        names_a_key(n),
    ensures
        ({
            let parsed = parser::parse_of(sequence(intro, body, 'u' as u8, later));
            let len = body.len() + 3;
            &&& n == 8 || n == 127 ==> parsed == read_as(Key::Backspace, len)
            &&& n == 9 && !shift_held(body) ==> parsed == read_as(Key::Tab, len)
            &&& n == 9 && shift_held(body) ==> parsed == read_as(Key::BackTab, len)
            &&& n == 10 ==> parsed == read_as(Key::Ctrl('j'), len)
            &&& n == 13 ==> parsed == read_as(Key::Enter, len)
            &&& n == 27 ==> parsed == read_as(Key::Esc, len)
            &&& n == 57349 ==> parsed == read_as(Key::Delete, len)
            &&& n == 57350 ==> parsed == read_as(Key::Left, len)
            &&& n == 57351 ==> parsed == read_as(Key::Right, len)
            &&& n == 57352 ==> parsed == read_as(Key::Up, len)
            &&& n == 57353 ==> parsed == read_as(Key::Down, len)
            &&& n == 57354 ==> parsed == read_as(Key::PageUp, len)
            &&& n == 57355 ==> parsed == read_as(Key::PageDown, len)
            &&& n == 57356 ==> parsed == read_as(Key::Home, len)
            &&& n == 57357 ==> parsed == read_as(Key::End, len)
        }),
{
    lemma_kitty(intro, body, later);
}

/// Where the character that the key gives with shift is reported, the key is that character, with
/// shift or without; control makes it a control key.
pub proof fn law_reported_shifted_characters(
    intro: u8,
    body: Seq<u8>,
    later: Seq<u8>,
    n: nat,
    a: nat,
)
    requires
        is_body(intro, body),
        valid_utf8(body),
        code_point(body) == Some(n),
        !names_a_key(n),
        shifted_code_point(body) == Some(a),
        names_a_character(a),
    ensures
        parser::parse_of(sequence(intro, body, 'u' as u8, later)) == read_as(
            if control_held(body) {
                Key::Ctrl(a as char)
            } else {
                Key::Char(a as char)
            },
            body.len() + 3,
        ),
{
    lemma_kitty(intro, body, later);
    assert(is_scalar(a as u32));
}

/// Otherwise the key is the character with the code point. Shift without control makes a
/// lower-case ASCII letter the capital 32 code points before it, and changes no other character;
/// control makes it a control key. A number that is no code point is a null key.
pub proof fn law_reported_characters(intro: u8, body: Seq<u8>, later: Seq<u8>, n: nat)
    requires
        is_body(intro, body),
        valid_utf8(body),
        code_point(body) == Some(n),
        !names_a_key(n),
        match shifted_code_point(body) {
            Some(a) => !names_a_character(a),
            None => true,
        },
    ensures
        ({
            let parsed = parser::parse_of(sequence(intro, body, 'u' as u8, later));
            let len = body.len() + 3;
            &&& names_a_character(n) && control_held(body) ==> parsed == read_as(
                Key::Ctrl(n as char),
                len,
            )
            &&& names_a_character(n) && !control_held(body) && !shift_held(body) ==> parsed
                == read_as(Key::Char(n as char), len)
            &&& !control_held(body) && shift_held(body) && 97 <= n <= 122 ==> parsed == read_as(
                Key::Char((n - 32) as char),
                len,
            )
            &&& names_a_character(n) && !control_held(body) && shift_held(body) && !(97 <= n <= 122)
                ==> parsed == read_as(Key::Char(n as char), len)
            &&& !names_a_character(n) ==> parsed == read_as(Key::Null, len)
        }),
{
    lemma_kitty(intro, body, later);
    assert(n <= u32::MAX);
    assert(is_scalar(n as u32) <==> names_a_character(n));
    match shifted_code_point(body) {
        Some(a) => {
            assert(a <= u32::MAX);
            assert(is_scalar(a as u32) <==> names_a_character(a));
        },
        None => {},
    }
}

/// Every lower-case letter reported with shift, in whatever way the terminal writes the modifier
/// field, is its capital; and every other character that names no key is itself.
pub proof fn law_shift_makes_capitals(c: char, mask: u8, later: Seq<u8>)
    requires
        !names_a_key(c as u32 as nat),
        mask >= 1,
        (mask - 1) % 2 == 1,
        ((mask - 1) / 4) % 2 == 0,
    ensures
        ({
            let report = reports::csi_u_bytes(c as u32, None, Some(mask));
            let parsed = parser::parse_of(report + later);
            &&& 'a' <= c <= 'z' ==> parsed == read_as(
                Key::Char((c as u32 - 32) as char),
                report.len(),
            )
            &&& !('a' <= c <= 'z') ==> parsed == read_as(Key::Char(c), report.len())
        }),
{
    reports::law_csi_u_reports_are_read_back(c as u32, None, Some(mask), later);
    char_is_scalar(c);
}

// ---------------------------------------------------------------------------
// The escape key, and what is incomplete
// ---------------------------------------------------------------------------

/// An escape byte is the escape key where the byte after it begins no sequence, and where neither
/// of the 32 bytes after `ESC [` or `ESC O` ends one.
pub proof fn law_the_escape_key(buf: Seq<u8>)
    requires
        buf.len() >= 2,
        buf[0] == 0x1b,
    ensures
        buf[1] != '[' as u8 && buf[1] != 'O' as u8 ==> parser::parse_of(buf) == read_as(
            Key::Esc,
            1,
        ),
        (buf[1] == '[' as u8 && buf.len() > 2 ==> buf[2] != '<' as u8) && (buf[1] == '[' as u8
            || buf[1] == 'O' as u8) && buf.len() >= 34 && (forall|i: int|
            2 <= i < 34 ==> !(0x40 <= #[trigger] buf[i] <= 0x7e)) ==> parser::parse_of(buf)
            == read_as(Key::Esc, 1),
{
    let window = parser::csi_window(buf);
    if buf.len() >= 34 && forall|i: int| 2 <= i < 34 ==> !(0x40 <= #[trigger] buf[i] <= 0x7e) {
        assert forall|j: int| 0 <= j < window.len() implies !parser::csi_final()(
            #[trigger] window[j],
        ) by {
            assert(window[j] == buf[j + 2]);
        }
        bytes::lemma_first_where_none(window, parser::csi_final());
        assert(!(0x40 <= buf[2] <= 0x7e));
    }
}

/// What is not complete yet: an escape byte alone, a control sequence whose last byte has not
/// come within fewer than 32 bytes, an X10 mouse report of fewer than six bytes, and an SGR mouse
/// report without its last letter, however long.
pub proof fn law_incomplete_sequences(buf: Seq<u8>)
    requires
        buf.len() >= 1,
        buf[0] == 0x1b,
    ensures
        buf.len() == 1 ==> parser::parse_of(buf) is NeedMore,
        buf.len() >= 2 && (buf[1] == '[' as u8 || buf[1] == 'O' as u8) && buf.len() < 34 && (forall|
            i: int,
        |
            2 <= i < buf.len() ==> !(0x40 <= #[trigger] buf[i] <= 0x7e)) ==> parser::parse_of(
            buf,
        ) is NeedMore,
        3 <= buf.len() < 6 && buf[1] == '[' as u8 && buf[2] == 'M' as u8 ==> parser::parse_of(
            buf,
        ) is NeedMore,
        buf.len() >= 3 && buf[1] == '[' as u8 && buf[2] == '<' as u8 && (forall|i: int|
            3 <= i < buf.len() ==> #[trigger] buf[i] != 'M' as u8 && buf[i] != 'm' as u8)
            ==> parser::parse_of(buf) is NeedMore,
{
    if buf.len() >= 2 && buf.len() < 34 && forall|i: int|
        2 <= i < buf.len() ==> !(0x40 <= #[trigger] buf[i] <= 0x7e) {
        let window = parser::csi_window(buf);
        assert forall|j: int| 0 <= j < window.len() implies !parser::csi_final()(
            #[trigger] window[j],
        ) by {
            assert(window[j] == buf[j + 2]);
        }
        bytes::lemma_first_where_none(window, parser::csi_final());
        if buf.len() >= 3 {
            let tail = buf.skip(3);
            assert forall|j: int| 0 <= j < tail.len() implies !parser::sgr_final()(
                #[trigger] tail[j],
            ) by {
                assert(tail[j] == buf[j + 3]);
            }
            bytes::lemma_first_where_none(tail, parser::sgr_final());
        }
    }
    if buf.len() >= 3 && forall|i: int|
        3 <= i < buf.len() ==> #[trigger] buf[i] != 'M' as u8 && buf[i] != 'm' as u8 {
        let tail = buf.skip(3);
        assert forall|j: int| 0 <= j < tail.len() implies !parser::sgr_final()(
            #[trigger] tail[j],
        ) by {
            assert(tail[j] == buf[j + 3]);
        }
        bytes::lemma_first_where_none(tail, parser::sgr_final());
    }
}

} // verus!
