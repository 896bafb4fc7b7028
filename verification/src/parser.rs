//! The terminal protocol: one event at the front of a buffer of input bytes.

use vstd::prelude::*;
use vstd::slice::slice_subrange;
use vstd::string::*;
use vstd::utf8::*;

use crate::bytes;
use crate::event::{
    Key, KeyModifiers, MouseButton, MouseEvent, MouseEventKind, Parsed, ParsedView,
};

verus! {

/// What the front of a buffer holds.
#[derive(Debug, PartialEq, Eq)]
pub enum Parse {
    /// An event, and how many bytes it takes up.
    Event(Parsed, usize),
    /// The beginning of an event that is not complete yet.
    NeedMore,
}

/// The mathematical value of a [`Parse`].
pub enum ParseView {
    Event(ParsedView, nat),
    NeedMore,
}

impl View for Parse {
    type V = ParseView;

    open spec fn view(&self) -> ParseView {
        match self {
            Parse::Event(parsed, len) => ParseView::Event(parsed@, *len as nat),
            Parse::NeedMore => ParseView::NeedMore,
        }
    }
}

/// A key that takes up `len` bytes.
pub open spec fn a_key(key: Key, len: nat) -> ParseView {
    ParseView::Event(ParsedView::Key(key), len)
}

fn key_of(key: Key, len: usize) -> (parse: Parse)
    ensures
        parse@ == a_key(key, len as nat),
{
    Parse::Event(Parsed::Key(key), len)
}

/// The longest run of bytes between `ESC [` or `ESC O` and the end of a control sequence,
/// its last byte counted.
pub const MAX_SEQ: usize = 32;

/// `a` less `b`, but not below zero.
pub open spec fn minus(a: int, b: int) -> int {
    if a > b {
        a - b
    } else {
        0
    }
}

// ---------------------------------------------------------------------------
// Mouse reports
// ---------------------------------------------------------------------------

/// The button number in a mouse report byte: the two lowest bits, and the two highest bits
/// above them.
pub open spec fn cb_button(cb: u8) -> int {
    cb as int % 4 + (cb as int / 64) * 4
}

/// The bit of a mouse report byte that stands for motion.
pub open spec fn cb_dragging(cb: u8) -> bool {
    (cb as int / 32) % 2 == 1
}

/// What a mouse report byte reports.
pub open spec fn cb_kind(cb: u8) -> MouseEventKind {
    let button = cb_button(cb);
    if cb_dragging(cb) {
        if button == 0 {
            MouseEventKind::Drag(MouseButton::Left)
        } else if button == 1 {
            MouseEventKind::Drag(MouseButton::Middle)
        } else if button == 2 {
            MouseEventKind::Drag(MouseButton::Right)
        } else {
            MouseEventKind::Moved
        }
    } else if button == 0 {
        MouseEventKind::Down(MouseButton::Left)
    } else if button == 1 {
        MouseEventKind::Down(MouseButton::Middle)
    } else if button == 2 {
        MouseEventKind::Down(MouseButton::Right)
    } else if button == 3 {
        MouseEventKind::Up(MouseButton::Left)
    } else if button == 4 {
        MouseEventKind::ScrollUp
    } else if button == 5 {
        MouseEventKind::ScrollDown
    } else if button == 6 {
        MouseEventKind::ScrollLeft
    } else if button == 7 {
        MouseEventKind::ScrollRight
    } else {
        MouseEventKind::Moved
    }
}

/// The modifier keys in a mouse report byte.
pub open spec fn cb_modifiers(cb: u8) -> KeyModifiers {
    KeyModifiers {
        shift: (cb as int / 4) % 2 == 1,
        alt: (cb as int / 8) % 2 == 1,
        control: (cb as int / 16) % 2 == 1,
    }
}

/// Decodes a mouse report byte: button number in the low and high bits, motion and modifier
/// flags in between. An unsupported button is reported as motion, which the search screen
/// ignores.
pub fn parse_cb(cb: u8) -> (report: (MouseEventKind, KeyModifiers))
    ensures
        report == (cb_kind(cb), cb_modifiers(cb)),
{
    let button_number: u8 = (cb & 0b0000_0011) | ((cb & 0b1100_0000) >> 4);
    let dragging: bool = cb & 0b0010_0000 == 0b0010_0000;
    assert(((cb & 0b0000_0011) | ((cb & 0b1100_0000) >> 4)) == cb % 4 + (cb / 64) * 4)
        by (bit_vector);
    assert((cb & 0b0010_0000 == 0b0010_0000) == ((cb / 32) % 2 == 1)) by (bit_vector);

    let kind: MouseEventKind = match (button_number, dragging) {
        (0, false) => MouseEventKind::Down(MouseButton::Left),
        (1, false) => MouseEventKind::Down(MouseButton::Middle),
        (2, false) => MouseEventKind::Down(MouseButton::Right),
        (0, true) => MouseEventKind::Drag(MouseButton::Left),
        (1, true) => MouseEventKind::Drag(MouseButton::Middle),
        (2, true) => MouseEventKind::Drag(MouseButton::Right),
        (3, false) => MouseEventKind::Up(MouseButton::Left),
        (3, true) | (4, true) | (5, true) => MouseEventKind::Moved,
        (4, false) => MouseEventKind::ScrollUp,
        (5, false) => MouseEventKind::ScrollDown,
        (6, false) => MouseEventKind::ScrollLeft,
        (7, false) => MouseEventKind::ScrollRight,
        _ => MouseEventKind::Moved,
    };

    let modifiers: KeyModifiers = KeyModifiers {
        shift: cb & 0b0000_0100 != 0,
        alt: cb & 0b0000_1000 != 0,
        control: cb & 0b0001_0000 != 0,
    };
    assert((cb & 0b0000_0100 != 0) == ((cb / 4) % 2 == 1)) by (bit_vector);
    assert((cb & 0b0000_1000 != 0) == ((cb / 8) % 2 == 1)) by (bit_vector);
    assert((cb & 0b0001_0000 != 0) == ((cb / 16) % 2 == 1)) by (bit_vector);

    (kind, modifiers)
}

/// A mouse report whose column and row were sent counted from one.
pub open spec fn mouse_at(kind: MouseEventKind, modifiers: KeyModifiers, x: int, y: int) -> MouseEvent {
    MouseEvent { kind, column: minus(x, 1) as u16, row: minus(y, 1) as u16, modifiers }
}

/// What a report kind becomes when the report ends in the release letter: a button that would
/// go down goes up, and nothing else changes.
pub open spec fn released(kind: MouseEventKind) -> MouseEventKind {
    match kind {
        MouseEventKind::Down(button) => MouseEventKind::Up(button),
        other => other,
    }
}

/// `ESC [ M Cb Cx Cy`, each of the three offset by 32.
pub open spec fn x10_of(buf: Seq<u8>) -> ParseView {
    if buf.len() < 6 {
        ParseView::NeedMore
    } else {
        let cb = minus(buf[3] as int, 32) as u8;
        ParseView::Event(
            ParsedView::Mouse(
                mouse_at(
                    cb_kind(cb),
                    cb_modifiers(cb),
                    minus(buf[4] as int, 32),
                    minus(buf[5] as int, 32),
                ),
            ),
            6,
        )
    }
}

fn parse_x10(buf: &[u8]) -> (parse: Parse)
    requires
        buf@.len() >= 3,
    ensures
        parse@ == x10_of(buf@),
{
    if buf.len() < 6 {
        return Parse::NeedMore;
    }
    let cb: u8 = buf[3].saturating_sub(32);
    let (kind, modifiers): (MouseEventKind, KeyModifiers) = parse_cb(cb);
    let column: u16 = (buf[4].saturating_sub(32) as u16).saturating_sub(1);
    let row: u16 = (buf[5].saturating_sub(32) as u16).saturating_sub(1);
    Parse::Event(Parsed::Mouse(MouseEvent { kind, column, row, modifiers }), 6)
}

/// The letters that end an SGR mouse report.
pub open spec fn sgr_final() -> spec_fn(u8) -> bool {
    |b: u8| b == 0x4d || b == 0x6d
}

/// The report that the parameters `Cb ; Cx ; Cy` of an SGR mouse report hold. Parameters after
/// the third are ignored, but the whole must be UTF-8.
pub open spec fn sgr_report(params: Seq<u8>, release: bool) -> Option<MouseEvent> {
    let fields = bytes::split(params, 0x3b);
    if valid_utf8(params) && fields.len() >= 3 {
        match (
            bytes::decimal(fields[0], u8::MAX as nat),
            bytes::decimal(fields[1], u16::MAX as nat),
            bytes::decimal(fields[2], u16::MAX as nat),
        ) {
            (Some(cb), Some(x), Some(y)) => {
                let kind = cb_kind(cb as u8);
                let kind = if release {
                    released(kind)
                } else {
                    kind
                };
                Some(mouse_at(kind, cb_modifiers(cb as u8), x as int, y as int))
            },
            _ => None,
        }
    } else {
        None
    }
}

fn parse_sgr_params(params: &[u8], release: bool) -> (report: Option<MouseEvent>)
    ensures
        report == sgr_report(params@, release),
{
    if std::str::from_utf8(params).is_err() {
        return None;
    }
    let cb: u8 = match bytes::field(params, 0x3b, 0) {
        Some(text) => match bytes::parse_decimal(text, 0xff) {
            Some(value) => value as u8,
            None => {
                return None;
            },
        },
        None => {
            return None;
        },
    };
    let column: u16 = match bytes::field(params, 0x3b, 1) {
        Some(text) => match bytes::parse_decimal(text, 0xffff) {
            Some(value) => value as u16,
            None => {
                return None;
            },
        },
        None => {
            return None;
        },
    };
    let row: u16 = match bytes::field(params, 0x3b, 2) {
        Some(text) => match bytes::parse_decimal(text, 0xffff) {
            Some(value) => value as u16,
            None => {
                return None;
            },
        },
        None => {
            return None;
        },
    };
    let (kind, modifiers): (MouseEventKind, KeyModifiers) = parse_cb(cb);
    let kind: MouseEventKind = if release {
        match kind {
            MouseEventKind::Down(button) => MouseEventKind::Up(button),
            other => other,
        }
    } else {
        kind
    };
    Some(
        MouseEvent {
            kind,
            column: column.saturating_sub(1),
            row: row.saturating_sub(1),
            modifiers,
        },
    )
}

/// `ESC [ < Cb ; Cx ; Cy` and a final `M` or, for a release, `m`. A complete report that cannot
/// be read is a null key.
pub open spec fn sgr_of(buf: Seq<u8>) -> ParseView {
    match bytes::first_where(buf.skip(3), sgr_final()) {
        None => ParseView::NeedMore,
        Some(offset) => {
            let len = (offset + 4) as nat;
            match sgr_report(buf.subrange(3, offset + 3), buf[offset + 3] == 0x6d) {
                Some(mouse) => ParseView::Event(ParsedView::Mouse(mouse), len),
                None => a_key(Key::Null, len),
            }
        },
    }
}

fn parse_sgr(buf: &[u8]) -> (parse: Parse)
    requires
        buf@.len() >= 3,
    ensures
        parse@ == sgr_of(buf@),
{
    let mut i: usize = 3;
    while i < buf.len()
        invariant
            3 <= i <= buf@.len(),
            forall|j: int| 0 <= j < i - 3 ==> !sgr_final()(#[trigger] buf@.skip(3)[j]),
        decreases buf@.len() - i,
    {
        assert(buf@.skip(3)[i - 3] == buf@[i as int]);
        if buf[i] == 0x4d || buf[i] == 0x6d {
            proof {
                bytes::lemma_first_where_is(buf@.skip(3), sgr_final(), i - 3);
            }
            let params: &[u8] = slice_subrange(buf, 3, i);
            return match parse_sgr_params(params, buf[i] == 0x6d) {
                Some(mouse) => Parse::Event(Parsed::Mouse(mouse), i + 1),
                None => key_of(Key::Null, i + 1),
            };
        }
        i = i + 1;
    }
    proof {
        bytes::lemma_first_where_none(buf@.skip(3), sgr_final());
    }
    Parse::NeedMore
}

// ---------------------------------------------------------------------------
// Keys
// ---------------------------------------------------------------------------

/// The character with the code point `v`, if there is one.
pub open spec fn char_of(v: nat) -> Option<char> {
    if v <= u32::MAX && is_scalar(v as u32) {
        Some((v as u32) as char)
    } else {
        None
    }
}

/// The capital of a lower-case ASCII letter; any other character itself.
pub open spec fn capital(c: char) -> char {
    if 'a' <= c && c <= 'z' {
        (c as u32 - 32) as char
    } else {
        c
    }
}

fn to_capital(c: char) -> (upper: char)
    ensures
        upper == capital(c),
{
    if 'a' <= c && c <= 'z' {
        (c as u8 - 32) as char
    } else {
        c
    }
}

/// The code points of `CSI u` that stand for keys rather than characters.
pub open spec fn csi_u_named(codepoint: nat, shift: bool) -> Option<Key> {
    if codepoint == 8 || codepoint == 127 {
        Some(Key::Backspace)
    } else if codepoint == 9 {
        Some(
            if shift {
                Key::BackTab
            } else {
                Key::Tab
            },
        )
    } else if codepoint == 10 {
        Some(Key::Ctrl('j'))
    } else if codepoint == 13 {
        Some(Key::Enter)
    } else if codepoint == 27 {
        Some(Key::Esc)
    } else if codepoint == 57349 {
        Some(Key::Delete)
    } else if codepoint == 57350 {
        Some(Key::Left)
    } else if codepoint == 57351 {
        Some(Key::Right)
    } else if codepoint == 57352 {
        Some(Key::Up)
    } else if codepoint == 57353 {
        Some(Key::Down)
    } else if codepoint == 57354 {
        Some(Key::PageUp)
    } else if codepoint == 57355 {
        Some(Key::PageDown)
    } else if codepoint == 57356 {
        Some(Key::Home)
    } else if codepoint == 57357 {
        Some(Key::End)
    } else {
        None
    }
}

/// The key that `CSI u` reports with a code point, an alternate character (what the key gives
/// with shift held), and the shift and control keys. The alternate character comes before the
/// code point; without one, shift alone capitalizes an ASCII letter.
pub open spec fn csi_u_key(codepoint: nat, alternate: Option<char>, shift: bool, ctrl: bool) -> Key {
    match csi_u_named(codepoint, shift) {
        Some(key) => key,
        None => {
            let ch = match alternate {
                Some(c) => Some(c),
                None => match char_of(codepoint) {
                    Some(c) => Some(
                        if shift && !ctrl {
                            capital(c)
                        } else {
                            c
                        },
                    ),
                    None => None,
                },
            };
            match ch {
                Some(c) => if ctrl {
                    Key::Ctrl(c)
                } else {
                    Key::Char(c)
                },
                None => Key::Null,
            }
        },
    }
}

/// The modifier bits that the second field of `CSI u` holds: its number less one, and none where
/// the field is missing or no number below 256.
pub open spec fn csi_u_modifiers(fields: Seq<Seq<u8>>) -> int {
    if fields.len() > 1 {
        match bytes::decimal(bytes::split(fields[1], 0x3a)[0], u8::MAX as nat) {
            Some(mask) => minus(mask as int, 1),
            None => 0,
        }
    } else {
        0
    }
}

/// The character that the second code point of `CSI u` names, if there is one.
pub open spec fn csi_u_alternate(codepoints: Seq<Seq<u8>>) -> Option<char> {
    if codepoints.len() > 1 {
        match bytes::decimal(codepoints[1], u32::MAX as nat) {
            Some(v) => char_of(v),
            None => None,
        }
    } else {
        None
    }
}

/// The key in `codepoint : alternate ; modifiers`, the body of a `CSI u` sequence. A body that
/// is not UTF-8, or without a number at its front, is a null key.
pub open spec fn csi_u_of(seq: Seq<u8>) -> Key {
    let fields = bytes::split(seq, 0x3b);
    let codepoints = bytes::split(fields[0], 0x3a);
    let modifiers = csi_u_modifiers(fields);
    match bytes::decimal(codepoints[0], u32::MAX as nat) {
        Some(codepoint) => if valid_utf8(seq) {
            csi_u_key(
                codepoint,
                csi_u_alternate(codepoints),
                modifiers % 2 == 1,
                (modifiers / 4) % 2 == 1,
            )
        } else {
            Key::Null
        },
        None => Key::Null,
    }
}

/// Decodes the body of a `CSI codepoint ; modifiers u` sequence (CSI-u, the Kitty keyboard
/// protocol).
pub fn parse_csi_u(seq: &[u8]) -> (key: Key)
    ensures
        key == csi_u_of(seq@),
{
    if std::str::from_utf8(seq).is_err() {
        return Key::Null;
    }
    proof {
        bytes::lemma_split_nonempty(seq@, 0x3b);
    }
    let head: &[u8] = match bytes::field(seq, 0x3b, 0) {
        Some(text) => text,
        None => {
            return Key::Null;
        },
    };
    proof {
        bytes::lemma_split_nonempty(head@, 0x3a);
    }
    let codepoint: u32 = match bytes::field(head, 0x3a, 0) {
        Some(text) => match bytes::parse_decimal(text, u32::MAX) {
            Some(value) => value,
            None => {
                return Key::Null;
            },
        },
        None => {
            return Key::Null;
        },
    };
    let modifier_mask: u8 = match bytes::field(seq, 0x3b, 1) {
        Some(text) => {
            proof {
                bytes::lemma_split_nonempty(text@, 0x3a);
            }
            match bytes::field(text, 0x3a, 0) {
                Some(number) => match bytes::parse_decimal(number, 0xff) {
                    Some(value) => value as u8,
                    None => 1,
                },
                None => 1,
            }
        },
        None => 1,
    };
    let modifier_bits: u8 = modifier_mask.saturating_sub(1);
    assert(modifier_bits as int == csi_u_modifiers(bytes::split(seq@, 0x3b)));
    let shift: bool = modifier_bits & 0b0000_0001 != 0;
    let ctrl: bool = modifier_bits & 0b0000_0100 != 0;
    assert((modifier_bits & 0b0000_0001 != 0) == (modifier_bits % 2 == 1)) by (bit_vector);
    assert((modifier_bits & 0b0000_0100 != 0) == ((modifier_bits / 4) % 2 == 1)) by (bit_vector);
    let alternate: Option<char> = match bytes::field(head, 0x3a, 1) {
        Some(text) => match bytes::parse_decimal(text, u32::MAX) {
            Some(value) => char::from_u32(value),
            None => None,
        },
        None => None,
    };

    match codepoint {
        8 | 127 => Key::Backspace,
        9 => {
            if shift {
                Key::BackTab
            } else {
                Key::Tab
            }
        },
        // Kitty reports Ctrl+J as the code point 10 with no modifier: the same key as the
        // byte 0x0a.
        10 => Key::Ctrl('j'),
        13 => Key::Enter,
        27 => Key::Esc,
        57349 => Key::Delete,
        57350 => Key::Left,
        57351 => Key::Right,
        57352 => Key::Up,
        57353 => Key::Down,
        57354 => Key::PageUp,
        57355 => Key::PageDown,
        57356 => Key::Home,
        57357 => Key::End,
        _ => {
            let ch: char = match alternate {
                Some(c) => c,
                None => match char::from_u32(codepoint) {
                    Some(c) => if shift && !ctrl {
                        to_capital(c)
                    } else {
                        c
                    },
                    None => {
                        return Key::Null;
                    },
                },
            };
            if ctrl {
                Key::Ctrl(ch)
            } else {
                Key::Char(ch)
            }
        },
    }
}

/// The key that `ESC [ number ~` stands for, by the number in the first field of its body.
pub open spec fn tilde_key(seq: Seq<u8>) -> Key {
    match bytes::decimal(bytes::split(seq, 0x3b)[0], u32::MAX as nat) {
        Some(number) => if number == 1 || number == 7 {
            Key::Home
        } else if number == 3 {
            Key::Delete
        } else if number == 4 || number == 8 {
            Key::End
        } else if number == 5 {
            Key::PageUp
        } else if number == 6 {
            Key::PageDown
        } else {
            Key::Null
        },
        None => Key::Null,
    }
}

fn parse_tilde(seq: &[u8]) -> (key: Key)
    ensures
        key == tilde_key(seq@),
{
    proof {
        bytes::lemma_split_nonempty(seq@, 0x3b);
    }
    let num: u32 = match bytes::field(seq, 0x3b, 0) {
        Some(text) => match bytes::parse_decimal(text, u32::MAX) {
            Some(value) => value,
            None => 0,
        },
        None => 0,
    };
    match num {
        1 | 7 => Key::Home,
        3 => Key::Delete,
        4 | 8 => Key::End,
        5 => Key::PageUp,
        6 => Key::PageDown,
        _ => Key::Null,
    }
}

/// The bytes that end a control sequence.
pub open spec fn csi_final() -> spec_fn(u8) -> bool {
    |b: u8| 0x40 <= b <= 0x7e
}

/// The key that a complete control sequence stands for, by its body and its last byte. A
/// sequence that is not known is a null key.
pub open spec fn csi_key(seq: Seq<u8>, last: u8) -> Key {
    if last == 0x75 {
        csi_u_of(seq)
    } else if last == 0x41 {
        Key::Up
    } else if last == 0x42 {
        Key::Down
    } else if last == 0x43 {
        Key::Right
    } else if last == 0x44 {
        Key::Left
    } else if last == 0x48 {
        Key::Home
    } else if last == 0x46 {
        Key::End
    } else if last == 0x5a {
        Key::BackTab
    } else if last == 0x7e {
        tilde_key(seq)
    } else {
        Key::Null
    }
}

/// The bytes after `ESC [` or `ESC O` in which a control sequence has to end.
pub open spec fn csi_window(buf: Seq<u8>) -> Seq<u8> {
    buf.subrange(
        2,
        if buf.len() < 2 + MAX_SEQ {
            buf.len() as int
        } else {
            2 + MAX_SEQ
        },
    )
}

/// `ESC [` or `ESC O`, a body, and a last byte from `@` to `~`. What does not end within the
/// limit is no control sequence, and its first byte is the escape key.
pub open spec fn csi_of(buf: Seq<u8>) -> ParseView {
    match bytes::first_where(csi_window(buf), csi_final()) {
        None => if buf.len() >= 2 + MAX_SEQ {
            a_key(Key::Esc, 1)
        } else {
            ParseView::NeedMore
        },
        Some(offset) => a_key(
            csi_key(buf.subrange(2, offset + 2), buf[offset + 2]),
            (offset + 3) as nat,
        ),
    }
}

fn parse_csi(buf: &[u8]) -> (parse: Parse)
    requires
        buf@.len() >= 2,
    ensures
        parse@ == csi_of(buf@),
{
    let end: usize = if buf.len() < 2 + MAX_SEQ {
        buf.len()
    } else {
        2 + MAX_SEQ
    };
    let ghost window = csi_window(buf@);
    let mut i: usize = 2;
    while i < end
        invariant
            2 <= i <= end <= buf@.len(),
            window == buf@.subrange(2, end as int),
            window == csi_window(buf@),
            forall|j: int| 0 <= j < i - 2 ==> !csi_final()(#[trigger] window[j]),
        decreases end - i,
    {
        assert(window[i - 2] == buf@[i as int]);
        let last: u8 = buf[i];
        if 0x40 <= last && last <= 0x7e {
            proof {
                bytes::lemma_first_where_is(window, csi_final(), i - 2);
            }
            let seq: &[u8] = slice_subrange(buf, 2, i);
            let key: Key = match last {
                0x75 => parse_csi_u(seq),
                0x41 => Key::Up,
                0x42 => Key::Down,
                0x43 => Key::Right,
                0x44 => Key::Left,
                0x48 => Key::Home,
                0x46 => Key::End,
                0x5a => Key::BackTab,
                0x7e => parse_tilde(seq),
                // Consumed without being taken for the escape key, which cancels the search.
                _ => Key::Null,
            };
            return key_of(key, i + 1);
        }
        i = i + 1;
    }
    proof {
        bytes::lemma_first_where_none(window, csi_final());
    }
    if buf.len() >= 2 + MAX_SEQ {
        key_of(Key::Esc, 1)
    } else {
        Parse::NeedMore
    }
}

/// What a buffer that begins with the escape byte holds at its front.
pub open spec fn escape_of(buf: Seq<u8>) -> ParseView {
    if buf.len() < 2 {
        ParseView::NeedMore
    } else if buf[1] != 0x5b && buf[1] != 0x4f {
        a_key(Key::Esc, 1)
    } else if buf[1] == 0x5b && buf.len() > 2 && buf[2] == 0x4d {
        x10_of(buf)
    } else if buf[1] == 0x5b && buf.len() > 2 && buf[2] == 0x3c {
        sgr_of(buf)
    } else {
        csi_of(buf)
    }
}

/// Reads an escape sequence, or the escape key, off the front of `buf`.
pub fn parse_escape(buf: &[u8]) -> (parse: Parse)
    requires
        buf@.len() > 0,
        buf@[0] == 0x1b,
    ensures
        parse@ == escape_of(buf@),
{
    if buf.len() < 2 {
        return Parse::NeedMore;
    }
    match buf[1] {
        0x5b | 0x4f => {
            if buf[1] == 0x5b && buf.len() > 2 && buf[2] == 0x4d {
                return parse_x10(buf);
            }
            if buf[1] == 0x5b && buf.len() > 2 && buf[2] == 0x3c {
                return parse_sgr(buf);
            }
            parse_csi(buf)
        },
        _ => key_of(Key::Esc, 1),
    }
}

/// How many bytes the encoding of a character takes up, by its first byte.
pub open spec fn utf8_width(lead: u8) -> nat {
    if lead >= 0xf0 {
        4
    } else if lead >= 0xe0 {
        3
    } else {
        2
    }
}

/// What a buffer that begins with a byte outside ASCII holds at its front: a character, or, for
/// a byte that begins no valid encoding, the replacement character.
pub open spec fn utf8_of(buf: Seq<u8>) -> ParseView {
    let width = utf8_width(buf[0]);
    if buf.len() < width {
        ParseView::NeedMore
    } else if valid_utf8(buf.take(width as int)) {
        a_key(Key::Char(decode_utf8(buf.take(width as int))[0]), width)
    } else {
        a_key(Key::Char('\u{fffd}'), 1)
    }
}

/// Reads a character outside ASCII off the front of `buf`.
pub fn parse_utf8(buf: &[u8]) -> (parse: Parse)
    requires
        buf@.len() > 0,
    ensures
        parse@ == utf8_of(buf@),
{
    let lead: u8 = buf[0];
    let expected: usize = if lead >= 0xf0 {
        4
    } else if lead >= 0xe0 {
        3
    } else {
        2
    };
    if buf.len() < expected {
        return Parse::NeedMore;
    }
    let encoded: &[u8] = slice_subrange(buf, 0, expected);
    assert(encoded@ =~= buf@.take(expected as int));
    match std::str::from_utf8(encoded) {
        Ok(text) => {
            proof {
                encode_utf8_decode_utf8(text@);
                assert(decode_utf8(encoded@) == text@);
                assert(decode_utf8(encoded@).len() > 0);
            }
            let ch: char = text.get_char(0);
            key_of(Key::Char(ch), expected)
        },
        Err(_) => key_of(Key::Char('\u{fffd}'), 1),
    }
}

/// The letter that is held with the control key to send the byte `b`.
pub open spec fn control_letter(b: u8) -> char {
    (b + 0x60) as char
}

/// What the front of a non-empty buffer holds.
pub open spec fn parse_of(buf: Seq<u8>) -> ParseView {
    let first = buf[0];
    if first == 0x1b {
        escape_of(buf)
    } else if first == 0x08 || first == 0x7f {
        a_key(Key::Backspace, 1)
    } else if first == 0x09 {
        a_key(Key::Tab, 1)
    } else if first == 0x0a {
        a_key(Key::Ctrl('j'), 1)
    } else if first == 0x0d {
        a_key(Key::Enter, 1)
    } else if 0x20 <= first <= 0x7e {
        a_key(Key::Char(first as char), 1)
    } else if 0x01 <= first <= 0x1a {
        a_key(Key::Ctrl(control_letter(first)), 1)
    } else if first >= 0x80 {
        utf8_of(buf)
    } else {
        a_key(Key::Char('\u{fffd}'), 1)
    }
}

/// Reads one event off the front of `buf`.
pub fn parse(buf: &[u8]) -> (parse: Parse)
    requires
        buf@.len() > 0,
    ensures
        parse@ == parse_of(buf@),
{
    let first: u8 = buf[0];
    match first {
        0x1b => parse_escape(buf),
        0x08 | 0x7f => key_of(Key::Backspace, 1),
        0x09 => key_of(Key::Tab, 1),
        0x0a => key_of(Key::Ctrl('j'), 1),
        0x0d => key_of(Key::Enter, 1),
        0x20..=0x7e => key_of(Key::Char(first as char), 1),
        0x01..=0x1a => {
            let letter: char = (0x61 + (first - 1)) as char;
            key_of(Key::Ctrl(letter), 1)
        },
        0x80..=0xff => parse_utf8(buf),
        _ => key_of(Key::Char('\u{fffd}'), 1),
    }
}

} // verus!
