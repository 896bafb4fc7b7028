//! What the bytes of a mouse report mean.

use vstd::prelude::*;
use vstd::utf8::*;

use crate::bytes;
use crate::event::{Key, MouseButton, MouseEventKind, ParsedView};
use crate::parser;
use crate::parser::ParseView;

verus! {

/// The two lowest and the two highest bits of the report byte are the button, and the bit of value
/// 32 is motion. Without motion, buttons 0, 1 and 2 go down, button 3 lets go of the left one, and
/// the four buttons above 64 scroll; with motion, buttons 0, 1 and 2 drag. Everything else is
/// plain motion.
pub proof fn law_mouse_report_kinds(cb: u8)
    ensures
        cb & 0xe3 == 0x00 ==> parser::cb_kind(cb) == MouseEventKind::Down(MouseButton::Left),
        cb & 0xe3 == 0x01 ==> parser::cb_kind(cb) == MouseEventKind::Down(MouseButton::Middle),
        cb & 0xe3 == 0x02 ==> parser::cb_kind(cb) == MouseEventKind::Down(MouseButton::Right),
        cb & 0xe3 == 0x03 ==> parser::cb_kind(cb) == MouseEventKind::Up(MouseButton::Left),
        cb & 0xe3 == 0x20 ==> parser::cb_kind(cb) == MouseEventKind::Drag(MouseButton::Left),
        cb & 0xe3 == 0x21 ==> parser::cb_kind(cb) == MouseEventKind::Drag(MouseButton::Middle),
        cb & 0xe3 == 0x22 ==> parser::cb_kind(cb) == MouseEventKind::Drag(MouseButton::Right),
        cb & 0xe3 == 0x40 ==> parser::cb_kind(cb) == MouseEventKind::ScrollUp,
        cb & 0xe3 == 0x41 ==> parser::cb_kind(cb) == MouseEventKind::ScrollDown,
        cb & 0xe3 == 0x42 ==> parser::cb_kind(cb) == MouseEventKind::ScrollLeft,
        cb & 0xe3 == 0x43 ==> parser::cb_kind(cb) == MouseEventKind::ScrollRight,
        cb & 0xe3 == 0x23 || cb & 0xe3 >= 0x60 || cb & 0x80 != 0 ==> parser::cb_kind(cb)
            == MouseEventKind::Moved,
{
    assert(cb & 0xe3 == cb % 4 + (cb / 32) * 32) by (bit_vector);
    assert((cb & 0x80 != 0) == (cb >= 128)) by (bit_vector);
}

/// The three bits between are shift, alt and control, each of its own.
pub proof fn law_mouse_report_modifiers(cb: u8)
    ensures
        parser::cb_modifiers(cb).shift <==> cb & 0x04 != 0,
        parser::cb_modifiers(cb).alt <==> cb & 0x08 != 0,
        parser::cb_modifiers(cb).control <==> cb & 0x10 != 0,
{
    assert((cb & 0x04 != 0) == ((cb / 4) % 2 == 1)) by (bit_vector);
    assert((cb & 0x08 != 0) == ((cb / 8) % 2 == 1)) by (bit_vector);
    assert((cb & 0x10 != 0) == ((cb / 16) % 2 == 1)) by (bit_vector);
}

/// `n` less `m`, or zero.
pub open spec fn less(n: nat, m: nat) -> nat {
    if n >= m {
        (n - m) as nat
    } else {
        0
    }
}

/// An X10 report is the report byte, the column and the row, each with 32 added to it, and the last
/// two counted from one. It takes up six bytes whatever they are.
pub proof fn law_x10_reports(a: u8, b: u8, c: u8, later: Seq<u8>)
    ensures
        ({
            let buf = seq![0x1b, '[' as u8, 'M' as u8, a, b, c] + later;
            let cb = less(a as nat, 32) as u8;
            &&& parser::parse_of(buf) matches ParseView::Event(ParsedView::Mouse(mouse), len)
            &&& len == 6
            &&& mouse.kind == parser::cb_kind(cb)
            &&& mouse.modifiers == parser::cb_modifiers(cb)
            &&& mouse.column == less(b as nat, 33)
            &&& mouse.row == less(c as nat, 33)
        }),
{
}

/// The parameters of an SGR report hold a report byte, a column and a row, in this order.
pub open spec fn holds(params: Seq<u8>, cb: nat, x: nat, y: nat) -> bool {
    let fields = bytes::split(params, ';' as u8);
    &&& valid_utf8(params)
    &&& fields.len() >= 3
    &&& bytes::decimal(fields[0], 255) == Some(cb)
    &&& bytes::decimal(fields[1], 65535) == Some(x)
    &&& bytes::decimal(fields[2], 65535) == Some(y)
}

/// What a report with the final letter `M` says, a report with `m` says too, but for a button that
/// would go down: it goes up.
pub open spec fn same_but_released(pressed: MouseEventKind, released: MouseEventKind) -> bool {
    match pressed {
        MouseEventKind::Down(button) => released == MouseEventKind::Up(button),
        _ => released == pressed,
    }
}

proof fn lemma_sgr(params: Seq<u8>, last: u8, later: Seq<u8>)
    requires
        last == 0x4d || last == 0x6d,
        forall|i: int| 0 <= i < params.len() ==> #[trigger] params[i] != 0x4d && params[i] != 0x6d,
    ensures
        parser::parse_of(seq![0x1b, 0x5b, 0x3c] + params + seq![last] + later) == (
        match parser::sgr_report(params, last == 0x6d) {
            Some(mouse) => ParseView::Event(ParsedView::Mouse(mouse), params.len() + 4),
            None => ParseView::Event(ParsedView::Key(Key::Null), params.len() + 4),
        }),
{
    let buf = seq![0x1b, 0x5b, 0x3c] + params + seq![last] + later;
    let n = params.len() as int;
    assert forall|j: int| 0 <= j < n implies !parser::sgr_final()(#[trigger] buf.skip(3)[j]) by {
        assert(buf.skip(3)[j] == params[j]);
    }
    assert(buf.skip(3)[n] == last);
    bytes::lemma_first_where_is(buf.skip(3), parser::sgr_final(), n);
    assert(buf.subrange(3, n + 3) =~= params);
}

/// An SGR report goes up to the first `M` or `m`. Its column and row are counted from one, and
/// parameters after the third mean nothing. One that cannot be read is a null key of the same
/// length.
#[verifier::rlimit(40)]
pub proof fn law_sgr_reports(params: Seq<u8>, last: u8, later: Seq<u8>)
    requires
        last == 'M' as u8 || last == 'm' as u8,
        forall|i: int|
            0 <= i < params.len() ==> #[trigger] params[i] != 'M' as u8 && params[i] != 'm' as u8,
    ensures
        ({
            let buf = seq![0x1b, '[' as u8, '<' as u8] + params + seq![last] + later;
            &&& forall|cb: nat, x: nat, y: nat| #[trigger]
                holds(params, cb, x, y) ==> {
                    &&& parser::parse_of(buf) matches ParseView::Event(
                        ParsedView::Mouse(mouse),
                        len,
                    )
                    &&& len == params.len() + 4
                    &&& mouse.column == less(x, 1)
                    &&& mouse.row == less(y, 1)
                    &&& mouse.modifiers == parser::cb_modifiers(cb as u8)
                    &&& last == 'M' as u8 ==> mouse.kind == parser::cb_kind(cb as u8)
                    &&& last == 'm' as u8 ==> same_but_released(
                        parser::cb_kind(cb as u8),
                        mouse.kind,
                    )
                }
            &&& (forall|cb: nat, x: nat, y: nat| !#[trigger] holds(params, cb, x, y))
                ==> parser::parse_of(buf) == ParseView::Event(
                ParsedView::Key(Key::Null),
                params.len() + 4,
            )
        }),
{
    lemma_sgr(params, last, later);
    let fields = bytes::split(params, 0x3b);
    if valid_utf8(params) && fields.len() >= 3 {
        match (
            bytes::decimal(fields[0], 255),
            bytes::decimal(fields[1], 65535),
            bytes::decimal(fields[2], 65535),
        ) {
            (Some(cb), Some(x), Some(y)) => {
                assert(holds(params, cb, x, y));
            },
            _ => {},
        }
    }
}

} // verus!
