//! How a terminal writes its reports, and that they are read back as they were meant.

use vstd::prelude::*;
use vstd::utf8::*;

use crate::bytes;
use crate::event::{Key, MouseEvent, ParsedView};
use crate::parser;
use crate::parser::{ParseView, MAX_SEQ};
use crate::parser_laws;

verus! {

/// `n` written in decimal, without leading zeros.
pub open spec fn digits(n: nat) -> Seq<u8>
    decreases n,
{
    if n < 10 {
        seq![(0x30 + n) as u8]
    } else {
        digits(n / 10).push((0x30 + n % 10) as u8)
    }
}

pub proof fn lemma_digits(n: nat)
    ensures
        digits(n).len() >= 1,
        bytes::all_digits(digits(n)),
        bytes::digits_value(digits(n)) == n,
    decreases n,
{
    let s = digits(n);
    if n < 10 {
        assert(s.drop_last() =~= Seq::<u8>::empty());
        assert(bytes::digits_value(s.drop_last()) == 0);
    } else {
        lemma_digits(n / 10);
        assert(s.drop_last() =~= digits(n / 10));
        assert forall|i: int| 0 <= i < s.len() implies bytes::is_digit(#[trigger] s[i]) by {
            if i < s.len() - 1 {
                assert(s[i] == digits(n / 10)[i]);
            }
        }
    }
}

spec fn ten_to(k: nat) -> nat
    decreases k,
{
    if k == 0 {
        1
    } else {
        10 * ten_to((k - 1) as nat)
    }
}

proof fn lemma_digits_len(n: nat, k: nat)
    requires
        k >= 1,
        n < ten_to(k),
    ensures
        digits(n).len() <= k,
    decreases k,
{
    if n >= 10 {
        assert(ten_to(0) == 1);
        assert(k > 1) by {
            if k == 1 {
                assert(ten_to(1) == 10 * ten_to(0));
            }
        }
        lemma_digits_len(n / 10, (k - 1) as nat);
    }
}

/// A number up to `max` is read back from its decimal digits.
pub proof fn law_numbers_are_read_back(n: nat, max: nat)
    requires
        n <= max,
    ensures
        bytes::decimal(digits(n), max) == Some(n),
{
    lemma_digits(n);
    assert(bytes::is_digit(digits(n)[0]));
}

/// Every byte of `s` is a digit or one of the two separators.
spec fn plain(s: Seq<u8>) -> bool {
    forall|i: int|
        0 <= i < s.len() ==> bytes::is_digit(#[trigger] s[i]) || s[i] == 0x3b || s[i] == 0x3a
}

proof fn lemma_plain_is_utf8(s: Seq<u8>)
    requires
        plain(s),
    ensures
        valid_utf8(s),
{
    assert(s.subrange(0, 0) =~= Seq::<u8>::empty());
    assert(partial_valid_utf8(s, 0));
    assert forall|i: int| 0 <= 0 <= i < s.len() <= s.len() implies #[trigger]
        is_leading_byte_width_1(s[i]) by {
        assert(bytes::is_digit(s[i]) || s[i] == 0x3b || s[i] == 0x3a);
    }
    partial_valid_utf8_extend_ascii_block(s, 0, s.len() as int);
    assert(s.subrange(0, s.len() as int) =~= s);
}

/// Splitting undoes joining with a separator that the first piece does not hold.
pub proof fn lemma_split_joined(a: Seq<u8>, sep: u8, b: Seq<u8>)
    requires
        forall|i: int| 0 <= i < a.len() ==> #[trigger] a[i] != sep,
    ensures
        bytes::split(a + seq![sep] + b, sep) == seq![a] + bytes::split(b, sep),
{
    let s = a + seq![sep] + b;
    assert forall|i: int| 0 <= i < a.len() implies !bytes::equals(sep)(#[trigger] s[i]) by {
        assert(s[i] == a[i]);
    }
    assert(s[a.len() as int] == sep);
    bytes::lemma_first_where_is(s, bytes::equals(sep), a.len() as int);
    assert(s.take(a.len() as int) =~= a);
    assert(s.skip(a.len() as int + 1) =~= b);
}

pub proof fn lemma_split_whole(a: Seq<u8>, sep: u8)
    requires
        forall|i: int| 0 <= i < a.len() ==> #[trigger] a[i] != sep,
    ensures
        bytes::split(a, sep) == seq![a],
{
    assert forall|i: int| 0 <= i < a.len() implies !bytes::equals(sep)(#[trigger] a[i]) by {}
    bytes::lemma_first_where_none(a, bytes::equals(sep));
}

/// The digits of a number hold no separator.
proof fn lemma_digits_hold_no(n: nat, sep: u8)
    requires
        !bytes::is_digit(sep),
    ensures
        forall|i: int| 0 <= i < digits(n).len() ==> #[trigger] digits(n)[i] != sep,
{
    lemma_digits(n);
    assert forall|i: int| 0 <= i < digits(n).len() implies #[trigger] digits(n)[i] != sep by {
        assert(bytes::is_digit(digits(n)[i]));
    }
}

// ---------------------------------------------------------------------------
// Mouse reports
// ---------------------------------------------------------------------------

/// The parameters of an SGR mouse report.
pub open spec fn sgr_params(cb: u8, x: u16, y: u16) -> Seq<u8> {
    digits(cb as nat) + seq![0x3bu8] + (digits(x as nat) + seq![0x3bu8] + digits(y as nat))
}

/// An SGR mouse report, with column and row counted from one.
pub open spec fn sgr_bytes(cb: u8, x: u16, y: u16, release: bool) -> Seq<u8> {
    seq![0x1bu8, 0x5b, 0x3c] + sgr_params(cb, x, y) + seq![
        if release {
            0x6du8
        } else {
            0x4du8
        },
    ]
}

proof fn lemma_sgr_params(cb: u8, x: u16, y: u16, release: bool)
    ensures
        plain(sgr_params(cb, x, y)),
        parser::sgr_report(sgr_params(cb, x, y), release) == Some(
            parser::mouse_at(
                if release {
                    parser::released(parser::cb_kind(cb))
                } else {
                    parser::cb_kind(cb)
                },
                parser::cb_modifiers(cb),
                x as int,
                y as int,
            ),
        ),
{
    let params = sgr_params(cb, x, y);
    let tail = digits(x as nat) + seq![0x3bu8] + digits(y as nat);
    lemma_digits(cb as nat);
    lemma_digits(x as nat);
    lemma_digits(y as nat);
    assert forall|i: int| 0 <= i < params.len() implies bytes::is_digit(#[trigger] params[i])
        || params[i] == 0x3b || params[i] == 0x3a by {
        let a = digits(cb as nat).len();
        let b = digits(x as nat).len();
        if i < a {
            assert(params[i] == digits(cb as nat)[i]);
        } else if i == a {
        } else if i < a + 1 + b {
            assert(params[i] == digits(x as nat)[i - a - 1]);
        } else if i == a + 1 + b {
        } else {
            assert(params[i] == digits(y as nat)[i - a - b - 2]);
        }
    }
    lemma_plain_is_utf8(params);
    lemma_digits_hold_no(cb as nat, 0x3b);
    lemma_digits_hold_no(x as nat, 0x3b);
    lemma_digits_hold_no(y as nat, 0x3b);
    lemma_split_joined(digits(cb as nat), 0x3b, tail);
    lemma_split_joined(digits(x as nat), 0x3b, digits(y as nat));
    lemma_split_whole(digits(y as nat), 0x3b);
    let fields = bytes::split(params, 0x3b);
    assert(fields =~= seq![digits(cb as nat), digits(x as nat), digits(y as nat)]);
    law_numbers_are_read_back(cb as nat, u8::MAX as nat);
    law_numbers_are_read_back(x as nat, u16::MAX as nat);
    law_numbers_are_read_back(y as nat, u16::MAX as nat);
}

/// Every SGR mouse report is read back: the report byte gives the kind and the modifiers, the
/// release letter turns a press into a release, and columns and rows become counted from zero.
/// All of the report's bytes are consumed and none after them.
#[verifier::rlimit(40)]
pub proof fn law_sgr_mouse_reports_are_read_back(
    cb: u8,
    x: u16,
    y: u16,
    release: bool,
    later: Seq<u8>,
)
    ensures
        parser::parse_of(sgr_bytes(cb, x, y, release) + later) == ParseView::Event(
            ParsedView::Mouse(
                parser::mouse_at(
                    if release {
                        parser::released(parser::cb_kind(cb))
                    } else {
                        parser::cb_kind(cb)
                    },
                    parser::cb_modifiers(cb),
                    x as int,
                    y as int,
                ),
            ),
            sgr_bytes(cb, x, y, release).len(),
        ),
{
    let params = sgr_params(cb, x, y);
    let report = sgr_bytes(cb, x, y, release);
    let buf = report + later;
    let n = params.len() as int;
    lemma_sgr_params(cb, x, y, release);
    assert forall|j: int| 0 <= j < n implies !parser::sgr_final()(#[trigger] buf.skip(3)[j]) by {
        assert(buf.skip(3)[j] == params[j]);
    }
    assert(buf.skip(3)[n] == report[n + 3]);
    bytes::lemma_first_where_is(buf.skip(3), parser::sgr_final(), n);
    assert(buf.subrange(3, n + 3) =~= params);
}

/// Every X10 mouse report is read back, as far as its bytes can carry it.
pub proof fn law_x10_mouse_reports_are_read_back(cb: u8, column: u8, row: u8, later: Seq<u8>)
    requires
        cb <= 223,
        column <= 222,
        row <= 222,
    ensures
        parser::parse_of(
            seq![
                0x1bu8,
                0x5b,
                0x4d,
                (cb + 32) as u8,
                (column + 33) as u8,
                (row + 33) as u8,
            ] + later,
        ) == ParseView::Event(
            ParsedView::Mouse(
                MouseEvent {
                    kind: parser::cb_kind(cb),
                    column: column as u16,
                    row: row as u16,
                    modifiers: parser::cb_modifiers(cb),
                },
            ),
            6,
        ),
{
}

// ---------------------------------------------------------------------------
// Keys
// ---------------------------------------------------------------------------

/// The code point field of a `CSI u` report, with the alternate code point where there is one.
pub open spec fn csi_u_codepoints(codepoint: u32, alternate: Option<u32>) -> Seq<u8> {
    match alternate {
        Some(v) => digits(codepoint as nat) + seq![0x3au8] + digits(v as nat),
        None => digits(codepoint as nat),
    }
}

/// The character that an alternate code point names, if there is one.
pub open spec fn alternate_char(alternate: Option<u32>) -> Option<char> {
    match alternate {
        Some(v) => parser::char_of(v as nat),
        None => None,
    }
}

/// The modifier field of a `CSI u` report, one more than the modifier bits, or none.
pub open spec fn csi_u_mask(mask: Option<u8>) -> Seq<u8> {
    match mask {
        Some(m) => seq![0x3bu8] + digits(m as nat),
        None => Seq::empty(),
    }
}

/// The modifier bits that a modifier field stands for.
pub open spec fn mask_bits(mask: Option<u8>) -> int {
    match mask {
        Some(m) => parser::minus(m as int, 1),
        None => 0,
    }
}

/// The body of a `CSI u` report.
pub open spec fn csi_u_body(codepoint: u32, alternate: Option<u32>, mask: Option<u8>) -> Seq<u8> {
    csi_u_codepoints(codepoint, alternate) + csi_u_mask(mask)
}

/// A `CSI u` report.
pub open spec fn csi_u_bytes(codepoint: u32, alternate: Option<u32>, mask: Option<u8>) -> Seq<u8> {
    seq![0x1bu8, 0x5b] + csi_u_body(codepoint, alternate, mask) + seq![0x75u8]
}

proof fn lemma_codepoints(codepoint: u32, alternate: Option<u32>)
    ensures
        plain(csi_u_codepoints(codepoint, alternate)),
        1 <= csi_u_codepoints(codepoint, alternate).len() <= 21,
        forall|i: int|
            0 <= i < csi_u_codepoints(codepoint, alternate).len() ==> #[trigger] csi_u_codepoints(
                codepoint,
                alternate,
            )[i] != 0x3b,
        ({
            let parts = bytes::split(csi_u_codepoints(codepoint, alternate), 0x3a);
            &&& bytes::decimal(parts[0], u32::MAX as nat) == Some(codepoint as nat)
            &&& parser::csi_u_alternate(parts) == alternate_char(alternate)
        }),
{
    let first = digits(codepoint as nat);
    let whole = csi_u_codepoints(codepoint, alternate);
    lemma_digits(codepoint as nat);
    lemma_digits_hold_no(codepoint as nat, 0x3a);
    lemma_digits_hold_no(codepoint as nat, 0x3b);
    law_numbers_are_read_back(codepoint as nat, u32::MAX as nat);
    reveal_with_fuel(ten_to, 11);
    lemma_digits_len(codepoint as nat, 10);
    match alternate {
        Some(v) => {
            let second = digits(v as nat);
            lemma_digits(v as nat);
            lemma_digits_hold_no(v as nat, 0x3a);
            lemma_digits_hold_no(v as nat, 0x3b);
            law_numbers_are_read_back(v as nat, u32::MAX as nat);
            lemma_digits_len(v as nat, 10);
            lemma_split_joined(first, 0x3a, second);
            lemma_split_whole(second, 0x3a);
            assert(bytes::split(whole, 0x3a) =~= seq![first, second]);
            assert forall|i: int| 0 <= i < whole.len() implies (bytes::is_digit(
                #[trigger] whole[i],
            ) || whole[i] == 0x3a) by {
                if i < first.len() {
                    assert(whole[i] == first[i]);
                } else if i > first.len() {
                    assert(whole[i] == second[i - first.len() - 1]);
                }
            }
        },
        None => {
            lemma_split_whole(first, 0x3a);
        },
    }
}

proof fn lemma_csi_u_body(codepoint: u32, alternate: Option<u32>, mask: Option<u8>)
    ensures
        plain(csi_u_body(codepoint, alternate, mask)),
        1 <= csi_u_body(codepoint, alternate, mask).len() < MAX_SEQ,
        bytes::split(csi_u_body(codepoint, alternate, mask), 0x3b)[0] == csi_u_codepoints(
            codepoint,
            alternate,
        ),
        parser::csi_u_modifiers(bytes::split(csi_u_body(codepoint, alternate, mask), 0x3b))
            == mask_bits(mask),
{
    let points = csi_u_codepoints(codepoint, alternate);
    let body = csi_u_body(codepoint, alternate, mask);
    lemma_codepoints(codepoint, alternate);
    match mask {
        Some(m) => {
            let last = digits(m as nat);
            lemma_digits(m as nat);
            lemma_digits_hold_no(m as nat, 0x3a);
            lemma_digits_hold_no(m as nat, 0x3b);
            law_numbers_are_read_back(m as nat, u8::MAX as nat);
            reveal_with_fuel(ten_to, 4);
            lemma_digits_len(m as nat, 3);
            assert forall|i: int| 0 <= i < body.len() implies bytes::is_digit(#[trigger] body[i])
                || body[i] == 0x3b || body[i] == 0x3a by {
                if i < points.len() {
                    assert(body[i] == points[i]);
                } else if i > points.len() {
                    assert(body[i] == last[i - points.len() - 1]);
                }
            }
            assert(body =~= points + seq![0x3bu8] + last);
            lemma_split_joined(points, 0x3b, last);
            lemma_split_whole(last, 0x3b);
            lemma_split_whole(last, 0x3a);
            assert(bytes::split(body, 0x3b) =~= seq![points, last]);
        },
        None => {
            assert(body =~= points);
            lemma_split_whole(points, 0x3b);
        },
    }
}

/// Every `CSI u` report, with or without a modifier field, is read back as the key that its code
/// point, its alternate code point and its shift and control bits stand for. All of the report's
/// bytes are consumed and none after them.
#[verifier::rlimit(40)]
pub proof fn law_csi_u_reports_are_read_back(
    codepoint: u32,
    alternate: Option<u32>,
    mask: Option<u8>,
    later: Seq<u8>,
)
    ensures
        parser::parse_of(csi_u_bytes(codepoint, alternate, mask) + later) == parser::a_key(
            parser::csi_u_key(
                codepoint as nat,
                alternate_char(alternate),
                mask_bits(mask) % 2 == 1,
                (mask_bits(mask) / 4) % 2 == 1,
            ),
            csi_u_bytes(codepoint, alternate, mask).len(),
        ),
{
    let body = csi_u_body(codepoint, alternate, mask);
    lemma_codepoints(codepoint, alternate);
    lemma_csi_u_body(codepoint, alternate, mask);
    lemma_plain_is_utf8(body);
    assert((body + seq![0x75u8])[0] == body[0]);
    parser_laws::law_control_sequences_are_read(0x5b, body, 0x75, later);
}

/// A letter held with the control key is the same key whether the terminal sends the control
/// byte or a `CSI u` report; the exceptions are the bytes of the backspace, tab and enter keys.
pub proof fn law_control_bytes_agree_with_csi_u(b: u8, later: Seq<u8>)
    requires
        1 <= b <= 26,
        b != 8 && b != 9 && b != 13,
    ensures
        parser::parse_of(seq![b] + later) == parser::a_key(
            parser::csi_u_key(parser::control_letter(b) as u32 as nat, None, false, true),
            1,
        ),
{
}

/// A character that stands for itself in `CSI u` is read as that character.
pub proof fn law_csi_u_characters(c: char)
    requires
        parser::csi_u_named(c as u32 as nat, false) is None,
    ensures
        parser::csi_u_key(c as u32 as nat, None, false, false) == Key::Char(c),
        parser::csi_u_key(c as u32 as nat, None, false, true) == Key::Ctrl(c),
{
    char_is_scalar(c);
}

} // verus!
