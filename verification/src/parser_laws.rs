//! What holds of the terminal protocol as a whole.

use vstd::prelude::*;
use vstd::utf8::*;

use crate::bytes;
use crate::event::{Key, ParsedView};
use crate::parser;
use crate::parser::{ParseView, MAX_SEQ};

verus! {

/// An event takes up at least one byte, and no more than there are.
pub proof fn law_event_takes_up_bytes_of_the_buffer(buf: Seq<u8>)
    requires
        buf.len() > 0,
    ensures
        parser::parse_of(buf) matches ParseView::Event(_, len) ==> 1 <= len <= buf.len(),
{
    if buf[0] == 0x1b && buf.len() >= 2 {
        if buf.len() >= 3 {
            bytes::lemma_first_where(buf.skip(3), parser::sgr_final());
        }
        bytes::lemma_first_where(parser::csi_window(buf), parser::csi_final());
    }
}

/// Once the front of the buffer is an event, bytes that arrive later do not change it.
pub proof fn law_later_bytes_change_no_event(buf: Seq<u8>, later: Seq<u8>)
    requires
        buf.len() > 0,
        parser::parse_of(buf) !is NeedMore,
    ensures
        parser::parse_of(buf + later) == parser::parse_of(buf),
{
    let all = buf + later;
    if buf[0] >= 0x80 {
        let width = parser::utf8_width(buf[0]) as int;
        assert(all.take(width) =~= buf.take(width));
    } else if buf[0] == 0x1b && buf.len() >= 2 {
        if buf[1] == 0x5b && buf.len() > 2 && buf[2] == 0x3c {
            bytes::lemma_first_where(buf.skip(3), parser::sgr_final());
            let offset = bytes::first_where(buf.skip(3), parser::sgr_final())->0;
            assert forall|j: int| 0 <= j <= offset implies all.skip(3)[j] == #[trigger] buf.skip(
                3,
            )[j] by {}
            assert forall|j: int| 0 <= j < offset implies !parser::sgr_final()(
                #[trigger] all.skip(3)[j],
            ) by {
                assert(!parser::sgr_final()(buf.skip(3)[j]));
            }
            assert(parser::sgr_final()(buf.skip(3)[offset]));
            bytes::lemma_first_where_is(all.skip(3), parser::sgr_final(), offset);
            assert(all.subrange(3, offset + 3) =~= buf.subrange(3, offset + 3));
        } else if buf[1] == 0x5b || buf[1] == 0x4f {
            if !(buf[1] == 0x5b && buf.len() > 2 && buf[2] == 0x4d) {
                let window = parser::csi_window(buf);
                let wider = parser::csi_window(all);
                bytes::lemma_first_where(window, parser::csi_final());
                match bytes::first_where(window, parser::csi_final()) {
                    Some(offset) => {
                        assert forall|j: int| 0 <= j <= offset implies wider[j]
                            == #[trigger] window[j] by {}
                        assert forall|j: int| 0 <= j < offset implies !parser::csi_final()(
                            #[trigger] wider[j],
                        ) by {
                            assert(!parser::csi_final()(window[j]));
                        }
                        assert(parser::csi_final()(window[offset]));
                        bytes::lemma_first_where_is(wider, parser::csi_final(), offset);
                        assert(all.subrange(2, offset + 2) =~= buf.subrange(2, offset + 2));
                    },
                    None => {
                        assert(wider =~= window);
                    },
                }
            }
        }
    }
}

/// Only an escape sequence or a character outside ASCII can be incomplete; a character is so
/// with fewer than four bytes, and a sequence within the limit on its length, unless it is an
/// SGR mouse report whose final letter has not come.
pub proof fn law_what_can_be_incomplete(buf: Seq<u8>)
    requires
        buf.len() > 0,
        parser::parse_of(buf) is NeedMore,
    ensures
        buf[0] == 0x1b || buf[0] >= 0x80,
        buf[0] >= 0x80 ==> buf.len() < 4,
        buf[0] == 0x1b ==> buf.len() < 2 + MAX_SEQ || (buf[1] == 0x5b && buf[2] == 0x3c
            && forall|i: int| 3 <= i < buf.len() ==> #[trigger] buf[i] != 0x4d && buf[i] != 0x6d),
{
    if buf[0] == 0x1b && buf.len() >= 2 + MAX_SEQ {
        bytes::lemma_first_where(buf.skip(3), parser::sgr_final());
        assert forall|i: int| 3 <= i < buf.len() implies #[trigger] buf[i] != 0x4d && buf[i]
            != 0x6d by {
            assert(!parser::sgr_final()(buf.skip(3)[i - 3]));
        }
    }
}

/// The escape key, which cancels the search, is read only off an escape byte that begins no
/// control sequence: the next byte is neither `[` nor `O`, or no last byte comes within the
/// limit. The one control sequence that is the escape key is `CSI u` with the code point of
/// escape. So no complete report that is not known can cancel the search.
#[verifier::rlimit(40)]
pub proof fn law_what_is_read_as_the_escape_key(buf: Seq<u8>, len: nat)
    requires
        buf.len() > 0,
        parser::parse_of(buf) == parser::a_key(Key::Esc, len),
    ensures
        buf[0] == 0x1b,
        buf.len() >= 2,
        len == 1 ==> {
            ||| buf[1] != 0x5b && buf[1] != 0x4f
            ||| buf.len() >= 2 + MAX_SEQ && forall|i: int|
                2 <= i < 2 + MAX_SEQ ==> !(0x40 <= #[trigger] buf[i] <= 0x7e)
        },
        len != 1 ==> {
            &&& 3 <= len <= buf.len()
            &&& buf[1] == 0x5b || buf[1] == 0x4f
            &&& buf[len - 1] == 0x75
            &&& bytes::decimal(
                bytes::split(bytes::split(buf.subrange(2, len - 1), 0x3b)[0], 0x3a)[0],
                u32::MAX as nat,
            ) == Some(27nat)
        },
{
    bytes::lemma_first_where(buf.skip(3), parser::sgr_final());
    if buf.len() >= 2 {
        let window = parser::csi_window(buf);
        bytes::lemma_first_where(window, parser::csi_final());
        if buf.len() >= 2 + MAX_SEQ && bytes::first_where(window, parser::csi_final()) is None {
            assert forall|i: int| 2 <= i < 2 + MAX_SEQ implies !(0x40 <= #[trigger] buf[i]
                <= 0x7e) by {
                assert(!parser::csi_final()(window[i - 2]));
            }
        }
    }
}

/// A complete control sequence is read as the key that its body and its last byte stand for,
/// after `ESC [` and `ESC O` alike, and takes up all of its bytes and none after them. Mouse
/// reports are the exception: `ESC [ M` and `ESC [ <`.
pub proof fn law_control_sequences_are_read(intro: u8, body: Seq<u8>, last: u8, later: Seq<u8>)
    requires
        intro == 0x5b || intro == 0x4f,
        body.len() < MAX_SEQ,
        forall|i: int| 0 <= i < body.len() ==> !(0x40 <= #[trigger] body[i] <= 0x7e),
        0x40 <= last <= 0x7e,
        intro == 0x5b ==> (body + seq![last])[0] != 0x4d && (body + seq![last])[0] != 0x3c,
    ensures
        parser::parse_of(seq![0x1b, intro] + body + seq![last] + later) == parser::a_key(
            parser::csi_key(body, last),
            body.len() + 3,
        ),
{
    let buf = seq![0x1b, intro] + body + seq![last] + later;
    let n = body.len() as int;
    let window = parser::csi_window(buf);
    assert forall|j: int| 0 <= j < n implies !parser::csi_final()(#[trigger] window[j]) by {
        assert(window[j] == body[j]);
    }
    assert(window[n] == last);
    bytes::lemma_first_where_is(window, parser::csi_final(), n);
    assert(buf.subrange(2, n + 2) =~= body);
    assert(buf[2] == (body + seq![last])[0]);
}

/// A mouse report is a mouse event, or a null key where it cannot be read; it is never taken
/// for a key press.
pub proof fn law_mouse_reports_press_no_key(buf: Seq<u8>)
    requires
        buf.len() >= 3,
        buf[0] == 0x1b,
        buf[1] == 0x5b,
        buf[2] == 0x4d || buf[2] == 0x3c,
    ensures
        match parser::parse_of(buf) {
            ParseView::NeedMore => true,
            ParseView::Event(ParsedView::Mouse(_), _) => true,
            ParseView::Event(ParsedView::Key(key), _) => key == Key::Null,
            ParseView::Event(ParsedView::Paste(_), _) => false,
        },
{
}

/// How the UTF-8 encoding of one character begins, and how long it is.
pub proof fn lemma_encoded_char(c: char)
    ensures
        encode_utf8(seq![c]).len() >= 1,
        (c as u32) < 0x80 ==> encode_utf8(seq![c]).len() == 1 && encode_utf8(seq![c])[0] as char == c,
        c as u32 >= 0x80 ==> {
            &&& encode_utf8(seq![c])[0] >= 0x80
            &&& parser::utf8_width(encode_utf8(seq![c])[0]) == encode_utf8(seq![c]).len()
        },
{
    let text = seq![c];
    let encoded = encode_utf8(text);
    assert(text.drop_first() =~= Seq::<char>::empty());
    reveal_with_fuel(encode_utf8, 2);
    assert(encoded =~= encode_scalar(c as u32));
    encode_utf8_first_scalar(text);
    char_is_scalar(c);
    if c as u32 >= 0x80 {
        assert(encoded.len() == length_of_first_scalar(encoded));
        assert(encoded[0] >= 0x80);
    } else {
        assert(is_ascii_chars(text));
        is_ascii_chars_encode_utf8(text);
        assert(text[0] as u8 == encoded[0]);
    }
}

/// Every printable ASCII character, and every character outside ASCII, is read back from its
/// UTF-8 encoding, whatever comes after it.
pub proof fn law_characters_are_read_back(c: char, later: Seq<u8>)
    requires
        ' ' <= c <= '~' || c as u32 >= 0x80,
    ensures
        parser::parse_of(encode_utf8(seq![c]) + later) == parser::a_key(
            Key::Char(c),
            encode_utf8(seq![c]).len(),
        ),
{
    let text = seq![c];
    let encoded = encode_utf8(text);
    let buf = encoded + later;
    lemma_encoded_char(c);
    encode_utf8_valid_utf8(text);
    encode_utf8_decode_utf8(text);
    assert(buf[0] == encoded[0]);
    if c as u32 >= 0x80 {
        assert(buf.take(encoded.len() as int) =~= encoded);
    }
}

} // verus!
