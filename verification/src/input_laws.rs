//! What holds of reading events from the terminal.

use vstd::prelude::*;
use vstd::utf8::*;

use crate::bytes;
use crate::event::{self, EventView, Key};
use crate::input;
use crate::input::{Look, ReadStepView, Wait, PASTE_TIMEOUT};
use crate::parser;
use crate::parser_laws;

verus! {

/// A look that hands an event on takes bytes off the front of the buffer; a look that waits
/// leaves the buffer as it is.
pub proof fn law_looks_make_progress(buf: Seq<u8>, deadline: Option<u64>, now: u64)
    ensures
        ({
            let seen = input::look(buf, deadline, now);
            match seen.step {
                ReadStepView::Open => false,
                ReadStepView::Emit(_) => seen.buf.len() < buf.len() && seen.buf == buf.skip(
                    buf.len() - seen.buf.len(),
                ),
                ReadStepView::Wait(_, _) => seen.buf == buf,
            }
        }),
{
    let seen = input::look(buf, deadline, now);
    if buf.len() > 0 {
        if input::in_paste(buf) {
            let rest = buf.skip(6);
            if exists|at: int| bytes::first_occurrence(rest, input::paste_end(), at) {
                let at = choose|at: int| bytes::first_occurrence(rest, input::paste_end(), at);
                assert(seen.buf =~= buf.skip(at + 12));
            } else if seen.step is Emit {
                assert(seen.buf =~= buf.skip(buf.len() as int));
            }
        } else {
            parser_laws::law_event_takes_up_bytes_of_the_buffer(buf);
        }
    }
}

/// A bracketed paste triggers no key: it is handed on as text, or waited for.
pub proof fn law_pastes_press_no_key(buf: Seq<u8>, deadline: Option<u64>, now: u64)
    requires
        input::in_paste(buf),
    ensures
        match input::look(buf, deadline, now).step {
            ReadStepView::Emit(EventView::Paste(_)) => true,
            ReadStepView::Wait(wait, _) => wait == Wait::Paste,
            _ => false,
        },
{
}

pub proof fn lemma_look_in_a_paste(buf: Seq<u8>, deadline: Option<u64>, now: u64)
    requires
        input::in_paste(buf),
    ensures
        buf.len() >= 6,
        input::look(buf, deadline, now) == input::look_at_paste(buf, deadline, now),
{
}

/// What a look at a complete paste does, by where its end is.
proof fn lemma_look_at_complete_paste(buf: Seq<u8>, at: int, deadline: Option<u64>, now: u64)
    requires
        bytes::first_occurrence(buf.skip(6), input::paste_end(), at),
    ensures
        input::look_at_paste(buf, deadline, now) == (Look {
            step: ReadStepView::Emit(EventView::Paste(input::paste_text(buf.skip(6).take(at)))),
            buf: buf.skip(6).skip(at + 6),
            deadline: Some(input::deadline_at(deadline, now)),
        }),
{
    let rest = buf.skip(6);
    let chosen = choose|k: int| bytes::first_occurrence(rest, input::paste_end(), k);
    bytes::lemma_first_occurrence_unique(rest, input::paste_end(), at, chosen);
}

/// Where the end of a paste is whose payload does not hold the end marker.
proof fn lemma_end_of_a_paste(payload: Seq<u8>, later: Seq<u8>)
    requires
        forall|at: int| !bytes::occurs_at(payload, input::paste_end(), at),
    ensures
        ({
            let rest = payload + input::paste_end() + later;
            let n = payload.len() as int;
            &&& (input::paste_start() + payload + input::paste_end() + later).skip(6) == rest
            &&& bytes::first_occurrence(rest, input::paste_end(), n)
            &&& rest.take(n) == payload
            &&& rest.skip(n + 6) == later
        }),
{
    let rest = payload + input::paste_end() + later;
    let n = payload.len() as int;
    assert((input::paste_start() + payload + input::paste_end() + later).skip(6) =~= rest);
    bytes::lemma_found_after(payload, input::paste_end(), later);
    assert(rest.take(n) =~= payload);
    assert(rest.skip(n + 6) =~= later);
}

/// A complete paste whose payload does not hold the end marker is handed on as its text, at
/// whatever time and whatever its bytes are, and the input after it stays.
pub proof fn law_pastes_are_read_back(
    payload: Seq<u8>,
    later: Seq<u8>,
    deadline: Option<u64>,
    now: u64,
)
    requires
        forall|at: int| !bytes::occurs_at(payload, input::paste_end(), at),
    ensures
        input::look(
            input::paste_start() + payload + input::paste_end() + later,
            deadline,
            now,
        ) == (Look {
            step: ReadStepView::Emit(EventView::Paste(input::paste_text(payload))),
            buf: later,
            deadline: Some(input::deadline_at(deadline, now)),
        }),
{
    let buf = input::paste_start() + payload + input::paste_end() + later;
    assert(input::in_paste(buf)) by {
        assert(buf.subrange(0, 6) =~= input::paste_start());
    }
    lemma_look_in_a_paste(buf, deadline, now);
    lemma_end_of_a_paste(payload, later);
    lemma_look_at_complete_paste(buf, payload.len() as int, deadline, now);
}

/// Text that is pasted as UTF-8 arrives unchanged.
pub proof fn law_pasted_text_arrives_unchanged(
    text: Seq<char>,
    later: Seq<u8>,
    deadline: Option<u64>,
    now: u64,
)
    requires
        forall|at: int| !bytes::occurs_at(encode_utf8(text), input::paste_end(), at),
    ensures
        ({
            let buf = input::paste_start() + encode_utf8(text) + input::paste_end() + later;
            let seen = input::look(buf, deadline, now);
            seen.step == ReadStepView::Emit(EventView::Paste(text)) && seen.buf == later
        }),
{
    reveal(input::paste_text);
    law_pastes_are_read_back(encode_utf8(text), later, deadline, now);
    encode_utf8_valid_utf8(text);
    encode_utf8_decode_utf8(text);
}

/// A paste for which input came at `came` is not cut short for the length of the timeout after
/// that, however long it has been going on.
pub proof fn law_slow_pastes_are_not_cut_short(buf: Seq<u8>, came: u64, now: u64)
    requires
        input::in_paste(buf),
        forall|at: int| !bytes::occurs_at(buf.skip(6), input::paste_end(), at),
        came + PASTE_TIMEOUT <= u64::MAX,
        now < came + PASTE_TIMEOUT,
    ensures
        input::look(buf, Some((came + PASTE_TIMEOUT) as u64), now).step == input::waiting(
            Wait::Paste,
        ),
{
}

/// Nothing is handed on off an empty buffer.
pub proof fn lemma_empty_waits(deadline: Option<u64>, now: u64)
    ensures
        input::look(Seq::empty(), deadline, now).step == input::waiting(Wait::Empty),
{
}

/// A paste whose end has not come is waited for until its deadline.
pub proof fn lemma_unfinished_paste_waits(buf: Seq<u8>, deadline: Option<u64>, now: u64)
    requires
        input::in_paste(buf),
        forall|at: int| !bytes::occurs_at(buf.skip(6), input::paste_end(), at),
        now < input::deadline_at(deadline, now),
    ensures
        input::look(buf, deadline, now).step == input::waiting(Wait::Paste),
{
    lemma_look_in_a_paste(buf, deadline, now);
}

/// A paste whose end does not come is handed on, as far as it came, once its deadline has passed,
/// and nothing of it is left behind to be taken for keys.
pub proof fn law_truncated_pastes_are_handed_on(buf: Seq<u8>, deadline: u64, now: u64)
    requires
        input::in_paste(buf),
        forall|at: int| !bytes::occurs_at(buf.skip(6), input::paste_end(), at),
        now >= deadline,
    ensures
        input::look(buf, Some(deadline), now) == (Look {
            step: ReadStepView::Emit(EventView::Paste(input::paste_text(buf.skip(6)))),
            buf: Seq::empty(),
            deadline: Some(deadline),
        }),
{
}

/// Bytes that could become the start of a paste are no event yet.
proof fn lemma_beginning_of_a_paste(buf: Seq<u8>, later: Seq<u8>)
    requires
        buf.len() > 0,
        !input::in_paste(buf),
        input::in_paste(buf + later),
    ensures
        parser::parse_of(buf) is NeedMore,
{
    let all = buf + later;
    let start = input::paste_start();
    assert(all.subrange(0, 6) =~= start);
    assert forall|i: int| 0 <= i < 6 && i < buf.len() implies #[trigger] buf[i] == start[i] by {
        assert(all.subrange(0, 6)[i] == all[i]);
    }
    assert(buf.len() < 6) by {
        if buf.len() >= 6 {
            assert(buf.subrange(0, 6) =~= start);
        }
    }
    if buf.len() >= 2 {
        let window = parser::csi_window(buf);
        assert forall|j: int| 0 <= j < window.len() implies !parser::csi_final()(
            #[trigger] window[j],
        ) by {
            assert(window[j] == buf[j + 2]);
        }
        bytes::lemma_first_where_none(window, parser::csi_final());
    }
}

/// Events do not depend on how the input is cut into reads: an event that is not a paste is the
/// same when more input is there already, and that input stays in the buffer.
pub proof fn law_reads_may_be_cut_anywhere(
    buf: Seq<u8>,
    later: Seq<u8>,
    deadline: Option<u64>,
    now: u64,
)
    requires
        !input::in_paste(buf),
        input::look(buf, deadline, now).step is Emit,
    ensures
        ({
            let early = input::look(buf, deadline, now);
            let late = input::look(buf + later, deadline, now);
            late.step == early.step && late.buf == early.buf + later
        }),
{
    let len = parser::parse_of(buf)->Event_1 as int;
    parser_laws::law_later_bytes_change_no_event(buf, later);
    parser_laws::law_event_takes_up_bytes_of_the_buffer(buf);
    if input::in_paste(buf + later) {
        lemma_beginning_of_a_paste(buf, later);
    }
    assert((buf + later).skip(len) =~= buf.skip(len) + later);
}

/// What a look at a complete paste does when more input is there.
proof fn lemma_input_after_a_paste_stays(
    buf: Seq<u8>,
    later: Seq<u8>,
    deadline: Option<u64>,
    now: u64,
    some: int,
)
    requires
        buf.len() >= 6,
        bytes::occurs_at(buf.skip(6), input::paste_end(), some),
    ensures
        ({
            let early = input::look_at_paste(buf, deadline, now);
            let late = input::look_at_paste(buf + later, deadline, now);
            &&& early.step is Emit
            &&& late.step == early.step
            &&& late.buf == early.buf + later
        }),
{
    let all = buf + later;
    let rest = buf.skip(6);
    let end = input::paste_end();
    bytes::lemma_some_first_occurrence(rest, end, some);
    let at = choose|at: int| bytes::first_occurrence(rest, end, at);
    assert(all.skip(6) =~= rest + later);
    bytes::lemma_first_occurrence_before(rest, later, end, at);
    lemma_look_at_complete_paste(buf, at, deadline, now);
    lemma_look_at_complete_paste(all, at, deadline, now);
    assert((rest + later).take(at) =~= rest.take(at));
    assert((rest + later).skip(at + 6) =~= rest.skip(at + 6) + later);
}

/// A complete paste is the same when more input is there already, and that input stays in the
/// buffer.
pub proof fn law_input_after_a_paste_stays(
    buf: Seq<u8>,
    later: Seq<u8>,
    deadline: Option<u64>,
    now: u64,
)
    requires
        input::in_paste(buf),
        exists|at: int| bytes::occurs_at(buf.skip(6), input::paste_end(), at),
    ensures
        ({
            let early = input::look(buf, deadline, now);
            let late = input::look(buf + later, deadline, now);
            &&& early.step is Emit
            &&& late.step == early.step
            &&& late.buf == early.buf + later
        }),
{
    let some = choose|at: int| bytes::occurs_at(buf.skip(6), input::paste_end(), at);
    assert(input::in_paste(buf + later)) by {
        assert((buf + later).subrange(0, 6) =~= buf.subrange(0, 6));
    }
    lemma_look_in_a_paste(buf, deadline, now);
    lemma_look_in_a_paste(buf + later, deadline, now);
    lemma_input_after_a_paste_stays(buf, later, deadline, now, some);
}

/// An incomplete event whose rest does not come is given up byte by byte: an escape byte is the
/// escape key, and any other byte the replacement character, which it takes to be the beginning
/// of a character outside ASCII.
pub proof fn law_incomplete_events_are_given_up(buf: Seq<u8>, deadline: Option<u64>, now: u64)
    requires
        input::look(buf, deadline, now).step == input::waiting(Wait::Partial),
    ensures
        buf.len() > 0,
        parser::parse_of(buf) is NeedMore,
        input::after_wait(Wait::Partial, false, buf) == Some(
            EventView::Key(
                event::key_event_of(
                    if buf[0] == 0x1b {
                        Key::Esc
                    } else {
                        Key::Char('\u{fffd}')
                    },
                ),
            ),
        ),
        buf[0] == 0x1b || buf[0] >= 0x80,
{
    if buf.len() > 0 && !input::in_paste(buf) {
        if parser::parse_of(buf) is NeedMore {
            parser_laws::law_what_can_be_incomplete(buf);
        }
    }
}

} // verus!
