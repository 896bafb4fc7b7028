//! What reading a terminal does at each turn, and for how long.

use vstd::prelude::*;
use vstd::utf8::*;

use crate::bytes;
use crate::event;
use crate::event::{EventView, KeyCode, KeyEvent, KeyModifiers};
use crate::input;
use crate::input::{DrainStep, PollStep, ReadOutcome, ReadStep, ReadStepView, Wait, WaitStep};
use crate::input_laws;
use crate::parser;
use crate::parser::ParseView;
use crate::text;

verus! {

/// `ESC [ 200 ~`
pub open spec fn opening() -> Seq<u8> {
    seq![0x1bu8, '[' as u8, '2' as u8, '0' as u8, '0' as u8, '~' as u8]
}

/// `ESC [ 201 ~`
pub open spec fn closing() -> Seq<u8> {
    seq![0x1bu8, '[' as u8, '2' as u8, '0' as u8, '1' as u8, '~' as u8]
}

/// The closing bytes stand nowhere in `payload`.
pub open spec fn unclosed(payload: Seq<u8>) -> bool {
    forall|at: int| !bytes::occurs_at(payload, closing(), at)
}

/// The text of a paste: what was encoded, where it is UTF-8.
pub proof fn law_pasted_text(text: Seq<char>, payload: Seq<u8>)
    ensures
        input::paste_text(encode_utf8(text)) == text,
        !valid_utf8(payload) ==> input::paste_text(payload) == text::lossy_text(payload),
{
    reveal(input::paste_text);
    encode_utf8_valid_utf8(text);
    encode_utf8_decode_utf8(text);
}

/// A buffer is in a paste exactly where its first six bytes open one.
pub proof fn law_what_opens_a_paste(buf: Seq<u8>)
    ensures
        input::in_paste(buf) <==> buf.len() >= 6 && forall|i: int|
            0 <= i < 6 ==> buf[i] == #[trigger] opening()[i],
{
    if input::in_paste(buf) {
        assert forall|i: int| 0 <= i < 6 implies buf[i] == #[trigger] opening()[i] by {
            assert(buf.subrange(0, 6)[i] == buf[i]);
        }
    }
    if buf.len() >= 6 && forall|i: int| 0 <= i < 6 ==> buf[i] == #[trigger] opening()[i] {
        assert forall|i: int| 0 <= i < 6 implies #[trigger] buf[i] == input::paste_start()[i] by {
            assert(buf[i] == opening()[i]);
        }
        assert(buf.subrange(0, 6) =~= input::paste_start());
    }
}

proof fn lemma_markers()
    ensures
        input::paste_start() == opening(),
        input::paste_end() == closing(),
{
    assert(input::paste_start() =~= opening());
    assert(input::paste_end() =~= closing());
}

/// What is pasted is handed on as soon as it is closed, at whatever time; what is closed is the
/// bytes up to the first closing, and what comes after stays.
pub proof fn law_closed_pastes(payload: Seq<u8>, later: Seq<u8>, deadline: Option<u64>, now: u64)
    requires
        unclosed(payload),
    ensures
        ({
            let seen = input::look(opening() + payload + closing() + later, deadline, now);
            &&& seen.step == ReadStepView::Emit(EventView::Paste(input::paste_text(payload)))
            &&& seen.buf == later
        }),
{
    lemma_markers();
    input_laws::law_pastes_are_read_back(payload, later, deadline, now);
}

proof fn lemma_open_paste(payload: Seq<u8>, deadline: Option<u64>, now: u64)
    requires
        unclosed(payload),
    ensures
        input::in_paste(opening() + payload),
        input::look(opening() + payload, deadline, now) == input::look_at_paste(
            opening() + payload,
            deadline,
            now,
        ),
        (opening() + payload).skip(6) == payload,
        forall|at: int| !bytes::occurs_at(payload, input::paste_end(), at),
{
    lemma_markers();
    let buf = opening() + payload;
    assert(buf.skip(6) =~= payload);
    assert(input::in_paste(buf)) by {
        assert(buf.subrange(0, 6) =~= input::paste_start());
    }
    input_laws::lemma_look_in_a_paste(buf, deadline, now);
}

/// A paste that is not closed is waited for: half a second from the first look at it, or until the
/// deadline that was set. Its bytes stay in the buffer.
pub proof fn law_open_pastes_are_waited_for(payload: Seq<u8>, deadline: Option<u64>, now: u64)
    requires
        unclosed(payload),
        now + 500_000_000 <= u64::MAX,
        match deadline {
            Some(d) => now < d,
            None => true,
        },
    ensures
        ({
            let seen = input::look(opening() + payload, deadline, now);
            &&& seen.step == ReadStepView::Wait(Wait::Paste, 30)
            &&& seen.buf == opening() + payload
            &&& seen.deadline == (match deadline {
                Some(d) => Some(d),
                None => Some((now + 500_000_000) as u64),
            })
        }),
{
    lemma_open_paste(payload, deadline, now);
}

/// After its deadline, what there is of a paste is handed on, and nothing stays.
pub proof fn law_open_pastes_end_at_the_deadline(payload: Seq<u8>, deadline: u64, now: u64)
    requires
        unclosed(payload),
        now >= deadline,
    ensures
        ({
            let seen = input::look(opening() + payload, Some(deadline), now);
            &&& seen.step == ReadStepView::Emit(EventView::Paste(input::paste_text(payload)))
            &&& seen.buf == Seq::<u8>::empty()
        }),
{
    lemma_open_paste(payload, Some(deadline), now);
}

/// An empty buffer is waited for, for 30 milliseconds.
pub proof fn law_empty_buffers_are_waited_for(deadline: Option<u64>, now: u64)
    ensures
        ({
            let seen = input::look(Seq::empty(), deadline, now);
            &&& seen.step == ReadStepView::Wait(Wait::Empty, 30)
            &&& seen.buf == Seq::<u8>::empty()
            &&& seen.deadline == deadline
        }),
{
}

/// Outside a paste, what the front of the buffer stands for is handed on and its bytes are taken
/// out; where more bytes are needed, they are waited for, for 30 milliseconds. Either way no paste
/// deadline is left.
pub proof fn law_looks_outside_a_paste(buf: Seq<u8>, deadline: Option<u64>, now: u64)
    requires
        buf.len() > 0,
        !input::in_paste(buf),
    ensures
        ({
            let seen = input::look(buf, deadline, now);
            &&& seen.deadline is None
            &&& match parser::parse_of(buf) {
                ParseView::NeedMore => seen.step == ReadStepView::Wait(Wait::Partial, 30)
                    && seen.buf == buf,
                ParseView::Event(parsed, len) => {
                    &&& seen.step == ReadStepView::Emit(event::event_of(parsed))
                    &&& seen.buf == buf.skip(len as int)
                },
            }
        }),
{
}

/// A wait that ended with input hands nothing on and takes nothing out. A paste gets half a second
/// more, from the time at which the wait ended; nothing else changes a deadline.
pub proof fn law_waits_that_end_with_input(
    wait: Wait,
    buf: Seq<u8>,
    deadline: Option<u64>,
    now: u64,
)
    requires
        now + 500_000_000 <= u64::MAX,
    ensures
        input::after_wait(wait, true, buf) is None,
        input::buf_after_wait(wait, true, buf) == buf,
        input::deadline_after_wait(wait, true, deadline, now) == (match wait {
            Wait::Paste => Some((now + 500_000_000) as u64),
            _ => deadline,
        }),
{
}

/// A key press without a modifier key.
pub open spec fn plain(code: KeyCode) -> EventView {
    EventView::Key(
        KeyEvent { code, modifiers: KeyModifiers { shift: false, control: false, alt: false } },
    )
}

/// A wait that ended without input changes no deadline. On an idle terminal it hands on a null key;
/// a paste goes on; and of an event whose rest did not come, the first byte is taken out and
/// handed on, as the escape key if it is the escape byte, and replaced if it is not.
pub proof fn law_waits_that_end_without_input(
    first: u8,
    rest: Seq<u8>,
    buf: Seq<u8>,
    deadline: Option<u64>,
    now: u64,
    wait: Wait,
)
    ensures
        input::deadline_after_wait(wait, false, deadline, now) == deadline,
        input::after_wait(Wait::Empty, false, buf) == Some(plain(KeyCode::Null)),
        input::buf_after_wait(Wait::Empty, false, buf) == buf,
        input::after_wait(Wait::Paste, false, buf) is None,
        input::buf_after_wait(Wait::Paste, false, buf) == buf,
        input::buf_after_wait(Wait::Partial, false, seq![first] + rest) == rest,
        first == 0x1b ==> input::after_wait(Wait::Partial, false, seq![first] + rest) == Some(
            plain(KeyCode::Esc),
        ),
        first != 0x1b ==> input::after_wait(Wait::Partial, false, seq![first] + rest) == Some(
            plain(KeyCode::Char('\u{fffd}')),
        ),
{
    assert((seq![first] + rest).skip(1) =~= rest);
    assert((seq![first] + rest)[0] == first);
}

/// A read brings as many bytes as it says, from the front of what it was read into, and none where
/// it failed.
pub proof fn law_what_a_read_brings(front: Seq<u8>, back: Seq<u8>, n: usize)
    requires
        front.len() == n,
    ensures
        input::bytes_read(front + back, ReadOutcome::Read(n)) == front,
        input::bytes_read(front, ReadOutcome::WouldBlock).len() == 0,
        input::bytes_read(front, ReadOutcome::Interrupted).len() == 0,
        input::bytes_read(front, ReadOutcome::Failed).len() == 0,
{
    assert((front + back).take(n as int) =~= front);
}

/// Reading goes on after bytes and after a signal, ends where there is nothing more for now, and
/// fails with any other error.
pub proof fn law_what_follows_a_read(n: usize)
    ensures
        input::drain_step(ReadOutcome::Read(n)) == DrainStep::Done <==> n == 0,
        input::drain_step(ReadOutcome::Read(n)) == DrainStep::Again <==> n > 0,
        input::drain_step(ReadOutcome::WouldBlock) == DrainStep::Done,
        input::drain_step(ReadOutcome::Interrupted) == DrainStep::Again,
        input::drain_step(ReadOutcome::Failed) == DrainStep::Fail,
{
}

/// A timeout that fits is the timeout; a longer one is the longest that fits.
pub proof fn law_poll_timeouts(millis: u128)
    ensures
        0 <= input::poll_timeout_of(millis) <= 2147483647,
        millis <= 2147483647 ==> input::poll_timeout_of(millis) == millis,
        millis > 2147483647 ==> input::poll_timeout_of(millis) == 2147483647,
{
}

/// An event can be read at once exactly where bytes are buffered; a terminal without any is waited
/// on for the time given, and one that is not there is opened.
pub proof fn law_polls(buf: Seq<u8>, millis: u128)
    ensures
        input::poll_of(None, millis) == PollStep::Open,
        buf.len() > 0 ==> input::poll_of(Some(buf), millis) == PollStep::Ready,
        buf.len() == 0 && millis <= 2147483647 ==> input::poll_of(Some(buf), millis)
            == PollStep::Wait(millis as i32),
        buf.len() == 0 && millis > 2147483647 ==> input::poll_of(Some(buf), millis)
            == PollStep::Wait(2147483647),
{
}

/// The call that waits found input exactly where it reports something ready and that has the bit
/// that stands for input; a call that failed is made again after a signal, and no other error is
/// passed over.
pub proof fn law_waiting_on_the_terminal(rc: i32, revents: i16, pollin: i16, interrupted: bool)
    ensures
        rc > 0 && revents & pollin != 0 ==> input::wait_step(rc, revents, pollin, interrupted)
            == WaitStep::Done(true),
        rc > 0 && revents & pollin == 0 ==> input::wait_step(rc, revents, pollin, interrupted)
            == WaitStep::Done(false),
        rc == 0 ==> input::wait_step(rc, revents, pollin, interrupted) == WaitStep::Done(false),
        rc < 0 && interrupted ==> input::wait_step(rc, revents, pollin, interrupted)
            == WaitStep::Again,
        rc < 0 && !interrupted ==> input::wait_step(rc, revents, pollin, interrupted)
            == WaitStep::Fail,
{
}

/// What is said of steps is said of their own fields.
pub proof fn law_step_views(event: event::Event, wait: Wait, millis: i32)
    ensures
        ReadStep::Open@ == ReadStepView::Open,
        ReadStep::Emit(event)@ == ReadStepView::Emit(event@),
        ReadStep::Wait(wait, millis)@ == ReadStepView::Wait(wait, millis),
{
}

} // verus!
