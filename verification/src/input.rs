//! The terminal as a source of events.
//!
//! The caller does the reading and the waiting; what is decided between two system calls is
//! decided here. Times are nanoseconds since some fixed moment.

use vstd::prelude::*;
use vstd::slice::slice_subrange;
use vstd::utf8::*;

use crate::bytes;
use crate::event::{self, Event, EventView, Key, Parsed, ParsedView};
use crate::parser::{self, Parse, ParseView};
use crate::parser_laws;
use crate::text;

verus! {

/// How long to keep collecting a bracketed paste before a part of it is handed on. The terminal
/// normally delivers the whole payload in one read; this only guards against a truncated
/// sequence.
pub const PASTE_TIMEOUT: u64 = 500_000_000;

/// How long to wait for the rest of an event.
pub const PARTIAL_WAIT: u64 = 30_000_000;

/// How many nanoseconds a millisecond has.
pub const NANOS_PER_MILLI: u64 = 1_000_000;

/// An open terminal: its handle, and the bytes read from it that are no event yet.
pub struct Input<F> {
    pub file: F,
    pub buf: Vec<u8>,
}

/// The bytes before a bracketed paste: `ESC [ 200 ~`.
pub open spec fn paste_start() -> Seq<u8> {
    seq![0x1b, 0x5b, 0x32, 0x30, 0x30, 0x7e]
}

/// The bytes after a bracketed paste: `ESC [ 201 ~`.
pub open spec fn paste_end() -> Seq<u8> {
    seq![0x1b, 0x5b, 0x32, 0x30, 0x31, 0x7e]
}

/// The buffer begins with a bracketed paste.
pub open spec fn in_paste(buf: Seq<u8>) -> bool {
    paste_start().is_prefix_of(buf)
}

/// The text of a paste: the payload decoded, or, where it is not valid UTF-8, decoded with
/// replacement characters.
#[verifier::opaque]
pub open spec fn paste_text(payload: Seq<u8>) -> Seq<char> {
    if valid_utf8(payload) {
        decode_utf8(payload)
    } else {
        text::lossy_text(payload)
    }
}

/// What the reader is waiting for.
#[derive(Debug, Clone, Copy, PartialEq, Eq, Structural)]
pub enum Wait {
    /// Any input.
    Empty,
    /// The end of a bracketed paste.
    Paste,
    /// The rest of an event.
    Partial,
}

/// What has to happen next to read an event.
#[derive(Debug, PartialEq, Eq)]
pub enum ReadStep {
    /// The terminal has to be opened.
    Open,
    /// Nothing: here is the event.
    Emit(Event),
    /// Wait for input, no longer than this many milliseconds.
    Wait(Wait, i32),
}

/// The mathematical value of a [`ReadStep`].
pub enum ReadStepView {
    Open,
    Emit(EventView),
    Wait(Wait, i32),
}

impl View for ReadStep {
    type V = ReadStepView;

    open spec fn view(&self) -> ReadStepView {
        match self {
            ReadStep::Open => ReadStepView::Open,
            ReadStep::Emit(event) => ReadStepView::Emit(event@),
            ReadStep::Wait(wait, millis) => ReadStepView::Wait(*wait, *millis),
        }
    }
}

/// The step that waits for input: no longer than [`PARTIAL_WAIT`], whatever is waited for.
pub open spec fn waiting(wait: Wait) -> ReadStepView {
    ReadStepView::Wait(wait, poll_timeout_of((PARTIAL_WAIT / NANOS_PER_MILLI) as u128))
}

fn wait_for(wait: Wait) -> (step: ReadStep)
    ensures
        step@ == waiting(wait),
{
    ReadStep::Wait(wait, poll_timeout((PARTIAL_WAIT / NANOS_PER_MILLI) as u128))
}

/// One call that reads an event.
pub struct ReadCall {
    /// When a paste that has begun is handed on, complete or not.
    pub paste_deadline: Option<u64>,
}

impl ReadCall {
    /// A call that has seen nothing yet.
    pub fn new() -> (call: ReadCall)
        ensures
            call.paste_deadline is None,
    {
        ReadCall { paste_deadline: None }
    }
}

/// What one look at the buffer does.
pub struct Look {
    pub step: ReadStepView,
    /// The buffer afterwards.
    pub buf: Seq<u8>,
    /// The paste deadline afterwards.
    pub deadline: Option<u64>,
}

/// The deadline that holds for a paste: the one that was set, or one set now.
pub open spec fn deadline_at(deadline: Option<u64>, now: u64) -> u64 {
    match deadline {
        Some(d) => d,
        None => (now + PASTE_TIMEOUT) as u64,
    }
}

/// What a look at a buffer that begins with a paste does. A complete paste is handed on; after
/// the deadline, so is what there is of it.
pub open spec fn look_at_paste(buf: Seq<u8>, deadline: Option<u64>, now: u64) -> Look {
    let rest = buf.skip(6);
    let d = deadline_at(deadline, now);
    if exists|at: int| bytes::first_occurrence(rest, paste_end(), at) {
        let at = choose|at: int| bytes::first_occurrence(rest, paste_end(), at);
        Look {
            step: ReadStepView::Emit(EventView::Paste(paste_text(rest.take(at)))),
            buf: rest.skip(at + 6),
            deadline: Some(d),
        }
    } else if now >= d {
        Look {
            step: ReadStepView::Emit(EventView::Paste(paste_text(rest))),
            buf: Seq::empty(),
            deadline: Some(d),
        }
    } else {
        Look { step: waiting(Wait::Paste), buf, deadline: Some(d) }
    }
}

/// What a look at the buffer does.
pub open spec fn look(buf: Seq<u8>, deadline: Option<u64>, now: u64) -> Look {
    if buf.len() == 0 {
        Look { step: waiting(Wait::Empty), buf, deadline }
    } else if in_paste(buf) {
        look_at_paste(buf, deadline, now)
    } else {
        match parser::parse_of(buf) {
            ParseView::Event(parsed, len) => Look {
                step: ReadStepView::Emit(event::event_of(parsed)),
                buf: buf.skip(len as int),
                deadline: None,
            },
            ParseView::NeedMore => Look {
                step: waiting(Wait::Partial),
                buf,
                deadline: None,
            },
        }
    }
}

/// The key that stands for the first byte of an event whose rest never came.
pub open spec fn fallback_key(first: u8) -> Key {
    if first == 0x1b {
        Key::Esc
    } else {
        Key::Char('\u{fffd}')
    }
}

/// What is handed on after a wait, if anything is.
pub open spec fn after_wait(wait: Wait, readable: bool, buf: Seq<u8>) -> Option<EventView> {
    if readable {
        None
    } else {
        match wait {
            Wait::Empty => Some(EventView::Key(event::key_event_of(Key::Null))),
            Wait::Paste => None,
            Wait::Partial => Some(EventView::Key(event::key_event_of(fallback_key(buf[0])))),
        }
    }
}

/// The buffer after a wait: an event whose rest never came loses its first byte.
pub open spec fn buf_after_wait(wait: Wait, readable: bool, buf: Seq<u8>) -> Seq<u8> {
    if wait == Wait::Partial && !readable {
        buf.skip(1)
    } else {
        buf
    }
}

/// The paste deadline after a wait: a paste that input has come for gets a new one.
pub open spec fn deadline_after_wait(
    wait: Wait,
    readable: bool,
    deadline: Option<u64>,
    now: u64,
) -> Option<u64> {
    if wait == Wait::Paste && readable {
        Some((now + PASTE_TIMEOUT) as u64)
    } else {
        deadline
    }
}

/// Turns the payload of a paste into text.
fn pasted(payload: &[u8]) -> (parsed: Parsed)
    ensures
        parsed@ == ParsedView::Paste(paste_text(payload@)),
{
    reveal(paste_text);
    Parsed::Paste(text::text_lossy(payload))
}

impl<F> Input<F> {
    /// A terminal that has just been opened.
    pub fn open(file: F) -> (input: Input<F>)
        ensures
            input.file == file,
            input.buf@ == Seq::<u8>::empty(),
    {
        Input { file, buf: Vec::with_capacity(256) }
    }

    /// Takes the first `n` bytes out of the buffer.
    fn consume(&mut self, n: usize)
        requires
            n <= old(self).buf@.len(),
        ensures
            final(self).file == old(self).file,
            final(self).buf@ == old(self).buf@.skip(n as int),
    {
        let rest: Vec<u8> = self.buf.split_off(n);
        self.buf = rest;
    }

    /// Looks at the buffer, and says what has to happen next.
    pub fn read_event(&mut self, call: &mut ReadCall, now: u64) -> (step: ReadStep)
        requires
            now + PASTE_TIMEOUT <= u64::MAX,
        ensures
            final(self).file == old(self).file,
            ({
                let seen = look(old(self).buf@, old(call).paste_deadline, now);
                &&& step@ == seen.step
                &&& final(self).buf@ == seen.buf
                &&& final(call).paste_deadline == seen.deadline
            }),
    {
        if self.buf.len() == 0 {
            return wait_for(Wait::Empty);
        }
        let start: [u8; 6] = [0x1b, 0x5b, 0x32, 0x30, 0x30, 0x7e];
        assert(start@ =~= paste_start());
        if bytes::starts_with(self.buf.as_slice(), start.as_slice()) {
            return self.read_paste(call, now);
        }
        call.paste_deadline = None;

        proof {
            parser_laws::law_event_takes_up_bytes_of_the_buffer(self.buf@);
        }
        match parser::parse(self.buf.as_slice()) {
            Parse::Event(parsed, len) => {
                self.consume(len);
                ReadStep::Emit(event::parsed_event(parsed))
            },
            Parse::NeedMore => wait_for(Wait::Partial),
        }
    }

    /// Looks at a buffer that begins with a paste.
    fn read_paste(&mut self, call: &mut ReadCall, now: u64) -> (step: ReadStep)
        requires
            in_paste(old(self).buf@),
            now + PASTE_TIMEOUT <= u64::MAX,
        ensures
            final(self).file == old(self).file,
            ({
                let seen = look_at_paste(old(self).buf@, old(call).paste_deadline, now);
                &&& step@ == seen.step
                &&& final(self).buf@ == seen.buf
                &&& final(call).paste_deadline == seen.deadline
            }),
    {
        let ghost rest = self.buf@.skip(6);
        let deadline: u64 = match call.paste_deadline {
            Some(d) => d,
            None => now + PASTE_TIMEOUT,
        };
        call.paste_deadline = Some(deadline);

        let payload: &[u8] = slice_subrange(self.buf.as_slice(), 6, self.buf.len());
        assert(payload@ =~= rest);
        let end: [u8; 6] = [0x1b, 0x5b, 0x32, 0x30, 0x31, 0x7e];
        assert(end@ =~= paste_end());
        match bytes::find_subslice(payload, end.as_slice()) {
            Some(at) => {
                proof {
                    let chosen = choose|k: int| bytes::first_occurrence(rest, paste_end(), k);
                    bytes::lemma_first_occurrence_unique(rest, paste_end(), at as int, chosen);
                }
                let complete: &[u8] = slice_subrange(payload, 0, at);
                assert(complete@ =~= rest.take(at as int));
                let parsed: Parsed = pasted(complete);
                let len: usize = 6 + at + 6;
                self.consume(len);
                assert(self.buf@ =~= rest.skip(at + 6));
                ReadStep::Emit(event::parsed_event(parsed))
            },
            None => {
                if now >= deadline {
                    let parsed: Parsed = pasted(payload);
                    self.buf.clear();
                    return ReadStep::Emit(event::parsed_event(parsed));
                }
                wait_for(Wait::Paste)
            },
        }
    }

    /// Goes on after a wait that ended with or without input. `None` means that the buffer is to
    /// be filled and looked at again. A paste that input has come for gets a new deadline, so a
    /// slow but healthy paste is not cut short.
    pub fn waited(&mut self, call: &mut ReadCall, wait: Wait, readable: bool, now: u64) -> (event:
        Option<Event>)
        requires
            now + PASTE_TIMEOUT <= u64::MAX,
            wait == Wait::Partial ==> old(self).buf@.len() > 0,
        ensures
            final(self).file == old(self).file,
            match event {
                Some(e) => after_wait(wait, readable, old(self).buf@) == Some(e@),
                None => after_wait(wait, readable, old(self).buf@) is None,
            },
            final(self).buf@ == buf_after_wait(wait, readable, old(self).buf@),
            final(call).paste_deadline == deadline_after_wait(
                wait,
                readable,
                old(call).paste_deadline,
                now,
            ),
    {
        match wait {
            Wait::Empty => {
                if readable {
                    None
                } else {
                    Some(event::parsed_event(Parsed::Key(Key::Null)))
                }
            },
            Wait::Paste => {
                if readable {
                    call.paste_deadline = Some(now + PASTE_TIMEOUT);
                }
                None
            },
            Wait::Partial => {
                if readable {
                    return None;
                }
                let fallback: Key = if self.buf[0] == 0x1b {
                    Key::Esc
                } else {
                    Key::Char('\u{fffd}')
                };
                self.consume(1);
                Some(event::parsed_event(Parsed::Key(fallback)))
            },
        }
    }

    /// Takes in the outcome of one read into `chunk`.
    pub fn drain(&mut self, chunk: &[u8], outcome: ReadOutcome) -> (step: DrainStep)
        requires
            outcome matches ReadOutcome::Read(n) ==> n <= chunk@.len(),
        ensures
            final(self).file == old(self).file,
            final(self).buf@ == old(self).buf@ + bytes_read(chunk@, outcome),
            step == drain_step(outcome),
    {
        assert(outcome !is Read || outcome->Read_0 == 0 ==> self.buf@ + bytes_read(chunk@, outcome)
            =~= self.buf@);
        match outcome {
            ReadOutcome::Read(0) => {
                DrainStep::Done
            },
            ReadOutcome::Read(n) => {
                let ghost before = self.buf@;
                let read: &[u8] = slice_subrange(chunk, 0, n);
                self.buf.extend_from_slice(read);
                assert(self.buf@ =~= before + chunk@.take(n as int));
                DrainStep::Again
            },
            ReadOutcome::WouldBlock => DrainStep::Done,
            ReadOutcome::Interrupted => DrainStep::Again,
            ReadOutcome::Failed => DrainStep::Fail,
        }
    }

    /// Whether an event can be read: at once where bytes are buffered; otherwise the terminal
    /// has to be waited on.
    pub fn poll(&self, timeout_millis: u128) -> (step: PollStep)
        ensures
            step == poll_of(Some(self.buf@), timeout_millis),
    {
        if self.buf.len() != 0 {
            return PollStep::Ready;
        }
        PollStep::Wait(poll_timeout(timeout_millis))
    }
}

/// How one read ended.
#[derive(Debug, Clone, Copy, PartialEq, Eq, Structural)]
pub enum ReadOutcome {
    /// With this many bytes.
    Read(usize),
    /// Without input, for now.
    WouldBlock,
    /// By a signal.
    Interrupted,
    /// With any other error.
    Failed,
}

/// What follows a read.
#[derive(Debug, Clone, Copy, PartialEq, Eq, Structural)]
pub enum DrainStep {
    /// There is no more input for now.
    Done,
    /// Read again.
    Again,
    /// Hand the error on.
    Fail,
}

/// The bytes that a read into `chunk` brought.
pub open spec fn bytes_read(chunk: Seq<u8>, outcome: ReadOutcome) -> Seq<u8> {
    match outcome {
        ReadOutcome::Read(n) => chunk.take(n as int),
        _ => Seq::empty(),
    }
}

/// What follows a read, by how it ended.
pub open spec fn drain_step(outcome: ReadOutcome) -> DrainStep {
    match outcome {
        ReadOutcome::Read(n) => if n == 0 {
            DrainStep::Done
        } else {
            DrainStep::Again
        },
        ReadOutcome::WouldBlock => DrainStep::Done,
        ReadOutcome::Interrupted => DrainStep::Again,
        ReadOutcome::Failed => DrainStep::Fail,
    }
}

/// The answer to whether an event can be read.
#[derive(Debug, Clone, Copy, PartialEq, Eq, Structural)]
pub enum PollStep {
    /// The terminal has to be opened.
    Open,
    /// An event can be read.
    Ready,
    /// Wait on the terminal for this many milliseconds.
    Wait(i32),
}

/// Whether an event can be read, by the bytes that are buffered; `None` stands for a terminal that
/// is not open.
pub open spec fn poll_of(buffered: Option<Seq<u8>>, timeout_millis: u128) -> PollStep {
    match buffered {
        None => PollStep::Open,
        Some(buf) => if buf.len() > 0 {
            PollStep::Ready
        } else {
            PollStep::Wait(poll_timeout_of(timeout_millis))
        },
    }
}

/// The timeout that the system call takes: as many milliseconds as fit.
pub open spec fn poll_timeout_of(millis: u128) -> i32 {
    if millis <= i32::MAX {
        millis as i32
    } else {
        i32::MAX
    }
}

/// The timeout that the system call takes: as many milliseconds as fit.
pub fn poll_timeout(millis: u128) -> (timeout: i32)
    ensures
        timeout == poll_timeout_of(millis),
{
    if millis <= i32::MAX as u128 {
        millis as i32
    } else {
        i32::MAX
    }
}

/// What follows the system call that waits on the terminal.
#[derive(Debug, Clone, Copy, PartialEq, Eq, Structural)]
pub enum WaitStep {
    /// It is over; there is input, or there is not.
    Done(bool),
    /// A signal came; wait again.
    Again,
    /// Hand the error on.
    Fail,
}

/// What follows the system call that waits on the terminal.
pub open spec fn wait_step(rc: i32, revents: i16, pollin: i16, interrupted: bool) -> WaitStep {
    if rc >= 0 {
        WaitStep::Done(rc > 0 && revents & pollin != 0)
    } else if interrupted {
        WaitStep::Again
    } else {
        WaitStep::Fail
    }
}

/// What follows the system call that waits on the terminal, by its result, the conditions that
/// it reported, the bit among them that stands for input, and whether its error was a signal.
pub fn wait_fd(rc: i32, revents: i16, pollin: i16, interrupted: bool) -> (step: WaitStep)
    ensures
        step == wait_step(rc, revents, pollin, interrupted),
{
    if rc >= 0 {
        return WaitStep::Done(rc > 0 && revents & pollin != 0);
    }
    if interrupted {
        WaitStep::Again
    } else {
        WaitStep::Fail
    }
}

/// Puts a terminal that has just been opened in its place, unless one is there.
pub fn install<F>(slot: &mut Option<Input<F>>, file: F)
    ensures
        match *old(slot) {
            Some(input) => *final(slot) == Some(input),
            None => *final(slot) matches Some(input) && input.file == file && input.buf@
                == Seq::<u8>::empty(),
        },
{
    if slot.is_none() {
        *slot = Some(Input::open(file));
    }
}

/// Drops the terminal handle and any buffered input, so that unread bytes do not leak into the
/// next session.
pub fn reset<F>(slot: &mut Option<Input<F>>)
    ensures
        *final(slot) is None,
{
    *slot = None;
}

/// Whether an event can be read from the terminal in `slot`.
pub fn poll<F>(slot: &Option<Input<F>>, timeout_millis: u128) -> (step: PollStep)
    ensures
        step == poll_of(
            match *slot {
                Some(input) => Some(input.buf@),
                None => None,
            },
            timeout_millis,
        ),
{
    match slot {
        None => PollStep::Open,
        Some(input) => input.poll(timeout_millis),
    }
}

/// Looks at what has been read from the terminal in `slot`, and says what has to happen next to
/// read an event.
pub fn read<F>(slot: &mut Option<Input<F>>, call: &mut ReadCall, now: u64) -> (step: ReadStep)
    requires
        now + PASTE_TIMEOUT <= u64::MAX,
    ensures
        match *old(slot) {
            None => {
                &&& step@ == ReadStepView::Open
                &&& *final(slot) is None
                &&& final(call).paste_deadline == old(call).paste_deadline
            },
            Some(input) => {
                let seen = look(input.buf@, old(call).paste_deadline, now);
                &&& step@ == seen.step
                &&& *final(slot) matches Some(after) && after.file == input.file && after.buf@
                    == seen.buf
                &&& final(call).paste_deadline == seen.deadline
            },
        },
{
    match slot {
        None => ReadStep::Open,
        Some(input) => input.read_event(call, now),
    }
}

} // verus!
