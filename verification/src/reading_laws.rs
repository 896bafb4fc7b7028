//! What holds of reading a terminal over any number of reads, looks and waits.

use vstd::prelude::*;

use crate::bytes;
use crate::event::EventView;
use crate::input;
use crate::input::{ReadOutcome, ReadStepView, Wait, PASTE_TIMEOUT};
use crate::input_laws;
use crate::stream_laws;
use crate::stream_laws::Report;

verus! {

/// One thing that is done to read events: a call of `drain`, `read_event` or `waited`.
pub enum Act {
    Drain { chunk: Seq<u8>, outcome: ReadOutcome },
    Look { now: u64 },
    Waited { wait: Wait, readable: bool, now: u64 },
}

/// How far reading has come.
pub struct Reading {
    /// All bytes read from the terminal.
    pub read: Seq<u8>,
    /// Those of them that have left the buffer.
    pub consumed: Seq<u8>,
    /// Those that are in the buffer.
    pub buf: Seq<u8>,
    /// The paste deadline of the call that is going on.
    pub deadline: Option<u64>,
    /// The events handed on, but for the null keys of an idle terminal.
    pub events: Seq<EventView>,
    /// How many null keys of an idle terminal were handed on.
    pub idle: nat,
}

impl Reading {
    /// A terminal that has just been opened, and a call that has seen nothing yet.
    pub open spec fn new() -> Reading {
        Reading {
            read: Seq::empty(),
            consumed: Seq::empty(),
            buf: Seq::empty(),
            deadline: None,
            events: Seq::empty(),
            idle: 0,
        }
    }

    /// What `drain`, `read_event` and `waited` ask of their callers.
    pub open spec fn allows(self, act: Act) -> bool {
        match act {
            Act::Drain { chunk, outcome } => outcome matches ReadOutcome::Read(n) ==> n
                <= chunk.len(),
            Act::Look { now } => now + PASTE_TIMEOUT <= u64::MAX,
            Act::Waited { wait, readable, now } => {
                &&& now + PASTE_TIMEOUT <= u64::MAX
                &&& wait == Wait::Partial ==> self.buf.len() > 0
            },
        }
    }

    /// Nothing is given up: the wait for the rest of an event ends with input, and a paste whose
    /// end has not come is looked at before its deadline.
    pub open spec fn patient(self, act: Act) -> bool {
        match act {
            Act::Drain { .. } => true,
            Act::Look { now } => input::in_paste(self.buf) && (forall|at: int|
                !bytes::occurs_at(self.buf.skip(6), input::paste_end(), at)) ==> now
                < input::deadline_at(self.deadline, now),
            Act::Waited { wait, readable, .. } => wait == Wait::Partial ==> readable,
        }
    }

    /// How far reading has come after one more act. Once an event is handed on, the next look is
    /// that of a new call.
    pub open spec fn after(self, act: Act) -> Reading {
        match act {
            Act::Drain { chunk, outcome } => Reading {
                read: self.read + input::bytes_read(chunk, outcome),
                buf: self.buf + input::bytes_read(chunk, outcome),
                ..self
            },
            Act::Look { now } => {
                let seen = input::look(self.buf, self.deadline, now);
                Reading {
                    consumed: self.consumed + self.buf.take(self.buf.len() - seen.buf.len()),
                    buf: seen.buf,
                    deadline: if seen.step is Emit {
                        None
                    } else {
                        seen.deadline
                    },
                    events: match seen.step {
                        ReadStepView::Emit(event) => self.events.push(event),
                        _ => self.events,
                    },
                    ..self
                }
            },
            Act::Waited { wait, readable, now } => {
                let left = input::buf_after_wait(wait, readable, self.buf);
                match input::after_wait(wait, readable, self.buf) {
                    Some(event) => Reading {
                        consumed: self.consumed + self.buf.take(self.buf.len() - left.len()),
                        buf: left,
                        deadline: None,
                        events: if wait == Wait::Empty {
                            self.events
                        } else {
                            self.events.push(event)
                        },
                        idle: if wait == Wait::Empty {
                            self.idle + 1
                        } else {
                            self.idle
                        },
                        ..self
                    },
                    None => Reading {
                        deadline: input::deadline_after_wait(wait, readable, self.deadline, now),
                        ..self
                    },
                }
            },
        }
    }
}

/// How far reading has come after acts done one after another.
pub open spec fn run(acts: Seq<Act>) -> Reading
    decreases acts.len(),
{
    if acts.len() == 0 {
        Reading::new()
    } else {
        run(acts.drop_last()).after(acts.last())
    }
}

/// Each act is done as it may be.
pub open spec fn possible(acts: Seq<Act>) -> bool
    decreases acts.len(),
{
    acts.len() > 0 ==> possible(acts.drop_last()) && run(acts.drop_last()).allows(acts.last())
}

/// Nothing is given up by any of the acts.
pub open spec fn patient(acts: Seq<Act>) -> bool
    decreases acts.len(),
{
    acts.len() > 0 ==> patient(acts.drop_last()) && run(acts.drop_last()).patient(acts.last())
}

/// A look is patient where its call has not waited for a paste yet, and where it comes less than
/// the paste timeout after a wait that ended with input, which is then read.
pub proof fn law_prompt_looks_are_patient(
    before: Reading,
    came: u64,
    chunk: Seq<u8>,
    outcome: ReadOutcome,
    now: u64,
)
    requires
        came + PASTE_TIMEOUT <= u64::MAX,
        now + PASTE_TIMEOUT <= u64::MAX,
        now < came + PASTE_TIMEOUT,
    ensures
        before.deadline is None ==> before.patient(Act::Look { now }),
        before.after(Act::Waited { wait: Wait::Paste, readable: true, now: came }).after(
            Act::Drain { chunk, outcome },
        ).patient(Act::Look { now }),
{
}

// ---------------------------------------------------------------------------
// Bytes
// ---------------------------------------------------------------------------

/// One more act loses no byte and takes none twice.
pub proof fn law_an_act_loses_no_byte(before: Reading, act: Act)
    requires
        before.read == before.consumed + before.buf,
        before.allows(act),
    ensures
        before.after(act).read == before.after(act).consumed + before.after(act).buf,
{
    let later = before.after(act);
    match act {
        Act::Drain { chunk, outcome } => {},
        Act::Look { now } => {
            input_laws::law_looks_make_progress(before.buf, before.deadline, now);
            let n = before.buf.len() - later.buf.len();
            assert(before.buf =~= before.buf.take(n) + before.buf.skip(n));
            assert(later.buf == before.buf.skip(n)) by {
                if n == 0 {
                    assert(before.buf.skip(0) =~= before.buf);
                }
            }
        },
        Act::Waited { wait, readable, now } => {
            let left = input::buf_after_wait(wait, readable, before.buf);
            let n = before.buf.len() - left.len();
            assert(before.buf =~= before.buf.take(n) + left);
        },
    }
    assert(later.read =~= later.consumed + later.buf);
}

/// In every state, the bytes read are those that have left the buffer, followed by those in it.
pub proof fn law_no_byte_is_lost(acts: Seq<Act>)
    requires
        possible(acts),
    ensures
        run(acts).read == run(acts).consumed + run(acts).buf,
    decreases acts.len(),
{
    if acts.len() > 0 {
        law_no_byte_is_lost(acts.drop_last());
        law_an_act_loses_no_byte(run(acts.drop_last()), acts.last());
    }
}

// ---------------------------------------------------------------------------
// Events
// ---------------------------------------------------------------------------

/// The bytes of reports are those of the first ones, followed by those of the others.
proof fn lemma_stream_in_two(sent: Seq<Report>, n: int)
    requires
        0 <= n <= sent.len(),
    ensures
        stream_laws::stream(sent) == stream_laws::stream(sent.take(n)) + stream_laws::stream(
            sent.skip(n),
        ),
    decreases n,
{
    if n == 0 {
        assert(sent.skip(0) =~= sent);
        assert(stream_laws::stream(sent.take(0)) =~= Seq::<u8>::empty());
        assert(stream_laws::stream(sent) =~= Seq::<u8>::empty() + stream_laws::stream(sent));
    } else {
        let rest = sent.drop_first();
        lemma_stream_in_two(rest, n - 1);
        assert(sent.take(n).drop_first() =~= rest.take(n - 1));
        assert(sent.skip(n) =~= rest.skip(n - 1));
        assert(sent.take(n)[0] == sent[0]);
        assert(stream_laws::stream(sent) =~= sent[0].written() + stream_laws::stream(
            rest.take(n - 1),
        ) + stream_laws::stream(rest.skip(n - 1)));
    }
}

/// A patient look that hands on an event, at a buffer that is the beginning of reports, hands on
/// the first of them.
proof fn lemma_look_hands_on(
    sent: Seq<Report>,
    before: Reading,
    rest: Seq<u8>,
    now: u64,
)
    requires
        forall|i: int| 0 <= i < sent.len() ==> (#[trigger] sent[i]).well_formed(),
        before.buf + rest == stream_laws::stream(sent),
        before.patient(Act::Look { now }),
        input::look(before.buf, before.deadline, now).step is Emit,
    ensures
        sent.len() > 0,
        input::look(before.buf, before.deadline, now).step == ReadStepView::Emit(sent[0].event()),
        input::look(before.buf, before.deadline, now).buf + rest == stream_laws::stream(
            sent.drop_first(),
        ),
{
    let buf = before.buf;
    let deadline = before.deadline;
    input_laws::lemma_empty_waits(deadline, now);
    assert(buf.len() > 0) by {
        if buf.len() == 0 {
            assert(buf =~= Seq::<u8>::empty());
        }
    }
    assert(sent.len() > 0) by {
        if sent.len() == 0 {
            assert((buf + rest).len() == 0);
        }
    }
    stream_laws::law_reports_are_read_back(
        sent[0],
        stream_laws::stream(sent.drop_first()),
        deadline,
        now,
    );
    if input::in_paste(buf) {
        if forall|at: int| !bytes::occurs_at(buf.skip(6), input::paste_end(), at) {
            input_laws::lemma_unfinished_paste_waits(buf, deadline, now);
        }
        input_laws::law_input_after_a_paste_stays(buf, rest, deadline, now);
    } else {
        input_laws::law_reads_may_be_cut_anywhere(buf, rest, deadline, now);
    }
}

/// How reading stands to the reports that were sent: the events handed on are those of the first
/// reports, in order, and what is in the buffer and what is still to be read, `rest`, are the
/// bytes of the others.
pub open spec fn keeps_up(reading: Reading, sent: Seq<Report>, rest: Seq<u8>) -> bool {
    let n = reading.events.len() as int;
    &&& n <= sent.len()
    &&& reading.events == sent.take(n).map_values(|report: Report| report.event())
    &&& reading.buf + rest == stream_laws::stream(sent.skip(n))
}

proof fn lemma_look_keeps_up(before: Reading, sent: Seq<Report>, rest: Seq<u8>, now: u64)
    requires
        forall|i: int| 0 <= i < sent.len() ==> (#[trigger] sent[i]).well_formed(),
        keeps_up(before, sent, rest),
        before.patient(Act::Look { now }),
    ensures
        keeps_up(before.after(Act::Look { now }), sent, rest),
{
    let n = before.events.len() as int;
    let others = sent.skip(n);
    let later = before.after(Act::Look { now });
    input_laws::law_looks_make_progress(before.buf, before.deadline, now);
    if input::look(before.buf, before.deadline, now).step is Emit {
        assert forall|i: int| 0 <= i < others.len() implies (#[trigger] others[i]).well_formed() by {
            assert(others[i] == sent[n + i]);
        }
        lemma_look_hands_on(others, before, rest, now);
        assert(others[0] == sent[n]);
        assert(others.drop_first() =~= sent.skip(n + 1));
        assert(later.events =~= sent.take(n + 1).map_values(|report: Report| report.event()));
    }
}

proof fn lemma_drain_keeps_up(
    before: Reading,
    chunk: Seq<u8>,
    outcome: ReadOutcome,
    sent: Seq<Report>,
    rest: Seq<u8>,
)
    requires
        keeps_up(before, sent, input::bytes_read(chunk, outcome) + rest),
    ensures
        keeps_up(before.after(Act::Drain { chunk, outcome }), sent, rest),
{
    let brought = input::bytes_read(chunk, outcome);
    assert(before.buf + (brought + rest) =~= before.buf + brought + rest);
}

proof fn lemma_wait_keeps_up(before: Reading, act: Act, sent: Seq<Report>, rest: Seq<u8>)
    requires
        act is Waited,
        keeps_up(before, sent, rest),
        before.patient(act),
    ensures
        keeps_up(before.after(act), sent, rest),
{
}

/// What has not been read yet before an act, by what has not been read yet after it.
spec fn unread_before(act: Act, rest: Seq<u8>) -> Seq<u8> {
    match act {
        Act::Drain { chunk, outcome } => input::bytes_read(chunk, outcome) + rest,
        _ => rest,
    }
}

proof fn lemma_unread(before: Reading, act: Act, rest: Seq<u8>)
    ensures
        before.read + unread_before(act, rest) == before.after(act).read + rest,
{
    assert(before.read + unread_before(act, rest) =~= before.after(act).read + rest);
}

proof fn lemma_act_keeps_up(before: Reading, act: Act, sent: Seq<Report>, rest: Seq<u8>)
    requires
        forall|i: int| 0 <= i < sent.len() ==> (#[trigger] sent[i]).well_formed(),
        keeps_up(before, sent, unread_before(act, rest)),
        before.patient(act),
    ensures
        keeps_up(before.after(act), sent, rest),
{
    match act {
        Act::Drain { chunk, outcome } => lemma_drain_keeps_up(before, chunk, outcome, sent, rest),
        Act::Look { now } => lemma_look_keeps_up(before, sent, rest, now),
        Act::Waited { .. } => lemma_wait_keeps_up(before, act, sent, rest),
    }
}

proof fn lemma_acts_keep_up(acts: Seq<Act>, sent: Seq<Report>, rest: Seq<u8>)
    requires
        forall|i: int| 0 <= i < sent.len() ==> (#[trigger] sent[i]).well_formed(),
        patient(acts),
        run(acts).read + rest == stream_laws::stream(sent),
    ensures
        keeps_up(run(acts), sent, rest),
    decreases acts.len(),
{
    if acts.len() == 0 {
        assert(Seq::<u8>::empty() + rest =~= rest);
        assert(sent.skip(0) =~= sent);
        assert(Reading::new().events =~= sent.take(0).map_values(|report: Report| report.event()));
    } else {
        let before = run(acts.drop_last());
        lemma_unread(before, acts.last(), rest);
        lemma_acts_keep_up(acts.drop_last(), sent, unread_before(acts.last(), rest));
        lemma_act_keeps_up(before, acts.last(), sent, rest);
    }
}

/// Where reading keeps up, the bytes that have left the buffer are those of the reports whose
/// events were handed on.
proof fn lemma_consumed(reading: Reading, sent: Seq<Report>, rest: Seq<u8>)
    requires
        keeps_up(reading, sent, rest),
        reading.read == reading.consumed + reading.buf,
        reading.read + rest == stream_laws::stream(sent),
    ensures
        reading.consumed == stream_laws::stream(sent.take(reading.events.len() as int)),
{
    let n = reading.events.len() as int;
    let first = stream_laws::stream(sent.take(n));
    let others = reading.buf + rest;
    lemma_stream_in_two(sent, n);
    assert(reading.consumed + others =~= reading.read + rest);
    assert(reading.consumed + others == first + others);
    assert(reading.consumed.len() == first.len());
    assert(reading.consumed =~= (reading.consumed + others).take(first.len() as int));
    assert(first =~= (first + others).take(first.len() as int));
}

/// However what was sent is cut into reads, and whatever looks and waits come in between: as long
/// as nothing is given up, the events handed on are those of the reports sent, in their order,
/// and the bytes that have left the buffer are exactly the bytes of those reports. `rest` is what
/// has not been read yet.
pub proof fn law_reading_keeps_up(acts: Seq<Act>, sent: Seq<Report>, rest: Seq<u8>)
    requires
        forall|i: int| 0 <= i < sent.len() ==> (#[trigger] sent[i]).well_formed(),
        possible(acts),
        patient(acts),
        run(acts).read + rest == stream_laws::stream(sent),
    ensures
        keeps_up(run(acts), sent, rest),
        run(acts).consumed == stream_laws::stream(sent.take(run(acts).events.len() as int)),
{
    lemma_acts_keep_up(acts, sent, rest);
    law_no_byte_is_lost(acts);
    lemma_consumed(run(acts), sent, rest);
}

/// Once all that was sent has been read, the events handed on, followed by those that looks at the
/// buffer will hand on, are the events of everything sent.
#[verifier::rlimit(40)]
pub proof fn law_whole_streams_are_read_back(acts: Seq<Act>, sent: Seq<Report>, now: u64)
    requires
        forall|i: int| 0 <= i < sent.len() ==> (#[trigger] sent[i]).well_formed(),
        possible(acts),
        patient(acts),
        run(acts).read == stream_laws::stream(sent),
    ensures
        run(acts).events + stream_laws::events(run(acts).buf, now) == sent.map_values(
            |report: Report| report.event(),
        ),
        run(acts).buf.len() == 0 ==> run(acts).events == sent.map_values(
            |report: Report| report.event(),
        ),
{
    let reading = run(acts);
    let none = Seq::<u8>::empty();
    let n = reading.events.len() as int;
    let others = sent.skip(n);
    assert(reading.read + none =~= reading.read);
    law_reading_keeps_up(acts, sent, none);
    assert(reading.buf + none =~= reading.buf);
    assert forall|i: int| 0 <= i < others.len() implies (#[trigger] others[i]).well_formed() by {
        assert(others[i] == sent[n + i]);
    }
    stream_laws::law_streams_are_read_back(others, now);
    assert(reading.events + others.map_values(|report: Report| report.event())
        =~= sent.map_values(|report: Report| report.event()));
    if reading.buf.len() == 0 {
        input_laws::lemma_empty_waits(None, now);
        assert(reading.buf =~= none);
        assert(stream_laws::events(none, now) =~= Seq::<EventView>::empty());
    }
}

} // verus!
