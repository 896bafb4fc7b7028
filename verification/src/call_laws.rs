//! What holds of a session after any sequence of calls.

use vstd::prelude::*;

use crate::search::{SearchMode, SearchSettings};
use crate::session;
use crate::session::{SessionView, ShutdownStep};
use crate::session_laws;

verus! {

/// A call of one of the methods of a session. The full-screen shortcuts are searches.
pub enum Call {
    Stats,
    /// With an identifier that could be read, or not.
    GetHistory { readable: bool },
    HistoryStart,
    /// With an identifier that could be read, or not.
    HistoryEnd { readable: bool },
    /// With an identifier that could be read, or not.
    HistoryEndAsync { readable: bool },
    HistoryEndFinished,
    Search(SearchMode),
    SearchPrefix,
    /// With a selection, or cancelled.
    SearchInteractiveFinished { selected: bool },
    Shutdown,
}

/// The session after a call.
pub open spec fn after(before: SessionView, call: Call) -> SessionView {
    match call {
        Call::Stats => before,
        Call::GetHistory { .. } => before,
        Call::HistoryStart => before.after_start(),
        Call::HistoryEnd { .. } => before.after_end(),
        Call::HistoryEndAsync { readable } => before.after_end_async(readable),
        Call::HistoryEndFinished => before.after_end_finished(),
        Call::Search(mode) => before.after_search(mode),
        Call::SearchPrefix => before.after_prefix().after_search(SearchMode::NonInteractive),
        Call::SearchInteractiveFinished { selected } => before.after_interactive(selected),
        Call::Shutdown => before.after_shutdown(),
    }
}

/// The calls that only a session in use can take.
pub open spec fn needs_live(call: Call) -> bool {
    match call {
        Call::GetHistory { readable } => readable,
        Call::HistoryStart => true,
        Call::HistoryEnd { readable } => readable,
        Call::HistoryEndAsync { readable } => readable,
        Call::Search(_) => true,
        Call::SearchPrefix => true,
        _ => false,
    }
}

/// The session after calls made one after another.
pub open spec fn run(start: SessionView, calls: Seq<Call>) -> SessionView
    decreases calls.len(),
{
    if calls.len() == 0 {
        start
    } else {
        after(run(start, calls.drop_last()), calls.last())
    }
}

/// How many of the calls are of a kind.
pub open spec fn times(calls: Seq<Call>, kind: spec_fn(Call) -> bool) -> nat
    decreases calls.len(),
{
    if calls.len() == 0 {
        0
    } else {
        times(calls.drop_last(), kind) + if kind(calls.last()) {
            1nat
        } else {
            0nat
        }
    }
}

pub open spec fn starts() -> spec_fn(Call) -> bool {
    |call: Call| call is HistoryStart
}

pub open spec fn ends_sync() -> spec_fn(Call) -> bool {
    |call: Call| call is HistoryEnd
}

pub open spec fn ends_async() -> spec_fn(Call) -> bool {
    |call: Call| call is HistoryEndAsync
}

pub open spec fn ends_begun() -> spec_fn(Call) -> bool {
    |call: Call| call == (Call::HistoryEndAsync { readable: true })
}

pub open spec fn ends_finished() -> spec_fn(Call) -> bool {
    |call: Call| call is HistoryEndFinished
}

pub open spec fn searches() -> spec_fn(Call) -> bool {
    |call: Call| call is Search || call is SearchPrefix
}

pub open spec fn prefix_searches() -> spec_fn(Call) -> bool {
    |call: Call| call is SearchPrefix
}

pub open spec fn screens_opened() -> spec_fn(Call) -> bool {
    |call: Call| call == Call::Search(SearchMode::Interactive)
}

pub open spec fn selections() -> spec_fn(Call) -> bool {
    |call: Call| call == (Call::SearchInteractiveFinished { selected: true })
}

pub open spec fn cancels() -> spec_fn(Call) -> bool {
    |call: Call| call == (Call::SearchInteractiveFinished { selected: false })
}

/// How many background records have begun and are not over.
pub open spec fn pending(calls: Seq<Call>) -> int {
    times(calls, ends_begun()) - times(calls, ends_finished())
}

/// How many full-screen searches were opened and have not ended with a selection or cancelled.
/// One that failed counts as open.
pub open spec fn open_screens(calls: Seq<Call>) -> int {
    times(calls, screens_opened()) - times(calls, selections()) - times(calls, cancels())
}

/// Calls as they can be made: a call that needs a session in use finds one, no background record
/// is over that did not begin, no full-screen search ends that was not opened, and the numbers
/// fit.
pub open spec fn possible(start: SessionView, calls: Seq<Call>) -> bool
    decreases calls.len(),
{
    calls.len() > 0 ==> {
        &&& possible(start, calls.drop_last())
        &&& needs_live(calls.last()) ==> run(start, calls.drop_last()).live()
        &&& 0 <= pending(calls) <= usize::MAX
        &&& 0 <= open_screens(calls)
        &&& calls.len() <= u64::MAX
    }
}

// ---------------------------------------------------------------------------
// One call
// ---------------------------------------------------------------------------

/// A call leaves the session well formed, no counter lower, and all but its counters, its pending
/// records and its stage unchanged.
pub open spec fn keeps(before: SessionView, later: SessionView) -> bool {
    &&& later.well_formed()
    &&& later.counters.at_least(before.counters)
    &&& later.settings == before.settings
    &&& later.session_id == before.session_id
    &&& later.created_at == before.created_at
}

/// What `history_start` keeps.
pub proof fn law_history_start_keeps(before: SessionView)
    requires
        before.well_formed(),
        before.counters.have_room(),
    ensures
        keeps(before, before.after_start()),
        before.after_start().counters.history_starts == before.counters.history_starts + 1,
{
}

/// What `history_end` keeps.
pub proof fn law_history_end_keeps(before: SessionView)
    requires
        before.well_formed(),
        before.counters.have_room(),
    ensures
        keeps(before, before.after_end()),
        before.after_end().counters.history_ends_sync == before.counters.history_ends_sync + 1,
{
}

/// What `history_end_async` keeps: a record that becomes pending is counted among those that went
/// to the background.
pub proof fn law_history_end_async_keeps(before: SessionView, readable: bool)
    requires
        before.well_formed(),
        before.counters.have_room(),
        readable ==> before.live() && before.in_flight.count < usize::MAX,
    ensures
        keeps(before, before.after_end_async(readable)),
        before.after_end_async(readable).counters.history_ends_async
            == before.counters.history_ends_async + 1,
        before.after_end_async(readable).in_flight.count == before.in_flight.count + if readable {
            1int
        } else {
            0int
        },
{
}

/// What `history_end_finished` keeps, where a record was pending.
pub proof fn law_history_end_finished_keeps(before: SessionView)
    requires
        before.well_formed(),
        before.in_flight.count > 0,
    ensures
        keeps(before, before.after_end_finished()),
        before.after_end_finished().counters == before.counters,
        before.after_end_finished().in_flight.count == before.in_flight.count - 1,
{
}

/// What `search` and the full-screen shortcuts keep.
pub proof fn law_search_keeps(before: SessionView, mode: SearchMode)
    requires
        before.well_formed(),
        before.counters.have_room(),
    ensures
        keeps(before, before.after_search(mode)),
        before.after_search(mode).counters.search_calls == before.counters.search_calls + 1,
{
}

/// What `search_prefix` keeps: it is counted among all searches too.
pub proof fn law_search_prefix_keeps(before: SessionView)
    requires
        before.well_formed(),
        before.counters.have_room(),
    ensures
        ({
            let later = before.after_prefix().after_search(SearchMode::NonInteractive);
            &&& keeps(before, later)
            &&& later.counters.search_calls == before.counters.search_calls + 1
            &&& later.counters.search_prefix_calls == before.counters.search_prefix_calls + 1
        }),
{
}

/// What `search_interactive_finished` keeps, where a full-screen search was open: it is counted
/// exactly once, as a selection or as cancelled.
pub proof fn law_search_interactive_finished_keeps(before: SessionView, selected: bool)
    requires
        before.well_formed(),
        before.counters.have_room(),
        before.counters.interactive_selections + before.counters.interactive_cancels
            < before.counters.interactive_search_calls,
    ensures
        keeps(before, before.after_interactive(selected)),
        before.after_interactive(selected).counters.interactive_selections
            + before.after_interactive(selected).counters.interactive_cancels
            == before.counters.interactive_selections + before.counters.interactive_cancels + 1,
{
}

/// What `shutdown` keeps.
pub proof fn law_shutdown_keeps(before: SessionView)
    requires
        before.well_formed(),
    ensures
        keeps(before, before.after_shutdown()),
        before.after_shutdown().counters == before.counters,
        before.after_shutdown().in_flight == before.in_flight,
{
}

// ---------------------------------------------------------------------------
// Many calls
// ---------------------------------------------------------------------------

proof fn lemma_times_at_most(calls: Seq<Call>, kind: spec_fn(Call) -> bool)
    ensures
        times(calls, kind) <= calls.len(),
    decreases calls.len(),
{
    if calls.len() > 0 {
        lemma_times_at_most(calls.drop_last(), kind);
    }
}

/// Every counter is the number of calls that it counts, and the pending counter is the number of
/// background records that have begun and are not over.
pub proof fn law_counters_count_the_calls(
    settings: SearchSettings,
    session_id: Seq<char>,
    created_at: u64,
    calls: Seq<Call>,
)
    requires
        possible(SessionView::new(settings, session_id, created_at), calls),
    ensures
        ({
            let now = run(SessionView::new(settings, session_id, created_at), calls);
            &&& now.counters.history_starts == times(calls, starts())
            &&& now.counters.history_ends_sync == times(calls, ends_sync())
            &&& now.counters.history_ends_async == times(calls, ends_async())
            &&& now.counters.search_calls == times(calls, searches())
            &&& now.counters.search_prefix_calls == times(calls, prefix_searches())
            &&& now.counters.interactive_search_calls == times(calls, screens_opened())
            &&& now.counters.interactive_selections == times(calls, selections())
            &&& now.counters.interactive_cancels == times(calls, cancels())
            &&& now.in_flight.count == pending(calls)
        }),
    decreases calls.len(),
{
    if calls.len() > 0 {
        let earlier = calls.drop_last();
        law_counters_count_the_calls(settings, session_id, created_at, earlier);
        lemma_times_at_most(earlier, starts());
        lemma_times_at_most(earlier, ends_sync());
        lemma_times_at_most(earlier, ends_async());
        lemma_times_at_most(earlier, searches());
        lemma_times_at_most(earlier, prefix_searches());
        lemma_times_at_most(earlier, screens_opened());
        lemma_times_at_most(earlier, selections());
        lemma_times_at_most(earlier, cancels());
    }
}

/// The last of possible calls keeps a session that is well formed.
proof fn lemma_last_call_keeps(
    settings: SearchSettings,
    session_id: Seq<char>,
    created_at: u64,
    calls: Seq<Call>,
)
    requires
        calls.len() > 0,
        possible(SessionView::new(settings, session_id, created_at), calls),
        run(SessionView::new(settings, session_id, created_at), calls.drop_last()).well_formed(),
    ensures
        ({
            let start = SessionView::new(settings, session_id, created_at);
            keeps(run(start, calls.drop_last()), run(start, calls))
        }),
{
    let earlier = calls.drop_last();
    let before = run(SessionView::new(settings, session_id, created_at), earlier);
    law_counters_count_the_calls(settings, session_id, created_at, earlier);
    lemma_times_at_most(earlier, starts());
    lemma_times_at_most(earlier, ends_sync());
    lemma_times_at_most(earlier, ends_async());
    lemma_times_at_most(earlier, searches());
    lemma_times_at_most(earlier, prefix_searches());
    lemma_times_at_most(earlier, screens_opened());
    lemma_times_at_most(earlier, selections());
    lemma_times_at_most(earlier, cancels());
    assert(before.counters.have_room());
    match calls.last() {
        Call::Stats => {},
        Call::GetHistory { .. } => {},
        Call::HistoryStart => law_history_start_keeps(before),
        Call::HistoryEnd { .. } => law_history_end_keeps(before),
        Call::HistoryEndAsync { readable } => law_history_end_async_keeps(before, readable),
        Call::HistoryEndFinished => law_history_end_finished_keeps(before),
        Call::Search(mode) => law_search_keeps(before, mode),
        Call::SearchPrefix => law_search_prefix_keeps(before),
        Call::SearchInteractiveFinished { selected } => {
            law_search_interactive_finished_keeps(before, selected)
        },
        Call::Shutdown => law_shutdown_keeps(before),
    }
}

/// After any calls the session is well formed, and no counter is lower than after the first `n`
/// of them.
pub proof fn law_calls_keep_the_session(
    settings: SearchSettings,
    session_id: Seq<char>,
    created_at: u64,
    calls: Seq<Call>,
    n: int,
)
    requires
        possible(SessionView::new(settings, session_id, created_at), calls),
        0 <= n <= calls.len(),
    ensures
        ({
            let start = SessionView::new(settings, session_id, created_at);
            keeps(run(start, calls.take(n)), run(start, calls))
        }),
    decreases calls.len(),
{
    let start = SessionView::new(settings, session_id, created_at);
    if calls.len() > 0 {
        let earlier = calls.drop_last();
        law_calls_keep_the_session(settings, session_id, created_at, earlier, 0);
        lemma_last_call_keeps(settings, session_id, created_at, calls);
        if n < calls.len() {
            law_calls_keep_the_session(settings, session_id, created_at, earlier, n);
            assert(calls.take(n) =~= earlier.take(n));
        }
    }
    if n == calls.len() {
        assert(calls.take(n) =~= calls);
    }
}

/// What a snapshot after any calls says, beside one taken after the first `n` of them at an
/// earlier time. Searches for suggestions and full-screen searches are among all searches,
/// full-screen searches that ended among those opened, and pending records among those that went
/// to the background; nothing but the number of pending records is lower than it was. A snapshot
/// leaves the session as it is.
pub proof fn law_snapshots(
    settings: SearchSettings,
    session_id: Seq<char>,
    created_at: u64,
    calls: Seq<Call>,
    n: int,
    earlier: u64,
    now: u64,
)
    requires
        possible(SessionView::new(settings, session_id, created_at), calls),
        0 <= n <= calls.len(),
        earlier <= now,
    ensures
        ({
            let start = SessionView::new(settings, session_id, created_at);
            let s = run(start, calls).stats(now);
            let e = run(start, calls.take(n)).stats(earlier);
            &&& s.search_prefix_calls <= s.search_calls
            &&& s.search_prefix_calls + s.interactive_search_calls <= s.search_calls
            &&& s.interactive_selections + s.interactive_cancels <= s.interactive_search_calls
            &&& s.interactive_search_calls <= s.search_calls
            &&& s.in_flight_history_ends <= s.history_ends_async
            &&& s.in_flight_history_ends == pending(calls)
            &&& s.history_starts >= e.history_starts
            &&& s.history_ends_sync >= e.history_ends_sync
            &&& s.history_ends_async >= e.history_ends_async
            &&& s.search_calls >= e.search_calls
            &&& s.search_prefix_calls >= e.search_prefix_calls
            &&& s.interactive_search_calls >= e.interactive_search_calls
            &&& s.interactive_selections >= e.interactive_selections
            &&& s.interactive_cancels >= e.interactive_cancels
            &&& s.uptime_secs >= e.uptime_secs
            &&& after(run(start, calls), Call::Stats) == run(start, calls)
        }),
{
    law_calls_keep_the_session(settings, session_id, created_at, calls, n);
    law_calls_keep_the_session(settings, session_id, created_at, calls, 0);
    law_counters_count_the_calls(settings, session_id, created_at, calls);
    assert(calls.take(0) =~= Seq::<Call>::empty());
}

/// Every number in a snapshot is the number of calls of its own method, from the beginning of the
/// session on; the prefix searches are among all searches. A snapshot wraps nothing around.
pub proof fn law_snapshots_count_the_calls(
    settings: SearchSettings,
    session_id: Seq<char>,
    created_at: u64,
    calls: Seq<Call>,
    now: u64,
)
    requires
        possible(SessionView::new(settings, session_id, created_at), calls),
    ensures
        ({
            let s = run(SessionView::new(settings, session_id, created_at), calls).stats(now);
            &&& s.history_starts == times(calls, starts())
            &&& s.history_ends_sync == times(calls, ends_sync())
            &&& s.history_ends_async == times(calls, ends_async())
            &&& s.search_calls == times(calls, searches())
            &&& s.search_prefix_calls == times(calls, prefix_searches())
            &&& s.interactive_search_calls == times(calls, screens_opened())
            &&& s.interactive_selections == times(calls, selections())
            &&& s.interactive_cancels == times(calls, cancels())
            &&& s.in_flight_history_ends == pending(calls)
        }),
{
    law_counters_count_the_calls(settings, session_id, created_at, calls);
}

/// The uptime is the number of whole seconds, of a thousand million nanoseconds each, since the
/// session was created, whatever was called; and zero before.
pub proof fn law_uptime(
    settings: SearchSettings,
    session_id: Seq<char>,
    created_at: u64,
    calls: Seq<Call>,
    now: u64,
)
    requires
        possible(SessionView::new(settings, session_id, created_at), calls),
    ensures
        ({
            let s = run(SessionView::new(settings, session_id, created_at), calls).stats(now);
            &&& now >= created_at ==> s.uptime_secs * 1_000_000_000 <= now - created_at
                < (s.uptime_secs + 1) * 1_000_000_000
            &&& now < created_at ==> s.uptime_secs == 0
        }),
{
    law_calls_keep_the_session(settings, session_id, created_at, calls, 0);
    assert(calls.take(0) =~= Seq::<Call>::empty());
}

/// A session keeps the identifier and the settings that it was made with, whatever was called.
pub proof fn law_sessions_keep_what_they_were_made_with(
    settings: SearchSettings,
    session_id: Seq<char>,
    created_at: u64,
    calls: Seq<Call>,
)
    requires
        possible(SessionView::new(settings, session_id, created_at), calls),
    ensures
        ({
            let now = run(SessionView::new(settings, session_id, created_at), calls);
            now.session_id == session_id && now.settings == settings
        }),
{
    law_calls_keep_the_session(settings, session_id, created_at, calls, 0);
    assert(calls.take(0) =~= Seq::<Call>::empty());
}

pub open spec fn shutdowns() -> spec_fn(Call) -> bool {
    |call: Call| call is Shutdown
}

/// A session is in use exactly until it is first asked to shut down.
pub proof fn law_sessions_live_until_they_are_shut_down(start: SessionView, calls: Seq<Call>)
    requires
        start.live(),
    ensures
        run(start, calls).live() <==> times(calls, shutdowns()) == 0,
    decreases calls.len(),
{
    if calls.len() > 0 {
        law_sessions_live_until_they_are_shut_down(start, calls.drop_last());
    }
}

/// A counter that is full starts again from zero; the others go up by one.
pub proof fn law_counters_wrap_around(n: u64)
    ensures
        session::bumped(n) == (n + 1) % 0x1_0000_0000_0000_0000,
{
}

/// What has been done to shut down: the steps that the calls of `shutdown` gave, but for those
/// that wait and those that say that nothing is left.
pub open spec fn work_done(start: SessionView, calls: Seq<Call>) -> Seq<ShutdownStep>
    decreases calls.len(),
{
    if calls.len() == 0 {
        Seq::empty()
    } else {
        let before = run(start, calls.drop_last());
        let done = work_done(start, calls.drop_last());
        let step = session::shutdown_of(before.stage, before.in_flight.count).0;
        if calls.last() is Shutdown && step != ShutdownStep::AwaitHistoryEnds && step
            != ShutdownStep::Finished {
            done.push(step)
        } else {
            done
        }
    }
}

/// Whatever is called in between, shutting down follows its plan: the terminal is let go, the
/// history database, the record store and what the process remembers are closed one after
/// another, and the workers are stopped; nothing is left out and nothing is done twice.
pub proof fn law_shutdown_follows_its_plan(
    settings: SearchSettings,
    session_id: Seq<char>,
    created_at: u64,
    calls: Seq<Call>,
)
    requires
        possible(SessionView::new(settings, session_id, created_at), calls),
    ensures
        ({
            let start = SessionView::new(settings, session_id, created_at);
            let done = session_laws::planned(run(start, calls).stage);
            &&& 0 <= done <= session_laws::shutdown_plan().len()
            &&& work_done(start, calls) == session_laws::shutdown_plan().take(done)
        }),
    decreases calls.len(),
{
    let start = SessionView::new(settings, session_id, created_at);
    let plan = session_laws::shutdown_plan();
    if calls.len() == 0 {
        assert(plan.take(0) =~= Seq::<ShutdownStep>::empty());
    } else {
        let earlier = calls.drop_last();
        let before = run(start, earlier);
        law_shutdown_follows_its_plan(settings, session_id, created_at, earlier);
        law_calls_keep_the_session(settings, session_id, created_at, earlier, 0);
        session_laws::law_shutdown_goes_in_order(before);
        let done = session_laws::planned(before.stage);
        if done < plan.len() {
            assert(plan.take(done).push(plan[done]) =~= plan.take(done + 1));
        }
    }
}

/// Whatever was called before, no record is pending when something is closed or the workers are
/// stopped; so no record that went to the background is lost.
pub proof fn law_no_record_is_lost(
    settings: SearchSettings,
    session_id: Seq<char>,
    created_at: u64,
    calls: Seq<Call>,
)
    requires
        possible(SessionView::new(settings, session_id, created_at), calls),
        ({
            let now = run(SessionView::new(settings, session_id, created_at), calls);
            let step = session::shutdown_of(now.stage, now.in_flight.count).0;
            step is CloseStores || step is StopWorkers
        }),
    ensures
        pending(calls) == 0,
        times(calls, ends_begun()) == times(calls, ends_finished()),
{
    law_calls_keep_the_session(settings, session_id, created_at, calls, 0);
    law_counters_count_the_calls(settings, session_id, created_at, calls);
}

} // verus!
