//! What holds of a session's background records, shutdown and searches.

use vstd::prelude::*;

use crate::search;
use crate::search::{
    RequestedSearchMode, SearchError, SearchMode, SearchOptionsView, SearchRequestView,
    SearchResult, SearchSettings,
};
use crate::session;
use crate::session::{
    CloseStep, EndRequest, InFlightHistoryEnd, LoadRequest, SessionView, ShutdownStep, Stage,
    StorePaths,
};

verus! {

// ---------------------------------------------------------------------------
// Background records
// ---------------------------------------------------------------------------

/// A record that begins and is over leaves the counter as it was.
pub proof fn law_finishing_undoes_beginning(in_flight: InFlightHistoryEnd)
    ensures
        in_flight.begun().finished() == in_flight,
{
}

/// Whoever waits is woken exactly when the last pending record is over: when none is left.
pub proof fn law_the_last_record_wakes(in_flight: InFlightHistoryEnd)
    ensures
        in_flight.is_last() <==> in_flight.finished().count == 0,
{
}

/// A record that begins is one more, and one that is over is one less.
pub proof fn law_pending_records_are_counted(in_flight: InFlightHistoryEnd)
    ensures
        in_flight.count < usize::MAX ==> in_flight.begun().count == in_flight.count + 1,
        in_flight.count > 0 ==> in_flight.finished().count == in_flight.count - 1,
{
}

// ---------------------------------------------------------------------------
// Requests
// ---------------------------------------------------------------------------

/// The record of a command that starts holds what the caller gave, each in its place.
pub proof fn law_start_requests<'a, K>(
    command: &'a str,
    cwd: &'a str,
    author: Option<&'a str>,
    author_kind: Option<K>,
    intent: Option<&'a str>,
)
    ensures
        ({
            let request = session::start_request(command, cwd, author, author_kind, intent);
            &&& request.command == command
            &&& request.cwd == cwd
            &&& request.author == author
            &&& request.author_kind == author_kind
            &&& request.intent == intent
        }),
{
}

/// The record of a command that ended holds its identifier, its exit code and how long it ran,
/// unless that is zero, which stands for a duration that is not known. An identifier that cannot
/// be read makes no record, and its error is handed on.
pub proof fn law_end_requests<I, E>(id: I, e: E, exit: i64, duration_ns: u64)
    ensures
        ({
            let request = session::end_request(Ok::<I, E>(id), exit, duration_ns);
            &&& request is Ok
            &&& request->Ok_0.id == id
            &&& request->Ok_0.exit == exit
            &&& request->Ok_0.duration is None <==> duration_ns == 0
            &&& duration_ns > 0 ==> request->Ok_0.duration == Some(duration_ns)
        }),
        session::end_request(Err::<I, E>(e), exit, duration_ns) == Err::<EndRequest<I>, E>(e),
{
}

/// The entry that is loaded is the one that was asked for.
pub proof fn law_load_requests<I, E>(id: I, e: E)
    ensures
        session::load_request(Ok::<I, E>(id)) is Ok,
        session::load_request(Ok::<I, E>(id))->Ok_0.id == id,
        session::load_request(Err::<I, E>(e)) == Err::<LoadRequest<I>, E>(e),
{
}

/// The files of a data directory that was given are used whatever is configured, and the configured
/// ones only where none was given.
pub proof fn law_data_directories<P>(given: StorePaths<P>, configured: StorePaths<P>)
    ensures
        StorePaths::resolved(Some(given), configured) == given,
        StorePaths::resolved(None, configured) == configured,
{
}

// ---------------------------------------------------------------------------
// Shutting down
// ---------------------------------------------------------------------------

/// Nothing is closed while a background record is pending.
pub proof fn law_stores_close_when_nothing_is_pending(before: SessionView)
    requires
        before.well_formed(),
        session::shutdown_of(before.stage, before.in_flight.count).0 is CloseStores,
    ensures
        before.in_flight.count == 0,
{
}

/// What closing the stores stands for: the history database, then the record store, then what
/// the process remembers, and only then are the workers stopped. The number of pending records
/// is looked at before the first of them.
pub proof fn law_closing_goes_in_order(second: usize, third: usize, fourth: usize)
    ensures
        session::shutdown_of(Stage::Draining, 0) == (
            ShutdownStep::CloseStores(CloseStep::HistoryDatabase),
            Stage::Closing(1),
        ),
        session::shutdown_of(Stage::Closing(1), second) == (
            ShutdownStep::CloseStores(CloseStep::RecordStore),
            Stage::Closing(2),
        ),
        session::shutdown_of(Stage::Closing(2), third) == (
            ShutdownStep::CloseStores(CloseStep::ProcessState),
            Stage::Closing(3),
        ),
        session::shutdown_of(Stage::Closing(3), fourth) == (
            ShutdownStep::StopWorkers(10),
            Stage::Down,
        ),
        forall|done: u8| session::close_order(done) is Some <==> done < 3,
{
}

/// All that is to be done to shut a session down, in order.
pub open spec fn shutdown_plan() -> Seq<ShutdownStep> {
    seq![
        ShutdownStep::ResetInput,
        ShutdownStep::CloseStores(CloseStep::HistoryDatabase),
        ShutdownStep::CloseStores(CloseStep::RecordStore),
        ShutdownStep::CloseStores(CloseStep::ProcessState),
        ShutdownStep::StopWorkers(10),
    ]
}

/// How much of the plan has been done at a stage.
pub open spec fn planned(stage: Stage) -> int {
    match stage {
        Stage::Live => 0,
        Stage::Draining => 1,
        Stage::Closing(done) => 1 + done,
        Stage::Down => 5,
    }
}

/// Each step of shutting down is the next of the plan, except that it waits for pending records
/// before anything is closed, and that nothing comes after the last.
pub proof fn law_shutdown_goes_in_order(before: SessionView)
    requires
        before.well_formed(),
    ensures
        ({
            let (step, next) = session::shutdown_of(before.stage, before.in_flight.count);
            match step {
                ShutdownStep::AwaitHistoryEnds => before.stage == Stage::Draining && next
                    == before.stage && before.in_flight.count != 0,
                ShutdownStep::Finished => before.stage == Stage::Down && next == Stage::Down,
                _ => {
                    &&& planned(before.stage) < shutdown_plan().len()
                    &&& step == shutdown_plan()[planned(before.stage)]
                    &&& planned(next) == planned(before.stage) + 1
                },
            }
        }),
{
}

/// The stage after being asked `n` times what to do next, with nothing pending.
pub open spec fn asked(stage: Stage, n: nat) -> Stage
    decreases n,
{
    if n == 0 {
        stage
    } else {
        session::shutdown_of(asked(stage, (n - 1) as nat), 0).1
    }
}

/// Once no record is pending, five steps shut a session down.
pub proof fn law_shutdown_ends(stage: Stage)
    ensures
        asked(stage, 5) == Stage::Down,
{
    reveal_with_fuel(asked, 6);
}

// ---------------------------------------------------------------------------
// Searches
// ---------------------------------------------------------------------------

/// A search changes nothing but the counters: its options do not outlive it.
pub proof fn law_searches_leave_the_session_alone(before: SessionView, mode: SearchMode)
    ensures
        before.after_search(mode).settings == before.settings,
        before.after_search(mode) == (SessionView {
            counters: before.after_search(mode).counters,
            ..before
        }),
{
}

// ---------------------------------------------------------------------------
// Shortcuts
// ---------------------------------------------------------------------------

/// What the query engine found answers a search that asks it, and what the full-screen search
/// returned, a search that opens it.
pub proof fn law_finished_searches_answer<H>(
    configured: SearchSettings,
    options: SearchOptionsView,
    entries: Vec<H>,
    returned: String,
)
    ensures
        options.mode == SearchMode::NonInteractive ==> search::answers(
            search::request_of(configured, options),
            SearchResult::Entries(entries),
        ),
        options.mode == SearchMode::Interactive ==> search::answers(
            search::request_of(configured, options),
            SearchResult::<H>::Interactive(search::selection(returned)),
        ),
{
}

/// What a search is answered with can be taken for a selection exactly where the options asked for
/// the full-screen search, and for entries exactly where they did not.
pub proof fn law_answers_are_of_the_mode_asked_for<H>(
    configured: SearchSettings,
    options: SearchOptionsView,
    result: SearchResult<H>,
)
    requires
        search::answers(search::request_of(configured, options), result),
    ensures
        options.mode == SearchMode::Interactive ==> result.interactive() is Ok && result.entries()
            == Err::<Vec<H>, SearchError>(SearchError::ExpectedNonInteractive),
        options.mode == SearchMode::NonInteractive ==> result.entries() is Ok
            && result.interactive() == Err::<Option<String>, SearchError>(
            SearchError::ExpectedInteractive,
        ),
{
}

/// Suggestions are asked of the query engine, by prefix, whatever is configured; and what it found
/// is what the caller gets.
pub proof fn law_suggestions_have_entries<H>(
    configured: SearchSettings,
    query: Seq<char>,
    limit: int,
    entries: Vec<H>,
)
    ensures
        ({
            let request = search::request_of(configured, SearchOptionsView::prefix(query, limit));
            &&& request matches SearchRequestView::NonInteractive { settings, .. }
                && settings.requested_search_mode == RequestedSearchMode::Prefix
            &&& search::answers(request, SearchResult::Entries(entries))
            &&& SearchResult::Entries(entries).entries() == Ok::<Vec<H>, SearchError>(entries)
        }),
{
}

/// The two full-screen shortcuts ask for the same but for the up arrow, and the caller gets what
/// the full-screen search returned, or nothing where the user cancelled.
pub proof fn law_full_screen_shortcuts<H>(
    configured: SearchSettings,
    query: Seq<char>,
    returned: String,
)
    ensures
        search::request_of(configured, SearchOptionsView::interactive(query)) == (
        SearchRequestView::Interactive {
            settings: SearchSettings { shell_up_key_binding: false, ..configured },
            query,
        }),
        search::request_of(configured, SearchOptionsView::interactive_up(query)) == (
        SearchRequestView::Interactive {
            settings: SearchSettings { shell_up_key_binding: true, ..configured },
            query,
        }),
        ({
            let result = SearchResult::<H>::Interactive(search::selection(returned));
            &&& search::answers(
                search::request_of(configured, SearchOptionsView::interactive(query)),
                result,
            )
            &&& search::answers(
                search::request_of(configured, SearchOptionsView::interactive_up(query)),
                result,
            )
            &&& result.interactive() == Ok::<Option<String>, SearchError>(
                if returned@.len() == 0 {
                    None
                } else {
                    Some(returned)
                },
            )
        }),
{
}

} // verus!
