//! A session: what it counts, what it asks the history for, and how it shuts down.
//!
//! The caller runs the requests that a session makes, and keeps the handles that they are run
//! on. Times are nanoseconds since some fixed moment.

use vstd::prelude::*;

use crate::search;
use crate::search::{
    SearchMode, SearchOptions, SearchOptionsView, SearchRequest, SearchRequestView, SearchResult,
    SearchSettings,
};

verus! {

/// How many nanoseconds a second has.
pub const NANOS_PER_SEC: u64 = 1_000_000_000;

/// How many seconds the background workers are given to stop.
pub const SHUTDOWN_SECS: u64 = 10;

/// Where a session keeps its data. `P` is a path.
#[derive(Debug, PartialEq, Eq)]
pub struct StorePaths<P> {
    /// The history database.
    pub db: P,
    /// The record store.
    pub records: P,
    /// The encryption key.
    pub key: P,
}

impl StorePaths<&'static str> {
    /// The names of the files in a data directory.
    pub fn file_names() -> (names: StorePaths<&'static str>)
        ensures
            names.db@ == "history.db"@,
            names.records@ == "records.db"@,
            names.key@ == "key"@,
    {
        StorePaths { db: "history.db", records: "records.db", key: "key" }
    }
}

impl<P> StorePaths<P> {
    /// The files in a data directory that was given, or else the configured ones.
    pub open spec fn resolved(
        in_data_dir: Option<StorePaths<P>>,
        configured: StorePaths<P>,
    ) -> StorePaths<P> {
        match in_data_dir {
            Some(given) => given,
            None => configured,
        }
    }

    /// The files in a data directory that was given, or else the configured ones.
    pub fn resolve(in_data_dir: Option<StorePaths<P>>, configured: StorePaths<P>) -> (paths:
        StorePaths<P>)
        ensures
            paths == Self::resolved(in_data_dir, configured),
    {
        match in_data_dir {
            Some(given) => given,
            None => configured,
        }
    }
}

/// The operation counters of a session. They wrap around.
#[derive(Debug, Clone, Copy, PartialEq, Eq, Structural)]
pub struct SessionStatsCounters {
    pub history_starts: u64,
    pub history_ends_sync: u64,
    pub history_ends_async: u64,
    pub search_calls: u64,
    pub search_prefix_calls: u64,
    pub interactive_search_calls: u64,
    pub interactive_selections: u64,
    pub interactive_cancels: u64,
}

impl SessionStatsCounters {
    pub open spec fn spec_zero() -> SessionStatsCounters {
        SessionStatsCounters {
            history_starts: 0,
            history_ends_sync: 0,
            history_ends_async: 0,
            search_calls: 0,
            search_prefix_calls: 0,
            interactive_search_calls: 0,
            interactive_selections: 0,
            interactive_cancels: 0,
        }
    }
}

impl Default for SessionStatsCounters {
    fn default() -> (counters: SessionStatsCounters)
        ensures
            counters == SessionStatsCounters::spec_zero(),
    {
        SessionStatsCounters {
            history_starts: 0,
            history_ends_sync: 0,
            history_ends_async: 0,
            search_calls: 0,
            search_prefix_calls: 0,
            interactive_search_calls: 0,
            interactive_selections: 0,
            interactive_cancels: 0,
        }
    }
}

/// One more, or zero after the last number that fits.
pub open spec fn bumped(n: u64) -> u64 {
    if n == u64::MAX {
        0
    } else {
        (n + 1) as u64
    }
}

fn bump(n: u64) -> (next: u64)
    ensures
        next == bumped(n),
{
    if n == u64::MAX {
        0
    } else {
        n + 1
    }
}

/// What a session has done.
#[derive(Debug, Clone, Copy, PartialEq, Eq, Structural)]
pub struct SessionStats {
    /// Calls that record a command's start, whether the record succeeded or not.
    pub history_starts: u64,
    /// Calls that record a command's end while the caller waits, whether the record succeeded or
    /// not and whether the identifier could be read or not.
    pub history_ends_sync: u64,
    /// Calls that record a command's end in the background, whether the record succeeded or not
    /// and whether the identifier could be read or not.
    pub history_ends_async: u64,
    /// All searches.
    pub search_calls: u64,
    /// Searches for suggestions, which are counted in `search_calls` too.
    pub search_prefix_calls: u64,
    /// Full-screen searches opened.
    pub interactive_search_calls: u64,
    /// Full-screen searches that ended with a selection.
    pub interactive_selections: u64,
    /// Full-screen searches that the user cancelled.
    pub interactive_cancels: u64,
    /// Background records still pending.
    pub in_flight_history_ends: u64,
    /// Seconds since the session was created.
    pub uptime_secs: u64,
}

impl Default for SessionStats {
    fn default() -> (stats: SessionStats)
        ensures
            stats == stats_of(SessionStatsCounters::spec_zero(), 0, 0),
    {
        SessionStats {
            history_starts: 0,
            history_ends_sync: 0,
            history_ends_async: 0,
            search_calls: 0,
            search_prefix_calls: 0,
            interactive_search_calls: 0,
            interactive_selections: 0,
            interactive_cancels: 0,
            in_flight_history_ends: 0,
            uptime_secs: 0,
        }
    }
}

/// A snapshot of the counters.
pub open spec fn stats_of(
    counters: SessionStatsCounters,
    in_flight: usize,
    uptime_secs: u64,
) -> SessionStats {
    SessionStats {
        history_starts: counters.history_starts,
        history_ends_sync: counters.history_ends_sync,
        history_ends_async: counters.history_ends_async,
        search_calls: counters.search_calls,
        search_prefix_calls: counters.search_prefix_calls,
        interactive_search_calls: counters.interactive_search_calls,
        interactive_selections: counters.interactive_selections,
        interactive_cancels: counters.interactive_cancels,
        in_flight_history_ends: in_flight as u64,
        uptime_secs,
    }
}

/// The number of background records still pending.
///
/// Only a counter is kept, not a handle for each record: a shell can make very many of them in a
/// long session, and shutting down only needs to know when there are none.
#[derive(Debug, Clone, Copy, PartialEq, Eq, Structural)]
pub struct InFlightHistoryEnd {
    pub count: usize,
}

impl InFlightHistoryEnd {
    pub open spec fn begun(self) -> InFlightHistoryEnd {
        InFlightHistoryEnd {
            count: if self.count == usize::MAX {
                0
            } else {
                (self.count + 1) as usize
            },
        }
    }

    pub open spec fn finished(self) -> InFlightHistoryEnd {
        InFlightHistoryEnd {
            count: if self.count == 0 {
                usize::MAX
            } else {
                (self.count - 1) as usize
            },
        }
    }

    /// The record that is over is the last that was pending.
    pub open spec fn is_last(self) -> bool {
        self.count == 1
    }

    /// A record goes to the background.
    pub fn begin(&mut self)
        ensures
            *final(self) == old(self).begun(),
    {
        self.count = if self.count == usize::MAX {
            0
        } else {
            self.count + 1
        };
    }

    /// A background record is over. Whether it was the last, so that whoever waits is to be
    /// woken.
    pub fn finish(&mut self) -> (wake: bool)
        ensures
            *final(self) == old(self).finished(),
            wake == old(self).is_last(),
    {
        let before: usize = self.count;
        self.count = if before == 0 {
            usize::MAX
        } else {
            before - 1
        };
        before == 1
    }
}

/// What is closed when no background record is pending any more.
#[derive(Debug, Clone, Copy, PartialEq, Eq, Structural)]
pub enum CloseStep {
    /// The history database.
    HistoryDatabase,
    /// The record store.
    RecordStore,
    /// What the process remembers of its settings, so that a later session resolves them again.
    ProcessState,
}

/// What is closed after `done` things have been closed.
pub open spec fn close_order(done: u8) -> Option<CloseStep> {
    if done == 0 {
        Some(CloseStep::HistoryDatabase)
    } else if done == 1 {
        Some(CloseStep::RecordStore)
    } else if done == 2 {
        Some(CloseStep::ProcessState)
    } else {
        None
    }
}

/// What is closed after `done` things have been closed.
pub fn close_step(done: u8) -> (step: Option<CloseStep>)
    ensures
        step == close_order(done),
{
    match done {
        0 => Some(CloseStep::HistoryDatabase),
        1 => Some(CloseStep::RecordStore),
        2 => Some(CloseStep::ProcessState),
        _ => None,
    }
}

/// How far a session has shut down.
#[derive(Debug, Clone, Copy, PartialEq, Eq, Structural)]
pub enum Stage {
    /// It is in use.
    Live,
    /// The terminal has been let go, and pending background records are waited for.
    Draining,
    /// This many things have been closed.
    Closing(u8),
    /// Nothing is left.
    Down,
}

/// The next thing to do to shut down.
#[derive(Debug, Clone, Copy, PartialEq, Eq, Structural)]
pub enum ShutdownStep {
    /// Let go of the terminal.
    ResetInput,
    /// Wait until a background record wakes the waiter.
    AwaitHistoryEnds,
    /// Close this, and wait until it is closed.
    CloseStores(CloseStep),
    /// Stop the background workers, within this many seconds.
    StopWorkers(u64),
    /// Nothing.
    Finished,
}

/// What follows after `done` things have been closed, and the stage that it leads to: the next
/// thing is closed, and after the last the workers are stopped.
pub open spec fn closing_of(done: u8) -> (ShutdownStep, Stage) {
    match close_order(done) {
        Some(step) => (ShutdownStep::CloseStores(step), Stage::Closing((done + 1) as u8)),
        None => (ShutdownStep::StopWorkers(SHUTDOWN_SECS), Stage::Down),
    }
}

/// The next thing to do, and the stage that it leads to.
pub open spec fn shutdown_of(stage: Stage, in_flight: usize) -> (ShutdownStep, Stage) {
    match stage {
        Stage::Live => (ShutdownStep::ResetInput, Stage::Draining),
        Stage::Draining => if in_flight != 0 {
            (ShutdownStep::AwaitHistoryEnds, Stage::Draining)
        } else {
            closing_of(0)
        },
        Stage::Closing(done) => closing_of(done),
        Stage::Down => (ShutdownStep::Finished, Stage::Down),
    }
}

/// The record of a command that starts.
#[derive(Debug)]
pub struct StartRequest<'a, K> {
    pub command: &'a str,
    pub cwd: &'a str,
    pub author: Option<&'a str>,
    /// What kind of author it is.
    pub author_kind: Option<K>,
    pub intent: Option<&'a str>,
}

/// The record of a command that ended. `I` is the identifier of its entry.
#[derive(Debug, PartialEq, Eq)]
pub struct EndRequest<I> {
    pub id: I,
    pub exit: i64,
    /// How many nanoseconds it ran. Without it, the time since the start is taken.
    pub duration: Option<u64>,
}

/// The entry that is to be loaded. `I` is its identifier.
#[derive(Debug, PartialEq, Eq)]
pub struct LoadRequest<I> {
    pub id: I,
}

/// The duration that is recorded: zero nanoseconds stand for a duration that is not known.
pub open spec fn known_duration(duration_ns: u64) -> Option<u64> {
    if duration_ns > 0 {
        Some(duration_ns)
    } else {
        None
    }
}

/// The record of a command that starts.
pub open spec fn start_request<'a, K>(
    command: &'a str,
    cwd: &'a str,
    author: Option<&'a str>,
    author_kind: Option<K>,
    intent: Option<&'a str>,
) -> StartRequest<'a, K> {
    StartRequest { command, cwd, author, author_kind, intent }
}

/// The record of a command that ended, or why its identifier could not be read.
pub open spec fn end_request<I, E>(id: Result<I, E>, exit: i64, duration_ns: u64) -> Result<
    EndRequest<I>,
    E,
> {
    match id {
        Ok(id) => Ok(EndRequest { id, exit, duration: known_duration(duration_ns) }),
        Err(e) => Err(e),
    }
}

/// The entry that is to be loaded, or why its identifier could not be read.
pub open spec fn load_request<I, E>(id: Result<I, E>) -> Result<LoadRequest<I>, E> {
    match id {
        Ok(id) => Ok(LoadRequest { id }),
        Err(e) => Err(e),
    }
}

fn duration_of(duration_ns: u64) -> (duration: Option<u64>)
    ensures
        duration == known_duration(duration_ns),
{
    if duration_ns > 0 {
        Some(duration_ns)
    } else {
        None
    }
}

/// A persistent session.
pub struct Session {
    settings: SearchSettings,
    session_id: String,
    counters: SessionStatsCounters,
    in_flight: InFlightHistoryEnd,
    stage: Stage,
    created_at: u64,
}

/// The mathematical value of a [`Session`].
pub struct SessionView {
    pub settings: SearchSettings,
    pub session_id: Seq<char>,
    pub counters: SessionStatsCounters,
    pub in_flight: InFlightHistoryEnd,
    pub stage: Stage,
    pub created_at: u64,
}

impl View for Session {
    type V = SessionView;

    closed spec fn view(&self) -> SessionView {
        SessionView {
            settings: self.settings,
            session_id: self.session_id@,
            counters: self.counters,
            in_flight: self.in_flight,
            stage: self.stage,
            created_at: self.created_at,
        }
    }
}

impl SessionStatsCounters {
    /// Searches for suggestions and full-screen searches are among all searches, and full-screen
    /// searches that ended are among those opened.
    pub open spec fn consistent(self) -> bool {
        &&& self.search_prefix_calls + self.interactive_search_calls <= self.search_calls
        &&& self.interactive_selections + self.interactive_cancels <= self.interactive_search_calls
    }

    /// No counter is lower than in `earlier`.
    pub open spec fn at_least(self, earlier: SessionStatsCounters) -> bool {
        &&& self.history_starts >= earlier.history_starts
        &&& self.history_ends_sync >= earlier.history_ends_sync
        &&& self.history_ends_async >= earlier.history_ends_async
        &&& self.search_calls >= earlier.search_calls
        &&& self.search_prefix_calls >= earlier.search_prefix_calls
        &&& self.interactive_search_calls >= earlier.interactive_search_calls
        &&& self.interactive_selections >= earlier.interactive_selections
        &&& self.interactive_cancels >= earlier.interactive_cancels
    }

    /// One more call wraps no counter around.
    pub open spec fn have_room(self) -> bool {
        &&& self.history_starts < u64::MAX
        &&& self.history_ends_sync < u64::MAX
        &&& self.history_ends_async < u64::MAX
        &&& self.search_calls < u64::MAX
        &&& self.search_prefix_calls < u64::MAX
        &&& self.interactive_search_calls < u64::MAX
        &&& self.interactive_selections < u64::MAX
        &&& self.interactive_cancels < u64::MAX
    }
}

impl SessionView {
    /// A session whose stores have just been opened.
    pub open spec fn new(settings: SearchSettings, session_id: Seq<char>, now: u64) -> SessionView {
        SessionView {
            settings,
            session_id,
            counters: SessionStatsCounters::spec_zero(),
            in_flight: InFlightHistoryEnd { count: 0 },
            stage: Stage::Live,
            created_at: now,
        }
    }

    /// The counters are consistent, pending records are among those that went to the background,
    /// and none is pending once something has been closed.
    pub open spec fn well_formed(self) -> bool {
        &&& self.counters.consistent()
        &&& self.in_flight.count <= self.counters.history_ends_async
        &&& match self.stage {
            Stage::Live => true,
            Stage::Draining => true,
            Stage::Closing(done) => 1 <= done <= 3 && self.in_flight.count == 0,
            Stage::Down => self.in_flight.count == 0,
        }
    }

    /// The session in use, not shutting down.
    pub open spec fn live(self) -> bool {
        self.stage == Stage::Live
    }

    /// How many whole seconds the session is old.
    pub open spec fn uptime_secs(self, now: u64) -> u64 {
        if now > self.created_at {
            ((now - self.created_at) / NANOS_PER_SEC as int) as u64
        } else {
            0
        }
    }

    /// A snapshot of what the session has done.
    pub open spec fn stats(self, now: u64) -> SessionStats {
        stats_of(self.counters, self.in_flight.count, self.uptime_secs(now))
    }

    /// The session after a command that starts has been counted.
    pub open spec fn after_start(self) -> SessionView {
        SessionView {
            counters: SessionStatsCounters {
                history_starts: bumped(self.counters.history_starts),
                ..self.counters
            },
            ..self
        }
    }

    /// The session after a command that ended has been counted, while the caller waits.
    pub open spec fn after_end(self) -> SessionView {
        SessionView {
            counters: SessionStatsCounters {
                history_ends_sync: bumped(self.counters.history_ends_sync),
                ..self.counters
            },
            ..self
        }
    }

    /// The session after a command that ended has been counted, in the background; it is pending
    /// where its identifier could be read.
    pub open spec fn after_end_async(self, readable: bool) -> SessionView {
        SessionView {
            counters: SessionStatsCounters {
                history_ends_async: bumped(self.counters.history_ends_async),
                ..self.counters
            },
            in_flight: if readable {
                self.in_flight.begun()
            } else {
                self.in_flight
            },
            ..self
        }
    }

    /// The session after a background record is over.
    pub open spec fn after_end_finished(self) -> SessionView {
        SessionView { in_flight: self.in_flight.finished(), ..self }
    }

    /// The session after it was asked what to do next to shut down.
    pub open spec fn after_shutdown(self) -> SessionView {
        SessionView { stage: shutdown_of(self.stage, self.in_flight.count).1, ..self }
    }

    /// What `search` asks for.
    pub open spec fn asks(self, options: SearchOptionsView) -> SearchRequestView {
        search::request_of(self.settings, options)
    }

    /// What `search_interactive_with` asks for.
    pub open spec fn asks_with(self, options: SearchOptionsView) -> SearchRequestView {
        search::request_of(self.settings, options)
    }

    /// What `search_prefix` asks for.
    pub open spec fn asks_prefix(self, query: Seq<char>, limit: int) -> SearchRequestView {
        search::request_of(self.settings, SearchOptionsView::prefix(query, limit))
    }

    /// What `search_interactive` asks for.
    pub open spec fn asks_interactive(self, query: Seq<char>) -> SearchRequestView {
        search::request_of(self.settings, SearchOptionsView::interactive(query))
    }

    /// What `search_interactive_up` asks for.
    pub open spec fn asks_interactive_up(self, query: Seq<char>) -> SearchRequestView {
        search::request_of(self.settings, SearchOptionsView::interactive_up(query))
    }

    /// The session after a search in `mode` has been asked for.
    pub open spec fn after_search(self, mode: SearchMode) -> SessionView {
        SessionView {
            counters: SessionStatsCounters {
                search_calls: bumped(self.counters.search_calls),
                interactive_search_calls: if mode == SearchMode::Interactive {
                    bumped(self.counters.interactive_search_calls)
                } else {
                    self.counters.interactive_search_calls
                },
                ..self.counters
            },
            ..self
        }
    }

    /// The session after a search for suggestions has been counted as such.
    pub open spec fn after_prefix(self) -> SessionView {
        SessionView {
            counters: SessionStatsCounters {
                search_prefix_calls: bumped(self.counters.search_prefix_calls),
                ..self.counters
            },
            ..self
        }
    }

    /// The session after a full-screen search ended, with a selection or without.
    pub open spec fn after_interactive(self, selected: bool) -> SessionView {
        SessionView {
            counters: if selected {
                SessionStatsCounters {
                    interactive_selections: bumped(self.counters.interactive_selections),
                    ..self.counters
                }
            } else {
                SessionStatsCounters {
                    interactive_cancels: bumped(self.counters.interactive_cancels),
                    ..self.counters
                }
            },
            ..self
        }
    }
}

impl Session {
    /// A session whose stores are open.
    pub fn new(settings: SearchSettings, session_id: String, now: u64) -> (session: Session)
        ensures
            session@ == SessionView::new(settings, session_id@, now),
    {
        Session {
            settings,
            session_id,
            counters: SessionStatsCounters::default(),
            in_flight: InFlightHistoryEnd { count: 0 },
            stage: Stage::Live,
            created_at: now,
        }
    }

    /// Whether the session is in use. Once it is shutting down it can run nothing more.
    pub fn is_live(&self) -> (live: bool)
        ensures
            live == self@.live(),
    {
        matches!(self.stage, Stage::Live)
    }

    /// A snapshot of what the session has done.
    #[must_use]
    pub fn stats(&self, now: u64) -> (stats: SessionStats)
        ensures
            stats == self@.stats(now),
    {
        let uptime_secs: u64 = if now > self.created_at {
            (now - self.created_at) / NANOS_PER_SEC
        } else {
            0
        };
        SessionStats {
            history_starts: self.counters.history_starts,
            history_ends_sync: self.counters.history_ends_sync,
            history_ends_async: self.counters.history_ends_async,
            search_calls: self.counters.search_calls,
            search_prefix_calls: self.counters.search_prefix_calls,
            interactive_search_calls: self.counters.interactive_search_calls,
            interactive_selections: self.counters.interactive_selections,
            interactive_cancels: self.counters.interactive_cancels,
            in_flight_history_ends: self.in_flight.count as u64,
            uptime_secs,
        }
    }

    /// Records that a command starts.
    pub fn history_start<'a, K>(
        &mut self,
        command: &'a str,
        cwd: &'a str,
        author: Option<&'a str>,
        author_kind: Option<K>,
        intent: Option<&'a str>,
    ) -> (request: StartRequest<'a, K>)
        requires
            old(self)@.live(),
        ensures
            request == start_request(command, cwd, author, author_kind, intent),
            final(self)@ == old(self)@.after_start(),
    {
        self.counters.history_starts = bump(self.counters.history_starts);
        StartRequest { command, cwd, author, author_kind, intent }
    }

    /// Records that a command ended, while the caller waits. `id` is the identifier of its entry
    /// as it was read, or why it could not be read.
    pub fn history_end<I, E>(&mut self, id: Result<I, E>, exit: i64, duration_ns: u64) -> (request:
        Result<EndRequest<I>, E>)
        requires
            id is Ok ==> old(self)@.live(),
        ensures
            request == end_request(id, exit, duration_ns),
            final(self)@ == old(self)@.after_end(),
    {
        self.counters.history_ends_sync = bump(self.counters.history_ends_sync);
        match id {
            Ok(id) => Ok(EndRequest { id, exit, duration: duration_of(duration_ns) }),
            Err(e) => Err(e),
        }
    }

    /// Records in the background that a command ended. The request is pending until
    /// [`Session::history_end_finished`]; an identifier that could not be read makes none.
    pub fn history_end_async<I, E>(
        &mut self,
        id: Result<I, E>,
        exit: i64,
        duration_ns: u64,
    ) -> (request: Result<EndRequest<I>, E>)
        requires
            id is Ok ==> old(self)@.live(),
        ensures
            request == end_request(id, exit, duration_ns),
            final(self)@ == old(self)@.after_end_async(id is Ok),
    {
        self.counters.history_ends_async = bump(self.counters.history_ends_async);
        match id {
            Ok(id) => {
                self.in_flight.begin();
                Ok(EndRequest { id, exit, duration: duration_of(duration_ns) })
            },
            Err(e) => Err(e),
        }
    }

    /// A background record is over, whether it failed or not. Whether it was the last.
    pub fn history_end_finished(&mut self) -> (wake: bool)
        ensures
            wake == old(self)@.in_flight.is_last(),
            final(self)@ == old(self)@.after_end_finished(),
    {
        self.in_flight.finish()
    }

    /// Asks for one entry. `id` is its identifier as it was read, or why it could not be read.
    /// Nothing is counted.
    pub fn get_history<I, E>(&self, id: Result<I, E>) -> (request: Result<LoadRequest<I>, E>)
        requires
            id is Ok ==> self@.live(),
        ensures
            request == load_request(id),
    {
        match id {
            Ok(id) => Ok(LoadRequest { id }),
            Err(e) => Err(e),
        }
    }

    /// Asks for a search. The options apply to a copy of the session's settings.
    pub fn search(&mut self, options: SearchOptions) -> (request: SearchRequest)
        requires
            old(self)@.live(),
        ensures
            request@ == old(self)@.asks(options@),
            final(self)@ == old(self)@.after_search(options@.mode),
    {
        self.counters.search_calls = bump(self.counters.search_calls);
        let settings: SearchSettings = search::override_settings(self.settings, &options);
        match options.mode {
            SearchMode::NonInteractive => search::search_non_interactive(settings, options),
            SearchMode::Interactive => self.search_interactive_tui(settings, options.query),
        }
    }

    /// Asks for the full-screen search.
    fn search_interactive_tui(&mut self, settings: SearchSettings, query: String) -> (request:
        SearchRequest)
        ensures
            request@ == (SearchRequestView::Interactive { settings, query: query@ }),
            final(self)@ == (SessionView {
                counters: SessionStatsCounters {
                    interactive_search_calls: bumped(old(self)@.counters.interactive_search_calls),
                    ..old(self)@.counters
                },
                ..old(self)@
            }),
    {
        self.counters.interactive_search_calls = bump(self.counters.interactive_search_calls);
        SearchRequest::Interactive { settings, query }
    }

    /// Takes in what the full-screen search returned: nothing means that the user cancelled.
    pub fn search_interactive_finished<H>(&mut self, returned: String) -> (result: SearchResult<H>)
        ensures
            result == SearchResult::<H>::Interactive(search::selection(returned)),
            final(self)@ == old(self)@.after_interactive(search::selection(returned) is Some),
    {
        if returned.as_str().is_empty() {
            self.counters.interactive_cancels = bump(self.counters.interactive_cancels);
            SearchResult::Interactive(None)
        } else {
            self.counters.interactive_selections = bump(self.counters.interactive_selections);
            SearchResult::Interactive(Some(returned))
        }
    }

    /// Asks for the shell's suggestions.
    pub fn search_prefix(&mut self, query: &str, limit: usize) -> (request: SearchRequest)
        requires
            old(self)@.live(),
        ensures
            request@ == old(self)@.asks_prefix(query@, limit as int),
            final(self)@ == old(self)@.after_prefix().after_search(SearchMode::NonInteractive),
    {
        self.counters.search_prefix_calls = bump(self.counters.search_prefix_calls);
        self.search(SearchOptions::prefix(query, limit))
    }

    /// Asks for the full-screen search.
    pub fn search_interactive(&mut self, query: &str) -> (request: SearchRequest)
        requires
            old(self)@.live(),
        ensures
            request@ == old(self)@.asks_interactive(query@),
            final(self)@ == old(self)@.after_search(SearchMode::Interactive),
    {
        self.search(SearchOptions::interactive(query))
    }

    /// Asks for the full-screen search from the shell's up arrow.
    pub fn search_interactive_up(&mut self, query: &str) -> (request: SearchRequest)
        requires
            old(self)@.live(),
        ensures
            request@ == old(self)@.asks_interactive_up(query@),
            final(self)@ == old(self)@.after_search(SearchMode::Interactive),
    {
        self.search(SearchOptions::interactive_up(query))
    }

    /// Asks for a search whose selection the caller wants, with any options.
    pub fn search_interactive_with(&mut self, options: SearchOptions) -> (request: SearchRequest)
        requires
            old(self)@.live(),
        ensures
            request@ == old(self)@.asks_with(options@),
            final(self)@ == old(self)@.after_search(options@.mode),
    {
        self.search(options)
    }

    /// The identifier of the session.
    pub fn session_id_str(&self) -> (id: &str)
        ensures
            id@ == self@.session_id,
    {
        self.session_id.as_str()
    }

    /// The next thing to do to shut the session down. To be asked again when it is done, until
    /// nothing is left to do.
    pub fn shutdown(&mut self) -> (step: ShutdownStep)
        ensures
            step == shutdown_of(old(self)@.stage, old(self)@.in_flight.count).0,
            final(self)@ == old(self)@.after_shutdown(),
    {
        match self.stage {
            Stage::Live => {
                self.stage = Stage::Draining;
                ShutdownStep::ResetInput
            },
            Stage::Draining => {
                if self.in_flight.count != 0 {
                    return ShutdownStep::AwaitHistoryEnds;
                }
                self.close_next(0)
            },
            Stage::Closing(done) => self.close_next(done),
            Stage::Down => ShutdownStep::Finished,
        }
    }

    /// Goes on after `done` things have been closed.
    fn close_next(&mut self, done: u8) -> (step: ShutdownStep)
        ensures
            step == closing_of(done).0,
            final(self)@ == (SessionView { stage: closing_of(done).1, ..old(self)@ }),
    {
        match close_step(done) {
            Some(step) => {
                self.stage = Stage::Closing(done + 1);
                ShutdownStep::CloseStores(step)
            },
            None => {
                self.stage = Stage::Down;
                ShutdownStep::StopWorkers(SHUTDOWN_SECS)
            },
        }
    }
}

} // verus!
