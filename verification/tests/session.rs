use atuin::search::{
    override_settings, search_finished, AuthorPattern, FilterMode, Filters, KeymapMode,
    RequestedSearchMode, SearchError, SearchMode, SearchOptions, SearchRequest, SearchResult,
    SearchSettings,
};
use atuin::session::{
    close_step, CloseStep, EndRequest, InFlightHistoryEnd, LoadRequest, Session, SessionStats,
    SessionStatsCounters, ShutdownStep, StorePaths,
};

const SEC: u64 = 1_000_000_000;

fn configured() -> SearchSettings {
    SearchSettings {
        requested_search_mode: RequestedSearchMode::Fuzzy,
        filter_mode: Some(FilterMode::Host),
        shell_up_key_binding: true,
        keymap_mode: KeymapMode::Auto,
        keymap_mode_shell: KeymapMode::Emacs,
    }
}

fn session() -> Session {
    Session::new(configured(), "0198c0ffee".to_string(), 5 * SEC)
}

fn interactive(request: SearchRequest) -> (SearchSettings, String) {
    match request {
        SearchRequest::Interactive { settings, query } => (settings, query),
        other => panic!("expected a full-screen search, got {:?}", other),
    }
}

fn query(request: SearchRequest) -> (SearchSettings, String, Filters) {
    match request {
        SearchRequest::NonInteractive { settings, query, filters } => (settings, query, filters),
        other => panic!("expected a query, got {:?}", other),
    }
}

#[test]
fn results_are_taken_apart_by_kind() {
    let entries: SearchResult<u8> = SearchResult::Entries(vec![1, 2]);
    assert_eq!(entries.into_entries(), Ok(vec![1, 2]));
    let entries: SearchResult<u8> = SearchResult::Entries(vec![1, 2]);
    assert_eq!(entries.into_interactive(), Err(SearchError::ExpectedInteractive));
    let selection: SearchResult<u8> = SearchResult::Interactive(Some("ls".to_string()));
    assert_eq!(selection.into_interactive(), Ok(Some("ls".to_string())));
    let selection: SearchResult<u8> = SearchResult::Interactive(None);
    assert_eq!(selection.into_entries(), Err(SearchError::ExpectedNonInteractive));
    assert_eq!(
        SearchError::ExpectedNonInteractive.message(),
        "expected a non-interactive search result"
    );
    assert_eq!(SearchError::ExpectedInteractive.message(), "expected an interactive search result");
}

#[test]
fn default_options() {
    assert_eq!(SearchMode::default(), SearchMode::NonInteractive);
    let options = SearchOptions::new("git");
    assert_eq!(options.query, "git");
    assert_eq!(options.mode, SearchMode::NonInteractive);
    assert_eq!(options.search_mode, None);
    assert_eq!(options.filter_mode, None);
    assert_eq!(options.cwd, None);
    assert_eq!(options.exclude_cwd, None);
    assert_eq!(options.exit, None);
    assert_eq!(options.exclude_exit, None);
    assert_eq!(options.before, None);
    assert_eq!(options.after, None);
    assert_eq!(options.limit, None);
    assert_eq!(options.offset, None);
    assert!(!options.reverse);
    assert!(!options.include_duplicates);
    assert!(options.authors.is_empty());
    assert!(options.shells.is_empty());
    assert!(!options.shell_up_key_binding);
    assert_eq!(options.keymap_mode, None);
    assert_eq!(SearchOptions::default().query, "");
}

#[test]
fn options_of_the_shortcuts() {
    let options = SearchOptions::interactive("git");
    assert_eq!((options.query.as_str(), options.mode), ("git", SearchMode::Interactive));
    assert!(!options.shell_up_key_binding);
    assert!(SearchOptions::interactive_up("git").shell_up_key_binding);
    assert_eq!(SearchOptions::interactive_up("git").mode, SearchMode::Interactive);

    let options = SearchOptions::prefix("git", 5);
    assert_eq!(options.mode, SearchMode::NonInteractive);
    assert_eq!(options.search_mode, Some(RequestedSearchMode::Prefix));
    assert_eq!(options.limit, Some(5));
    assert_eq!(options.authors, vec![AuthorPattern::AllUser]);
    assert_eq!(SearchOptions::prefix("", usize::MAX).limit, Some(i64::MAX));

    let options = SearchOptions::new("x")
        .with_shell_up_key_binding(true)
        .with_keymap_mode(KeymapMode::VimInsert);
    assert!(options.shell_up_key_binding);
    assert_eq!(options.keymap_mode, Some(KeymapMode::VimInsert));
    assert!(!options.with_shell_up_key_binding(false).shell_up_key_binding);
}

#[test]
fn configured_keymap_comes_first() {
    let options = SearchOptions::interactive("").with_keymap_mode(KeymapMode::VimNormal);
    let settings = override_settings(configured(), &options);
    assert_eq!(settings.keymap_mode, KeymapMode::VimNormal);
    assert_eq!(settings.keymap_mode_shell, KeymapMode::VimNormal);

    let emacs = SearchSettings { keymap_mode: KeymapMode::Emacs, ..configured() };
    let settings = override_settings(emacs, &options);
    assert_eq!(settings.keymap_mode, KeymapMode::Emacs);
    assert_eq!(settings.keymap_mode_shell, KeymapMode::VimNormal);
}

#[test]
fn options_override_a_copy_of_the_settings() {
    let mut session = session();
    let mut options = SearchOptions::new("git");
    options.search_mode = Some(RequestedSearchMode::FullText);
    options.filter_mode = Some(FilterMode::Directory);
    let (settings, text, _) = query(session.search(options));
    assert_eq!(text, "git");
    assert_eq!(settings.requested_search_mode, RequestedSearchMode::FullText);
    assert_eq!(settings.filter_mode, Some(FilterMode::Directory));
    assert!(!settings.shell_up_key_binding);

    let (settings, _, _) = query(session.search(SearchOptions::new("git")));
    assert_eq!(settings, SearchSettings { shell_up_key_binding: false, ..configured() });
}

#[test]
fn filters_are_handed_to_the_query_engine() {
    let mut session = session();
    let mut options = SearchOptions::new("git");
    options.cwd = Some("/a".to_string());
    options.exclude_cwd = Some("/b".to_string());
    options.exit = Some(1);
    options.exclude_exit = Some(2);
    options.before = Some("today".to_string());
    options.after = Some("yesterday".to_string());
    options.limit = Some(3);
    options.offset = Some(4);
    options.reverse = true;
    options.include_duplicates = true;
    options.authors = vec![AuthorPattern::Literal("ellie".to_string()), AuthorPattern::AllAgent];
    options.shells = vec![String::new()];
    let (_, _, filters) = query(session.search(options.clone()));
    assert_eq!(filters.cwd.as_deref(), Some("/a"));
    assert_eq!(filters.exclude_cwd.as_deref(), Some("/b"));
    assert_eq!((filters.exit, filters.exclude_exit), (Some(1), Some(2)));
    assert_eq!(filters.before.as_deref(), Some("today"));
    assert_eq!(filters.after.as_deref(), Some("yesterday"));
    assert_eq!((filters.limit, filters.offset), (Some(3), Some(4)));
    assert!(filters.reverse && filters.include_duplicates && !filters.only_failed);
    assert_eq!(filters.authors, options.authors);
    assert_eq!(filters.shells, vec![String::new()]);

    // The full-screen search ignores them.
    options.mode = SearchMode::Interactive;
    let with = interactive(session.search(options));
    let without = interactive(session.search_interactive("git"));
    assert_eq!(with, without);
}

#[test]
fn searches_are_counted() {
    let mut session = session();
    let (settings, text, filters) = query(session.search_prefix("gi", 7));
    assert_eq!(settings.requested_search_mode, RequestedSearchMode::Prefix);
    assert_eq!(text, "gi");
    assert_eq!(filters.limit, Some(7));
    assert_eq!(filters.authors, vec![AuthorPattern::AllUser]);

    let (settings, text) = interactive(session.search_interactive("x"));
    assert_eq!(text, "x");
    assert!(!settings.shell_up_key_binding);
    let picked: SearchResult<u8> = session.search_interactive_finished("ls -l".to_string());
    assert_eq!(picked, SearchResult::Interactive(Some("ls -l".to_string())));

    assert!(interactive(session.search_interactive_up("x")).0.shell_up_key_binding);
    let cancelled: SearchResult<u8> = session.search_interactive_finished(String::new());
    assert_eq!(cancelled, SearchResult::Interactive(None));

    query(session.search_interactive_with(SearchOptions::new("y")));

    let stats = session.stats(5 * SEC);
    assert_eq!(stats.search_calls, 4);
    assert_eq!(stats.search_prefix_calls, 1);
    assert_eq!(stats.interactive_search_calls, 2);
    assert_eq!(stats.interactive_selections, 1);
    assert_eq!(stats.interactive_cancels, 1);
}

#[test]
fn commands_are_counted_and_recorded() {
    let mut session = session();
    let start = session.history_start("ls", "/tmp", Some("me"), Some(1u8), None);
    assert_eq!((start.command, start.cwd), ("ls", "/tmp"));
    assert_eq!((start.author, start.author_kind, start.intent), (Some("me"), Some(1), None));

    let end: Result<EndRequest<u32>, String> = session.history_end(Ok(9), 1, 0);
    assert_eq!(end, Ok(EndRequest { id: 9, exit: 1, duration: None }));
    let end: Result<EndRequest<u32>, String> = session.history_end(Ok(9), -1, 250);
    assert_eq!(end, Ok(EndRequest { id: 9, exit: -1, duration: Some(250) }));
    let end: Result<EndRequest<u32>, String> = session.history_end(Err("bad".to_string()), 0, 0);
    assert_eq!(end, Err("bad".to_string()));

    let stats = session.stats(5 * SEC);
    assert_eq!(stats.history_starts, 1);
    assert_eq!(stats.history_ends_sync, 3);
    assert_eq!(stats.history_ends_async, 0);
}

#[test]
fn background_records_are_pending_until_they_are_over() {
    let mut session = session();
    let end: Result<EndRequest<u32>, String> = session.history_end_async(Ok(1), 0, 3);
    assert_eq!(end, Ok(EndRequest { id: 1, exit: 0, duration: Some(3) }));
    let _: Result<EndRequest<u32>, String> = session.history_end_async(Ok(2), 0, 0);
    let bad: Result<EndRequest<u32>, String> =
        session.history_end_async(Err("bad".to_string()), 0, 0);
    assert_eq!(bad, Err("bad".to_string()));
    assert_eq!(session.stats(0).in_flight_history_ends, 2);
    assert_eq!(session.stats(0).history_ends_async, 3);
    assert!(!session.history_end_finished());
    assert!(session.history_end_finished());
    assert_eq!(session.stats(0).in_flight_history_ends, 0);
}

#[test]
fn the_pending_counter() {
    let mut in_flight = InFlightHistoryEnd { count: 0 };
    in_flight.begin();
    in_flight.begin();
    assert_eq!(in_flight.count, 2);
    assert!(!in_flight.finish());
    assert!(in_flight.finish());
    assert_eq!(in_flight.count, 0);
}

#[test]
fn shutdown_waits_for_background_records() {
    let mut session = session();
    let _: Result<EndRequest<u32>, String> = session.history_end_async(Ok(1), 0, 0);
    assert!(session.is_live());
    assert_eq!(session.shutdown(), ShutdownStep::ResetInput);
    assert!(!session.is_live());
    assert_eq!(session.shutdown(), ShutdownStep::AwaitHistoryEnds);
    assert_eq!(session.shutdown(), ShutdownStep::AwaitHistoryEnds);
    assert!(session.history_end_finished());
    assert_eq!(session.shutdown(), ShutdownStep::CloseStores(CloseStep::HistoryDatabase));
    assert_eq!(session.shutdown(), ShutdownStep::CloseStores(CloseStep::RecordStore));
    assert_eq!(session.shutdown(), ShutdownStep::CloseStores(CloseStep::ProcessState));
    assert_eq!(session.shutdown(), ShutdownStep::StopWorkers(10));
    assert_eq!(session.shutdown(), ShutdownStep::Finished);
    assert_eq!(session.shutdown(), ShutdownStep::Finished);
}

#[test]
fn stores_close_one_after_another() {
    assert_eq!(close_step(0), Some(CloseStep::HistoryDatabase));
    assert_eq!(close_step(1), Some(CloseStep::RecordStore));
    assert_eq!(close_step(2), Some(CloseStep::ProcessState));
    assert_eq!(close_step(3), None);
    assert_eq!(close_step(255), None);
}

#[test]
fn shutdown_follows_its_plan() {
    let mut session = session();
    let mut steps = Vec::new();
    loop {
        match session.shutdown() {
            ShutdownStep::Finished => break,
            step => steps.push(step),
        }
    }
    assert_eq!(
        steps,
        vec![
            ShutdownStep::ResetInput,
            ShutdownStep::CloseStores(CloseStep::HistoryDatabase),
            ShutdownStep::CloseStores(CloseStep::RecordStore),
            ShutdownStep::CloseStores(CloseStep::ProcessState),
            ShutdownStep::StopWorkers(10),
        ]
    );
}

#[test]
fn finished_searches_answer_their_requests() {
    let mut session = session();
    query(session.search_prefix("gi", 2));
    assert_eq!(search_finished(vec![3u8, 4]).into_entries(), Ok(vec![3, 4]));
    query(session.search_interactive_with(SearchOptions::new("gi")));
    assert_eq!(
        search_finished(vec![3u8]).into_interactive(),
        Err(SearchError::ExpectedInteractive)
    );
    interactive(session.search_interactive("gi"));
    let result: SearchResult<u8> = session.search_interactive_finished("git".to_string());
    assert_eq!(result.into_interactive(), Ok(Some("git".to_string())));
}

#[test]
fn loading_an_entry_counts_nothing() {
    let session = session();
    let found: Result<LoadRequest<u32>, String> = session.get_history(Ok(9));
    assert_eq!(found, Ok(LoadRequest { id: 9 }));
    let bad: Result<LoadRequest<u32>, String> = session.get_history(Err("bad".to_string()));
    assert_eq!(bad, Err("bad".to_string()));
    assert_eq!(session.stats(0), SessionStats::default());
}

#[test]
fn snapshots_only_grow_but_for_pending_records() {
    let mut session = session();
    let mut last = session.stats(5 * SEC);
    for round in 0..20u64 {
        match round % 7 {
            0 => {
                session.history_start("ls", "/", None, None::<u8>, None);
            }
            1 => {
                let _: Result<EndRequest<u8>, u8> = session.history_end(Ok(1), 0, 0);
            }
            2 | 3 => {
                let _: Result<EndRequest<u8>, u8> = session.history_end_async(Ok(1), 0, 0);
            }
            4 => {
                session.history_end_finished();
            }
            5 => {
                session.search_prefix("l", 1);
            }
            _ => {
                session.search_interactive("l");
                let _: SearchResult<u8> = session.search_interactive_finished("ls".to_string());
            }
        }
        let now = (5 + round) * SEC;
        let next = session.stats(now);
        assert_eq!(next, session.stats(now));
        assert!(next.search_prefix_calls + next.interactive_search_calls <= next.search_calls);
        assert!(
            next.interactive_selections + next.interactive_cancels
                <= next.interactive_search_calls
        );
        assert!(next.in_flight_history_ends <= next.history_ends_async);
        assert!(next.history_starts >= last.history_starts);
        assert!(next.history_ends_sync >= last.history_ends_sync);
        assert!(next.history_ends_async >= last.history_ends_async);
        assert!(next.search_calls >= last.search_calls);
        assert!(next.uptime_secs >= last.uptime_secs);
        last = next;
    }
    assert_eq!(last.history_ends_async, 6);
    assert_eq!(last.in_flight_history_ends, 3);
}

#[test]
fn new_sessions_have_done_nothing() {
    let session = session();
    assert_eq!(session.session_id_str(), "0198c0ffee");
    assert_eq!(session.stats(5 * SEC), SessionStats::default());
    assert_eq!(session.stats(0).uptime_secs, 0);
    assert_eq!(session.stats(8 * SEC - 1).uptime_secs, 2);
    assert_eq!(session.stats(8 * SEC).uptime_secs, 3);
    assert_eq!(SessionStatsCounters::default().search_calls, 0);
}

#[test]
fn stores_are_in_the_data_directory_or_as_configured() {
    let names = StorePaths::file_names();
    assert_eq!((names.db, names.records, names.key), ("history.db", "records.db", "key"));
    let configured = StorePaths { db: 1, records: 2, key: 3 };
    let given = StorePaths { db: 4, records: 5, key: 6 };
    assert_eq!(StorePaths::resolve(Some(given), configured).db, 4);
    let configured = StorePaths { db: 1, records: 2, key: 3 };
    let resolved = StorePaths::resolve(None, configured);
    assert_eq!(resolved, StorePaths { db: 1, records: 2, key: 3 });
}
