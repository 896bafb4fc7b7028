//! What the options of a search ask for, one by one.

use vstd::prelude::*;

use crate::search;
use crate::search::{
    AuthorPattern, AuthorPatternView, FilterMode, Filters, FiltersView, KeymapMode,
    RequestedSearchMode, SearchError, SearchMode, SearchOptions, SearchOptionsView, SearchRequest,
    SearchRequestView, SearchResult, SearchSettings,
};
use crate::session::SessionView;

verus! {

/// The settings that a request runs with.
pub open spec fn settings_of(request: SearchRequestView) -> SearchSettings {
    match request {
        SearchRequestView::NonInteractive { settings, .. } => settings,
        SearchRequestView::Interactive { settings, .. } => settings,
    }
}

/// The query of a request.
pub open spec fn query_of(request: SearchRequestView) -> Seq<char> {
    match request {
        SearchRequestView::NonInteractive { query, .. } => query,
        SearchRequestView::Interactive { query, .. } => query,
    }
}

// ---------------------------------------------------------------------------
// Settings
// ---------------------------------------------------------------------------

/// The engine that the options ask for is used, whatever is configured and whichever search it is;
/// where they ask for none, the configured one.
pub proof fn law_search_mode_overrides(
    configured: SearchSettings,
    options: SearchOptionsView,
    mode: RequestedSearchMode,
)
    ensures
        options.search_mode == Some(mode) ==> settings_of(
            search::request_of(configured, options),
        ).requested_search_mode == mode,
        options.search_mode is None ==> settings_of(
            search::request_of(configured, options),
        ).requested_search_mode == configured.requested_search_mode,
{
}

/// The part of the history that the options ask for is searched, whatever is configured and
/// whichever search it is; where they ask for none, the configured one.
pub proof fn law_filter_mode_overrides(
    configured: SearchSettings,
    options: SearchOptionsView,
    mode: FilterMode,
)
    ensures
        options.filter_mode == Some(mode) ==> settings_of(
            search::request_of(configured, options),
        ).filter_mode == Some(mode),
        options.filter_mode is None ==> settings_of(
            search::request_of(configured, options),
        ).filter_mode == configured.filter_mode,
{
}

/// The key bindings of the shell are passed on whichever search it is, and used exactly where the
/// configuration leaves them to the shell. Without them the configuration stays.
pub proof fn law_keymap_overrides(
    configured: SearchSettings,
    options: SearchOptionsView,
    shell: KeymapMode,
)
    ensures
        ({
            let settings = settings_of(search::request_of(configured, options));
            &&& options.keymap_mode == Some(shell) ==> settings.keymap_mode_shell == shell
            &&& options.keymap_mode == Some(shell) && configured.keymap_mode == KeymapMode::Auto
                ==> settings.keymap_mode == shell
            &&& configured.keymap_mode != KeymapMode::Auto ==> settings.keymap_mode
                == configured.keymap_mode
            &&& options.keymap_mode is None ==> settings.keymap_mode == configured.keymap_mode
                && settings.keymap_mode_shell == configured.keymap_mode_shell
        }),
{
}

/// Whether the up arrow opened the search is what the options say, whatever is configured.
pub proof fn law_up_arrow_overrides(configured: SearchSettings, options: SearchOptionsView)
    ensures
        settings_of(search::request_of(configured, options)).shell_up_key_binding
            == options.shell_up_key_binding,
{
}

// ---------------------------------------------------------------------------
// Requests
// ---------------------------------------------------------------------------

/// The mode alone decides which search is run. Either gets the query as it was given, and the query
/// engine every filter.
pub proof fn law_modes_decide(configured: SearchSettings, options: SearchOptionsView)
    ensures
        query_of(search::request_of(configured, options)) == options.query,
        options.mode == SearchMode::Interactive <==> search::request_of(
            configured,
            options,
        ) is Interactive,
        options.mode == SearchMode::NonInteractive <==> search::request_of(
            configured,
            options,
        ) is NonInteractive,
        options.mode == SearchMode::NonInteractive ==> search::request_of(
            configured,
            options,
        )->filters == options.filters,
{
}

/// Two searches that differ only in their mode run with the same settings and the same query.
pub proof fn law_modes_share_settings(configured: SearchSettings, options: SearchOptionsView)
    ensures
        ({
            let engine = SearchOptionsView { mode: SearchMode::NonInteractive, ..options };
            let screen = SearchOptionsView { mode: SearchMode::Interactive, ..options };
            settings_of(search::request_of(configured, engine)) == settings_of(
                search::request_of(configured, screen),
            ) && query_of(search::request_of(configured, engine)) == query_of(
                search::request_of(configured, screen),
            )
        }),
{
}

/// No filter at all.
pub open spec fn unfiltered(filters: FiltersView) -> bool {
    &&& filters.exit is None
    &&& filters.exclude_exit is None
    &&& !filters.only_failed
    &&& filters.cwd is None
    &&& filters.exclude_cwd is None
    &&& filters.before is None
    &&& filters.after is None
    &&& filters.limit is None
    &&& filters.offset is None
    &&& !filters.reverse
    &&& !filters.include_duplicates
    &&& filters.authors.len() == 0
    &&& filters.shells.len() == 0
}

/// A search for a query alone asks the query engine, filters nothing and overrides nothing.
pub proof fn law_plain_searches(query: Seq<char>)
    ensures
        ({
            let options = SearchOptionsView::new(query);
            &&& options.query == query
            &&& options.mode == SearchMode::NonInteractive
            &&& options.search_mode is None
            &&& options.filter_mode is None
            &&& options.keymap_mode is None
            &&& !options.shell_up_key_binding
            &&& unfiltered(options.filters)
        }),
        unfiltered(FiltersView::none()),
{
}

/// The full-screen searches start with the query and override nothing; they differ from each other
/// in the up arrow alone.
pub proof fn law_full_screen_searches(query: Seq<char>)
    ensures
        ({
            let options = SearchOptionsView::interactive(query);
            let up = SearchOptionsView::interactive_up(query);
            &&& options.query == query && up.query == query
            &&& options.mode == SearchMode::Interactive && up.mode == SearchMode::Interactive
            &&& options.search_mode is None && up.search_mode is None
            &&& options.filter_mode is None && up.filter_mode is None
            &&& options.keymap_mode is None && up.keymap_mode is None
            &&& unfiltered(options.filters) && unfiltered(up.filters)
            &&& !options.shell_up_key_binding
            &&& up.shell_up_key_binding
        }),
{
}

/// Suggestions are asked of the query engine by prefix, whatever is configured: the query as it was
/// given, at most as many as asked for, as far as that fits, of all users, the newest first, and
/// nothing else filtered out. The rest of the configuration stays.
pub proof fn law_suggestions(configured: SearchSettings, query: Seq<char>, limit: int)
    requires
        limit >= 0,
    ensures
        ({
            let request = search::request_of(configured, SearchOptionsView::prefix(query, limit));
            &&& request matches SearchRequestView::NonInteractive { settings, query: asked, filters }
            &&& asked == query
            &&& filters.limit is Some
            &&& limit <= 0x7fff_ffff_ffff_ffff ==> filters.limit->0 == limit
            &&& limit > 0x7fff_ffff_ffff_ffff ==> filters.limit->0 == 0x7fff_ffff_ffff_ffff
            &&& filters.authors.len() == 1
            &&& filters.authors[0] == AuthorPatternView::AllUser
            &&& !filters.reverse
            &&& !filters.include_duplicates
            &&& !filters.only_failed
            &&& filters.exit is None
            &&& filters.exclude_exit is None
            &&& filters.cwd is None
            &&& filters.exclude_cwd is None
            &&& filters.before is None
            &&& filters.after is None
            &&& filters.offset is None
            &&& filters.shells.len() == 0
            &&& settings.requested_search_mode == RequestedSearchMode::Prefix
            &&& settings.filter_mode == configured.filter_mode
            &&& settings.keymap_mode == configured.keymap_mode
            &&& settings.keymap_mode_shell == configured.keymap_mode_shell
            &&& !settings.shell_up_key_binding
        }),
{
}

/// A session searches with its own settings under the options, and its shortcuts are searches:
/// one with any options is the same search, and the others get what their names say, whatever the
/// session is configured with.
pub proof fn law_shortcuts_are_searches(
    session: SessionView,
    options: SearchOptionsView,
    query: Seq<char>,
    limit: int,
)
    requires
        limit >= 0,
    ensures
        session.asks(options) == search::request_of(session.settings, options),
        session.asks_with(options) == session.asks(options),
        session.asks_prefix(query, limit) == session.asks(SearchOptionsView::prefix(query, limit)),
        session.asks_prefix(query, limit) is NonInteractive,
        query_of(session.asks_prefix(query, limit)) == query,
        session.asks_interactive(query) == (SearchRequestView::Interactive {
            settings: SearchSettings { shell_up_key_binding: false, ..session.settings },
            query,
        }),
        session.asks_interactive_up(query) == (SearchRequestView::Interactive {
            settings: SearchSettings { shell_up_key_binding: true, ..session.settings },
            query,
        }),
{
}

// ---------------------------------------------------------------------------
// Options and answers
// ---------------------------------------------------------------------------

/// Setting the up arrow changes that option alone.
pub proof fn law_with_shell_up_key_binding(options: SearchOptions, enabled: bool)
    ensures
        options.opened_by_up(enabled)@.shell_up_key_binding == enabled,
        options.opened_by_up(enabled)@ == (SearchOptionsView {
            shell_up_key_binding: enabled,
            ..options@
        }),
        options.opened_by_up(enabled).opened_by_up(options.shell_up_key_binding) == options,
{
}

/// Setting the key bindings of the shell changes that option alone.
pub proof fn law_with_keymap_mode(options: SearchOptions, keymap_mode: KeymapMode)
    ensures
        options.from_keymap(keymap_mode)@.keymap_mode == Some(keymap_mode),
        options.from_keymap(keymap_mode)@ == (SearchOptionsView {
            keymap_mode: Some(keymap_mode),
            ..options@
        }),
        options.keymap_mode is Some ==> options.from_keymap(keymap_mode).from_keymap(
            options.keymap_mode->0,
        ) == options,
{
}

/// The text of an optional string: there exactly where the string is.
pub open spec fn same_text(s: Option<String>, text: Option<Seq<char>>) -> bool {
    match s {
        Some(string) => text == Some(string@),
        None => text is None,
    }
}

/// Patterns by their own names.
pub open spec fn same_pattern(pattern: AuthorPattern, view: AuthorPatternView) -> bool {
    match pattern {
        AuthorPattern::AllUser => view == AuthorPatternView::AllUser,
        AuthorPattern::AllAgent => view == AuthorPatternView::AllAgent,
        AuthorPattern::Literal(name) => view == AuthorPatternView::Literal(name@),
    }
}

/// What is said of options is said of their own fields, each in its place.
pub proof fn law_option_views(options: SearchOptions)
    ensures
        options@.query == options.query@,
        options@.mode == options.mode,
        options@.search_mode == options.search_mode,
        options@.filter_mode == options.filter_mode,
        options@.shell_up_key_binding == options.shell_up_key_binding,
        options@.keymap_mode == options.keymap_mode,
        options@.filters.exit == options.exit,
        options@.filters.exclude_exit == options.exclude_exit,
        !options@.filters.only_failed,
        same_text(options.cwd, options@.filters.cwd),
        same_text(options.exclude_cwd, options@.filters.exclude_cwd),
        same_text(options.before, options@.filters.before),
        same_text(options.after, options@.filters.after),
        options@.filters.limit == options.limit,
        options@.filters.offset == options.offset,
        options@.filters.reverse == options.reverse,
        options@.filters.include_duplicates == options.include_duplicates,
        options@.filters.authors.len() == options.authors@.len(),
        forall|i: int|
            0 <= i < options.authors@.len() ==> same_pattern(
                #[trigger] options.authors@[i],
                options@.filters.authors[i],
            ),
        options@.filters.shells.len() == options.shells@.len(),
        forall|i: int|
            0 <= i < options.shells@.len() ==> options@.filters.shells[i]
                == (#[trigger] options.shells@[i])@,
{
}

/// What is said of filters is said of their own fields, each in its place.
pub proof fn law_filter_views(filters: Filters)
    ensures
        filters@.exit == filters.exit,
        filters@.exclude_exit == filters.exclude_exit,
        filters@.only_failed == filters.only_failed,
        same_text(filters.cwd, filters@.cwd),
        same_text(filters.exclude_cwd, filters@.exclude_cwd),
        same_text(filters.before, filters@.before),
        same_text(filters.after, filters@.after),
        filters@.limit == filters.limit,
        filters@.offset == filters.offset,
        filters@.reverse == filters.reverse,
        filters@.include_duplicates == filters.include_duplicates,
        filters@.authors.len() == filters.authors@.len(),
        forall|i: int|
            0 <= i < filters.authors@.len() ==> same_pattern(
                #[trigger] filters.authors@[i],
                filters@.authors[i],
            ),
        filters@.shells.len() == filters.shells@.len(),
        forall|i: int|
            0 <= i < filters.shells@.len() ==> filters@.shells[i]
                == (#[trigger] filters.shells@[i])@,
{
}

/// What is said of requests is said of their own fields.
pub proof fn law_request_views(settings: SearchSettings, query: String, filters: Filters)
    ensures
        (SearchRequest::NonInteractive { settings, query, filters })@ == (
        SearchRequestView::NonInteractive { settings, query: query@, filters: filters@ }),
        (SearchRequest::Interactive { settings, query })@ == (SearchRequestView::Interactive {
            settings,
            query: query@,
        }),
{
}

/// Entries can be taken for entries alone, and a selection for a selection alone; the error says
/// what was expected.
pub proof fn law_results_are_of_one_kind<H>(entries: Vec<H>, selection: Option<String>)
    ensures
        SearchResult::Entries(entries).entries() == Ok::<Vec<H>, SearchError>(entries),
        SearchResult::Entries(entries).interactive() == Err::<Option<String>, SearchError>(
            SearchError::ExpectedInteractive,
        ),
        SearchResult::<H>::Interactive(selection).interactive() == Ok::<
            Option<String>,
            SearchError,
        >(selection),
        SearchResult::<H>::Interactive(selection).entries() == Err::<Vec<H>, SearchError>(
            SearchError::ExpectedNonInteractive,
        ),
        SearchError::ExpectedInteractive.spec_message() == "expected an interactive search result"@,
        SearchError::ExpectedNonInteractive.spec_message()
            == "expected a non-interactive search result"@,
{
}

/// Whatever the full-screen search returned is the selection, and nothing returned is none.
pub proof fn law_selections(returned: String)
    ensures
        returned@.len() > 0 ==> search::selection(returned) == Some(returned),
        returned@.len() == 0 ==> search::selection(returned) is None,
{
}

} // verus!
