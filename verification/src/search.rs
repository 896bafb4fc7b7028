//! What a search asks for and what it answers.

use vstd::prelude::*;

verus! {

/// Which search a session runs.
#[derive(Debug, Clone, Copy, PartialEq, Eq, Structural)]
pub enum SearchMode {
    /// The query engine: answers with matching entries.
    NonInteractive,
    /// The full-screen search: answers with the selected command, if any.
    Interactive,
}

impl Default for SearchMode {
    fn default() -> (mode: SearchMode)
        ensures
            mode == SearchMode::NonInteractive,
    {
        SearchMode::NonInteractive
    }
}

/// How the query engine matches.
#[derive(Debug, Clone, Copy, PartialEq, Eq, Structural)]
pub enum RequestedSearchMode {
    Prefix,
    FullText,
    Fuzzy,
    DaemonFuzzy,
}

/// Which part of the history is searched.
#[derive(Debug, Clone, Copy, PartialEq, Eq, Structural)]
pub enum FilterMode {
    Global,
    Host,
    Session,
    Directory,
    Workspace,
    SessionPreload,
}

/// Which key bindings the full-screen search starts with.
#[derive(Debug, Clone, Copy, PartialEq, Eq, Structural)]
pub enum KeymapMode {
    Emacs,
    VimNormal,
    VimInsert,
    Auto,
}

/// Whose commands match.
#[derive(Debug, Clone, PartialEq, Eq)]
pub enum AuthorPattern {
    /// `$all-user`
    AllUser,
    /// `$all-agent`
    AllAgent,
    /// One author, by name.
    Literal(String),
}

/// The mathematical value of an [`AuthorPattern`].
pub enum AuthorPatternView {
    AllUser,
    AllAgent,
    Literal(Seq<char>),
}

impl View for AuthorPattern {
    type V = AuthorPatternView;

    open spec fn view(&self) -> AuthorPatternView {
        match self {
            AuthorPattern::AllUser => AuthorPatternView::AllUser,
            AuthorPattern::AllAgent => AuthorPatternView::AllAgent,
            AuthorPattern::Literal(name) => AuthorPatternView::Literal(name@),
        }
    }
}

/// What a search that cannot be answered as asked fails with.
#[derive(Debug, Clone, Copy, PartialEq, Eq, Structural)]
pub enum SearchError {
    /// Entries were asked for, and the search was interactive.
    ExpectedNonInteractive,
    /// A selection was asked for, and the search was not interactive.
    ExpectedInteractive,
}

impl SearchError {
    pub open spec fn spec_message(self) -> Seq<char> {
        match self {
            SearchError::ExpectedNonInteractive => "expected a non-interactive search result"@,
            SearchError::ExpectedInteractive => "expected an interactive search result"@,
        }
    }

    /// The error in words.
    pub fn message(self) -> (text: &'static str)
        ensures
            text@ == self.spec_message(),
    {
        match self {
            SearchError::ExpectedNonInteractive => "expected a non-interactive search result",
            SearchError::ExpectedInteractive => "expected an interactive search result",
        }
    }
}

/// The answer to a search. `H` is a history entry.
#[derive(Debug, PartialEq, Eq)]
pub enum SearchResult<H> {
    /// Matching entries, newest first unless the search is reversed.
    Entries(Vec<H>),
    /// The selection. `None` means that the user cancelled and the shell should leave its buffer
    /// unchanged.
    Interactive(Option<String>),
}

impl<H> SearchResult<H> {
    /// The entries, or an error where the search was interactive.
    pub open spec fn entries(self) -> Result<Vec<H>, SearchError> {
        match self {
            SearchResult::Entries(entries) => Ok(entries),
            SearchResult::Interactive(_) => Err(SearchError::ExpectedNonInteractive),
        }
    }

    /// The selection, or an error where the search was not interactive.
    pub open spec fn interactive(self) -> Result<Option<String>, SearchError> {
        match self {
            SearchResult::Interactive(selection) => Ok(selection),
            SearchResult::Entries(_) => Err(SearchError::ExpectedInteractive),
        }
    }

    /// The entries, or an error where the search was interactive.
    pub fn into_entries(self) -> (entries: Result<Vec<H>, SearchError>)
        ensures
            entries == self.entries(),
    {
        match self {
            SearchResult::Entries(entries) => Ok(entries),
            SearchResult::Interactive(_) => Err(SearchError::ExpectedNonInteractive),
        }
    }

    /// The selection, or an error where the search was not interactive.
    pub fn into_interactive(self) -> (selection: Result<Option<String>, SearchError>)
        ensures
            selection == self.interactive(),
    {
        match self {
            SearchResult::Interactive(selection) => Ok(selection),
            SearchResult::Entries(_) => Err(SearchError::ExpectedInteractive),
        }
    }
}

/// The options of one search. `None`, or an empty list, means the configured default.
#[derive(Debug, Clone)]
pub struct SearchOptions {
    /// The text to search for; the full-screen search starts with it.
    pub query: String,
    /// The query engine or the full-screen search.
    pub mode: SearchMode,
    pub search_mode: Option<RequestedSearchMode>,
    pub filter_mode: Option<FilterMode>,
    pub cwd: Option<String>,
    pub exclude_cwd: Option<String>,
    pub exit: Option<i64>,
    pub exclude_exit: Option<i64>,
    pub before: Option<String>,
    pub after: Option<String>,
    pub limit: Option<i64>,
    pub offset: Option<i64>,
    pub reverse: bool,
    pub include_duplicates: bool,
    pub authors: Vec<AuthorPattern>,
    /// Shells. An empty string matches commands with no recorded shell.
    pub shells: Vec<String>,
    /// Only for the full-screen search: it was opened with the up arrow.
    pub shell_up_key_binding: bool,
    /// Only for the full-screen search: the key bindings that the shell is in.
    pub keymap_mode: Option<KeymapMode>,
}

/// The text of an optional string.
pub open spec fn text_of(s: Option<String>) -> Option<Seq<char>> {
    match s {
        Some(text) => Some(text@),
        None => None,
    }
}

/// The values of a list of author patterns.
pub open spec fn patterns_of(patterns: Seq<AuthorPattern>) -> Seq<AuthorPatternView> {
    patterns.map_values(|p: AuthorPattern| p@)
}

/// The texts of a list of strings.
pub open spec fn texts_of(strings: Seq<String>) -> Seq<Seq<char>> {
    strings.map_values(|s: String| s@)
}

/// The filters of a search, which only the query engine applies.
pub struct FiltersView {
    pub exit: Option<i64>,
    pub exclude_exit: Option<i64>,
    pub only_failed: bool,
    pub cwd: Option<Seq<char>>,
    pub exclude_cwd: Option<Seq<char>>,
    pub before: Option<Seq<char>>,
    pub after: Option<Seq<char>>,
    pub limit: Option<i64>,
    pub offset: Option<i64>,
    pub reverse: bool,
    pub include_duplicates: bool,
    pub authors: Seq<AuthorPatternView>,
    pub shells: Seq<Seq<char>>,
}

impl FiltersView {
    /// Nothing is filtered out.
    pub open spec fn none() -> FiltersView {
        FiltersView {
            exit: None,
            exclude_exit: None,
            only_failed: false,
            cwd: None,
            exclude_cwd: None,
            before: None,
            after: None,
            limit: None,
            offset: None,
            reverse: false,
            include_duplicates: false,
            authors: Seq::empty(),
            shells: Seq::empty(),
        }
    }
}

/// The mathematical value of [`SearchOptions`].
pub struct SearchOptionsView {
    pub query: Seq<char>,
    pub mode: SearchMode,
    pub search_mode: Option<RequestedSearchMode>,
    pub filter_mode: Option<FilterMode>,
    pub filters: FiltersView,
    pub shell_up_key_binding: bool,
    pub keymap_mode: Option<KeymapMode>,
}

impl View for SearchOptions {
    type V = SearchOptionsView;

    open spec fn view(&self) -> SearchOptionsView {
        SearchOptionsView {
            query: self.query@,
            mode: self.mode,
            search_mode: self.search_mode,
            filter_mode: self.filter_mode,
            filters: FiltersView {
                exit: self.exit,
                exclude_exit: self.exclude_exit,
                only_failed: false,
                cwd: text_of(self.cwd),
                exclude_cwd: text_of(self.exclude_cwd),
                before: text_of(self.before),
                after: text_of(self.after),
                limit: self.limit,
                offset: self.offset,
                reverse: self.reverse,
                include_duplicates: self.include_duplicates,
                authors: patterns_of(self.authors@),
                shells: texts_of(self.shells@),
            },
            shell_up_key_binding: self.shell_up_key_binding,
            keymap_mode: self.keymap_mode,
        }
    }
}

impl SearchOptionsView {
    /// A search for `query` with every option left at its default.
    pub open spec fn new(query: Seq<char>) -> SearchOptionsView {
        SearchOptionsView {
            query,
            mode: SearchMode::NonInteractive,
            search_mode: None,
            filter_mode: None,
            filters: FiltersView::none(),
            shell_up_key_binding: false,
            keymap_mode: None,
        }
    }

    /// The full-screen search that starts with `query`.
    pub open spec fn interactive(query: Seq<char>) -> SearchOptionsView {
        SearchOptionsView { mode: SearchMode::Interactive, ..SearchOptionsView::new(query) }
    }

    /// The full-screen search, opened with the up arrow.
    pub open spec fn interactive_up(query: Seq<char>) -> SearchOptionsView {
        SearchOptionsView { shell_up_key_binding: true, ..SearchOptionsView::interactive(query) }
    }

    /// The query of the shell's suggestions: the commands of all users that begin with `query`,
    /// at most `limit` of them, as far as the engine can count.
    pub open spec fn prefix(query: Seq<char>, limit: int) -> SearchOptionsView {
        SearchOptionsView {
            search_mode: Some(RequestedSearchMode::Prefix),
            filters: FiltersView {
                limit: Some(
                    if limit <= i64::MAX {
                        limit as i64
                    } else {
                        i64::MAX
                    },
                ),
                authors: seq![AuthorPatternView::AllUser],
                ..FiltersView::none()
            },
            ..SearchOptionsView::new(query)
        }
    }
}

impl Default for SearchOptions {
    fn default() -> (options: SearchOptions)
        ensures
            options@ == SearchOptionsView::new(Seq::empty()),
    {
        let options: SearchOptions = SearchOptions {
            query: String::new(),
            mode: SearchMode::NonInteractive,
            search_mode: None,
            filter_mode: None,
            cwd: None,
            exclude_cwd: None,
            exit: None,
            exclude_exit: None,
            before: None,
            after: None,
            limit: None,
            offset: None,
            reverse: false,
            include_duplicates: false,
            authors: Vec::new(),
            shells: Vec::new(),
            shell_up_key_binding: false,
            keymap_mode: None,
        };
        assert(patterns_of(options.authors@) =~= Seq::empty());
        assert(texts_of(options.shells@) =~= Seq::empty());
        options
    }
}

impl SearchOptions {
    /// The same search, opened with the up arrow or not.
    pub open spec fn opened_by_up(self, enabled: bool) -> SearchOptions {
        SearchOptions { shell_up_key_binding: enabled, ..self }
    }

    /// The same search, from a shell with these key bindings.
    pub open spec fn from_keymap(self, keymap_mode: KeymapMode) -> SearchOptions {
        SearchOptions { keymap_mode: Some(keymap_mode), ..self }
    }

    /// A default search for `query`, which is not interactive.
    pub fn new(query: &str) -> (options: SearchOptions)
        ensures
            options@ == SearchOptionsView::new(query@),
    {
        let mut options: SearchOptions = SearchOptions::default();
        options.query = query.to_owned();
        options
    }

    /// The full-screen search that starts with `query`.
    pub fn interactive(query: &str) -> (options: SearchOptions)
        ensures
            options@ == SearchOptionsView::interactive(query@),
    {
        let mut options: SearchOptions = SearchOptions::new(query);
        options.mode = SearchMode::Interactive;
        options
    }

    /// The full-screen search, opened with the shell's up arrow.
    pub fn interactive_up(query: &str) -> (options: SearchOptions)
        ensures
            options@ == SearchOptionsView::interactive_up(query@),
    {
        let mut options: SearchOptions = SearchOptions::interactive(query);
        options.shell_up_key_binding = true;
        options
    }

    /// The query of the shell's suggestions.
    pub fn prefix(query: &str, limit: usize) -> (options: SearchOptions)
        ensures
            options@ == SearchOptionsView::prefix(query@, limit as int),
    {
        let mut options: SearchOptions = SearchOptions::new(query);
        let mut authors: Vec<AuthorPattern> = Vec::new();
        authors.push(AuthorPattern::AllUser);
        options.search_mode = Some(RequestedSearchMode::Prefix);
        options.limit = Some(
            if limit as u128 <= i64::MAX as u128 {
                limit as i64
            } else {
                i64::MAX
            },
        );
        options.authors = authors;
        assert(patterns_of(options.authors@) =~= seq![AuthorPatternView::AllUser]);
        options
    }

    /// The same search, opened with the up arrow or not.
    pub fn with_shell_up_key_binding(self, enabled: bool) -> (options: SearchOptions)
        ensures
            options == self.opened_by_up(enabled),
    {
        let mut options: SearchOptions = self;
        options.shell_up_key_binding = enabled;
        options
    }

    /// The same search, from a shell with these key bindings.
    pub fn with_keymap_mode(self, keymap_mode: KeymapMode) -> (options: SearchOptions)
        ensures
            options == self.from_keymap(keymap_mode),
    {
        let mut options: SearchOptions = self;
        options.keymap_mode = Some(keymap_mode);
        options
    }
}

/// The part of the configuration that a search can override.
#[derive(Debug, Clone, Copy, PartialEq, Eq, Structural)]
pub struct SearchSettings {
    pub requested_search_mode: RequestedSearchMode,
    pub filter_mode: Option<FilterMode>,
    pub shell_up_key_binding: bool,
    pub keymap_mode: KeymapMode,
    pub keymap_mode_shell: KeymapMode,
}

/// The settings that a search runs with. The options come before the configuration, but for the
/// key bindings, where the shell is only followed if the configuration says `Auto`.
pub open spec fn effective_settings(
    configured: SearchSettings,
    options: SearchOptionsView,
) -> SearchSettings {
    SearchSettings {
        requested_search_mode: match options.search_mode {
            Some(mode) => mode,
            None => configured.requested_search_mode,
        },
        filter_mode: match options.filter_mode {
            Some(mode) => Some(mode),
            None => configured.filter_mode,
        },
        shell_up_key_binding: options.shell_up_key_binding,
        keymap_mode: match options.keymap_mode {
            Some(shell) => if configured.keymap_mode == KeymapMode::Auto {
                shell
            } else {
                configured.keymap_mode
            },
            None => configured.keymap_mode,
        },
        keymap_mode_shell: match options.keymap_mode {
            Some(shell) => shell,
            None => configured.keymap_mode_shell,
        },
    }
}

/// Applies the options of a search to a copy of the configured settings.
pub fn override_settings(configured: SearchSettings, options: &SearchOptions) -> (settings:
    SearchSettings)
    ensures
        settings == effective_settings(configured, options@),
{
    let mut settings: SearchSettings = configured;
    if let Some(mode) = options.search_mode {
        settings.requested_search_mode = mode;
    }
    if let Some(filter_mode) = options.filter_mode {
        settings.filter_mode = Some(filter_mode);
    }
    settings.shell_up_key_binding = options.shell_up_key_binding;
    if let Some(keymap_mode) = options.keymap_mode {
        settings.keymap_mode = match settings.keymap_mode {
            KeymapMode::Auto => keymap_mode,
            configured_mode => configured_mode,
        };
        settings.keymap_mode_shell = keymap_mode;
    }
    settings
}

/// The filters that are handed to the query engine.
#[derive(Debug)]
pub struct Filters {
    pub exit: Option<i64>,
    pub exclude_exit: Option<i64>,
    pub only_failed: bool,
    pub cwd: Option<String>,
    pub exclude_cwd: Option<String>,
    pub before: Option<String>,
    pub after: Option<String>,
    pub limit: Option<i64>,
    pub offset: Option<i64>,
    pub reverse: bool,
    pub include_duplicates: bool,
    /// Any of these authors; any author where there is none.
    pub authors: Vec<AuthorPattern>,
    /// Any of these shells; any shell where there is none.
    pub shells: Vec<String>,
}

impl View for Filters {
    type V = FiltersView;

    open spec fn view(&self) -> FiltersView {
        FiltersView {
            exit: self.exit,
            exclude_exit: self.exclude_exit,
            only_failed: self.only_failed,
            cwd: text_of(self.cwd),
            exclude_cwd: text_of(self.exclude_cwd),
            before: text_of(self.before),
            after: text_of(self.after),
            limit: self.limit,
            offset: self.offset,
            reverse: self.reverse,
            include_duplicates: self.include_duplicates,
            authors: patterns_of(self.authors@),
            shells: texts_of(self.shells@),
        }
    }
}

/// A search, ready to be run.
#[derive(Debug)]
pub enum SearchRequest {
    /// Ask the query engine.
    NonInteractive { settings: SearchSettings, query: String, filters: Filters },
    /// Open the full-screen search.
    Interactive { settings: SearchSettings, query: String },
}

/// The mathematical value of a [`SearchRequest`].
pub enum SearchRequestView {
    NonInteractive { settings: SearchSettings, query: Seq<char>, filters: FiltersView },
    Interactive { settings: SearchSettings, query: Seq<char> },
}

impl View for SearchRequest {
    type V = SearchRequestView;

    open spec fn view(&self) -> SearchRequestView {
        match self {
            SearchRequest::NonInteractive { settings, query, filters } => {
                SearchRequestView::NonInteractive {
                    settings: *settings,
                    query: query@,
                    filters: filters@,
                }
            },
            SearchRequest::Interactive { settings, query } => SearchRequestView::Interactive {
                settings: *settings,
                query: query@,
            },
        }
    }
}

/// The search that options ask for, given the configuration.
pub open spec fn request_of(
    configured: SearchSettings,
    options: SearchOptionsView,
) -> SearchRequestView {
    match options.mode {
        SearchMode::NonInteractive => SearchRequestView::NonInteractive {
            settings: effective_settings(configured, options),
            query: options.query,
            filters: options.filters,
        },
        SearchMode::Interactive => SearchRequestView::Interactive {
            settings: effective_settings(configured, options),
            query: options.query,
        },
    }
}

/// The query engine's part of a search.
pub fn search_non_interactive(settings: SearchSettings, options: SearchOptions) -> (request:
    SearchRequest)
    ensures
        request@ == (SearchRequestView::NonInteractive {
            settings,
            query: options@.query,
            filters: options@.filters,
        }),
{
    let filters: Filters = Filters {
        exit: options.exit,
        exclude_exit: options.exclude_exit,
        only_failed: false,
        cwd: options.cwd,
        exclude_cwd: options.exclude_cwd,
        before: options.before,
        after: options.after,
        limit: options.limit,
        offset: options.offset,
        reverse: options.reverse,
        include_duplicates: options.include_duplicates,
        authors: options.authors,
        shells: options.shells,
    };
    SearchRequest::NonInteractive { settings, query: options.query, filters }
}

/// Takes in what the query engine found.
pub fn search_finished<H>(entries: Vec<H>) -> (result: SearchResult<H>)
    ensures
        result == SearchResult::Entries(entries),
{
    SearchResult::Entries(entries)
}

/// The selection that the full-screen search returned: nothing means that the user cancelled.
pub open spec fn selection(returned: String) -> Option<String> {
    if returned@.len() == 0 {
        None
    } else {
        Some(returned)
    }
}

/// The key bindings in the configuration come before those of the shell, unless the
/// configuration leaves it to the shell; the shell's own are passed on either way.
pub proof fn law_configured_keymap_comes_first(
    configured: SearchSettings,
    options: SearchOptionsView,
    shell: KeymapMode,
)
    requires
        options.keymap_mode == Some(shell),
    ensures
        configured.keymap_mode != KeymapMode::Auto ==> effective_settings(
            configured,
            options,
        ).keymap_mode == configured.keymap_mode,
        configured.keymap_mode == KeymapMode::Auto ==> effective_settings(
            configured,
            options,
        ).keymap_mode == shell,
        effective_settings(configured, options).keymap_mode_shell == shell,
{
}

/// The full-screen search ignores the filters.
pub proof fn law_interactive_searches_ignore_filters(
    configured: SearchSettings,
    options: SearchOptionsView,
    filters: FiltersView,
)
    requires
        options.mode == SearchMode::Interactive,
    ensures
        request_of(configured, options) == request_of(
            configured,
            SearchOptionsView { filters, ..options },
        ),
{
}

/// Options that are left at their defaults leave the configuration as it is; only the up arrow
/// is never taken from it.
pub proof fn law_default_options_keep_the_configuration(
    configured: SearchSettings,
    query: Seq<char>,
)
    ensures
        effective_settings(configured, SearchOptionsView::new(query)) == (SearchSettings {
            shell_up_key_binding: false,
            ..configured
        }),
{
}

/// The answer to a request is of the kind that was asked for.
pub open spec fn answers<H>(request: SearchRequestView, result: SearchResult<H>) -> bool {
    match request {
        SearchRequestView::NonInteractive { .. } => result is Entries,
        SearchRequestView::Interactive { .. } => result is Interactive,
    }
}

} // verus!
