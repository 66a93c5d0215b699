//! The application as a state machine: what it shows and what it decides
//! when the database, the configuration file, the browser or a refresh
//! reports back. Whoever drives it performs those effects and hands the
//! outcome to the matching method.

use vstd::prelude::*;

use crate::app::manager::{load_filter_stream_draft, load_query_draft, opened_on, SavedQueryManagerState};
use crate::app::queries::{
    find_filter_stream, find_first_query, find_first_stream_owner, find_query, has_filter_stream,
    lemma_find_first_query, lemma_find_first_query_none, lemma_find_first_stream_owner,
    lemma_find_first_stream_owner_none, lemma_first_stream_index,
};
use crate::app::refresh::{insert_sorted, refresh_status, refresh_status_text, strictly_increasing, RefreshOutcome};
use crate::app::view::{
    current_view_membership_changed, differs_at, is_patched_view, item_differs, item_lists_equal,
    locally_patched, membership_changed, patch_current_items, patch_local_item_state, same_items,
};
use crate::app::setup::{is_form_of, SetupState};
use crate::app::status::{
    first_run_status, first_run_status_of, push_entry, recent_history, replace_status,
    replace_status_error, StatusEntry, StatusLevel,
};
use crate::app::stream::StreamState;
use crate::config::{config_error_message, ConfigError};
use crate::github::github_error_message;
use crate::github::project::{project_locator_of, project_preview_of, project_preview_url};
use crate::models::config::{search_url_of, AppConfig, FontSize, SortOrder, Theme};
use crate::models::saved_query::{SavedQuery, StreamSource};
use crate::models::stream_item::StreamItem;
use crate::models::view::{LibraryCounts, LibraryView, Selection};
use crate::text::{concat2, concat3, trim, trim_seq};

verus! {

/// What the main window works with once a host is configured.
#[derive(Debug)]
pub struct Runtime {
    pub config: AppConfig,
    pub host_id: i64,
    pub library_counts: LibraryCounts,
    pub saved_queries: Vec<SavedQuery>,
    pub items: Vec<StreamItem>,
}

/// The setup form (keeping the runtime it was opened from, if any), or the
/// main window.
#[derive(Debug)]
pub enum AppMode {
    Setup { previous_runtime: Option<Runtime> },
    Main(Runtime),
}

/// The application.
#[derive(Debug)]
pub struct GhStreamApp {
    pub mode: AppMode,
    pub setup: SetupState,
    pub stream: StreamState,
    pub status: String,
    pub status_history: Vec<StatusEntry>,
    pub refresh_in_progress: bool,
}

/// `after` shows `message` at `level`, added to the log of `before`.
pub open spec fn reported(
    before: GhStreamApp,
    after: GhStreamApp,
    message: Seq<char>,
    level: StatusLevel,
) -> bool {
    &&& after.status@ == message
    &&& exists|e: StatusEntry|
        e.message@ == message && e.level == level && after.status_history@ == #[trigger] recent_history(
            before.status_history@.push(e),
        )
}

/// The status line and its log are as they were.
pub open spec fn status_kept(before: GhStreamApp, after: GhStreamApp) -> bool {
    after.status == before.status && after.status_history@ == before.status_history@
}

/// The runtime, in the main window.
pub open spec fn runtime_of(app: GhStreamApp) -> Option<Runtime> {
    match app.mode {
        AppMode::Main(rt) => Some(rt),
        _ => None,
    }
}

/// The outcome of loading the configuration and opening the database.
pub open spec fn start_status(loaded: Result<Result<Runtime, String>, ConfigError>) -> Seq<char> {
    match loaded {
        Ok(Ok(_)) => "Ready"@,
        Ok(Err(e)) => "Database initialization failed: "@ + e@,
        Err(e) => first_run_status_of(e),
    }
}

/// The size of the next refresh request, and what to do about polling.
#[derive(Clone, Copy, Debug, PartialEq, Eq, Structural)]
pub enum PollAction {
    /// Start the polling clock; nothing is refreshed yet.
    StartClock,
    /// Refresh every saved query and restart the clock.
    Refresh,
    /// Not yet.
    Wait,
}

/// Whether a poll is due: the first check starts the clock; later checks
/// refresh once the interval has passed.
pub fn poll_action(seconds_since_last_poll: Option<u64>, interval_seconds: u32) -> (r: PollAction)
    ensures
        r == match seconds_since_last_poll {
            None => PollAction::StartClock,
            Some(s) => if s >= interval_seconds {
                PollAction::Refresh
            } else {
                PollAction::Wait
            },
        },
{
    match seconds_since_last_poll {
        None => PollAction::StartClock,
        Some(s) => if s >= interval_seconds as u64 {
            PollAction::Refresh
        } else {
            PollAction::Wait
        },
    }
}

/// A preference that can be changed from the menu.
#[derive(Clone, Copy, Debug, PartialEq, Eq, Structural)]
pub enum ConfigChange {
    DefaultSort(SortOrder),
    Theme(Theme),
    FontSize(FontSize),
    PollingInterval(u32),
}

/// `changed` is `config` with the preference changed.
pub open spec fn is_changed_config(changed: AppConfig, config: AppConfig, change: ConfigChange) -> bool {
    &&& changed.host == config.host
    &&& changed.auth == config.auth
    &&& changed.ui.accent_color == config.ui.accent_color
    &&& changed.ui.default_sort == match change {
        ConfigChange::DefaultSort(s) => s,
        _ => config.ui.default_sort,
    }
    &&& changed.ui.theme == match change {
        ConfigChange::Theme(t) => t,
        _ => config.ui.theme,
    }
    &&& changed.ui.font_size == match change {
        ConfigChange::FontSize(f) => f,
        _ => config.ui.font_size,
    }
    &&& changed.refresh.polling_interval_seconds == match change {
        ConfigChange::PollingInterval(p) => p,
        _ => config.refresh.polling_interval_seconds,
    }
}

pub fn changed_config(config: &AppConfig, change: ConfigChange) -> (r: AppConfig)
    ensures
        is_changed_config(r, *config, change),
{
    let mut candidate = config.clone();
    match change {
        ConfigChange::DefaultSort(sort) => candidate.ui.default_sort = sort,
        ConfigChange::Theme(theme) => candidate.ui.theme = theme,
        ConfigChange::FontSize(size) => candidate.ui.font_size = size,
        ConfigChange::PollingInterval(seconds) => candidate.refresh.polling_interval_seconds = seconds,
    }
    candidate
}

pub open spec fn change_saved_message(change: ConfigChange) -> Seq<char> {
    match change {
        ConfigChange::DefaultSort(_) => "Sort preference saved."@,
        ConfigChange::Theme(_) => "Theme saved."@,
        ConfigChange::FontSize(_) => "Font size saved."@,
        ConfigChange::PollingInterval(_) => "Polling interval saved."@,
    }
}

pub open spec fn change_failed_prefix(change: ConfigChange) -> Seq<char> {
    match change {
        ConfigChange::DefaultSort(_) => "Could not save sort preference"@,
        ConfigChange::Theme(_) => "Could not save theme"@,
        ConfigChange::FontSize(_) => "Could not save font size"@,
        ConfigChange::PollingInterval(_) => "Could not save polling interval"@,
    }
}

fn change_messages(change: ConfigChange) -> (r: (&'static str, &'static str))
    ensures
        r.0@ == change_saved_message(change),
        r.1@ == change_failed_prefix(change),
{
    match change {
        ConfigChange::DefaultSort(_) => ("Sort preference saved.", "Could not save sort preference"),
        ConfigChange::Theme(_) => ("Theme saved.", "Could not save theme"),
        ConfigChange::FontSize(_) => ("Font size saved.", "Could not save font size"),
        ConfigChange::PollingInterval(_) => (
            "Polling interval saved.",
            "Could not save polling interval",
        ),
    }
}

impl GhStreamApp {
    /// The application as it starts, given the outcome of loading the
    /// configuration and opening the database: the main window when both
    /// worked, else the setup form, with a status that says why.
    pub fn start(loaded: Result<Result<Runtime, String>, ConfigError>, stream: StreamState) -> (app: Self)
        ensures
            app.status@ == start_status(loaded),
            app.status_history@.len() == 1,
            app.status_history@[0].message@ == start_status(loaded),
            app.status_history@[0].level == StatusLevel::Info,
            !app.refresh_in_progress,
            app.stream == stream,
            match loaded {
                Ok(Ok(rt)) => app.mode == AppMode::Main(rt),
                _ => app.mode == AppMode::Setup { previous_runtime: None },
            },
    {
        let (mode, status) = match loaded {
            Ok(Ok(runtime)) => (AppMode::Main(runtime), "Ready".to_owned()),
            Ok(Err(error)) => (
                AppMode::Setup { previous_runtime: None },
                concat2("Database initialization failed: ", error.as_str()),
            ),
            Err(error) => (AppMode::Setup { previous_runtime: None }, first_run_status(&error)),
        };
        let mut history: Vec<StatusEntry> = Vec::new();
        history.push(StatusEntry::new(status.clone()));
        GhStreamApp {
            mode,
            setup: SetupState::default(),
            stream,
            status,
            status_history: history,
            refresh_in_progress: false,
        }
    }

    /// Shows an informational status.
    pub fn report(&mut self, message: String)
        ensures
            reported(*old(self), *final(self), message@, StatusLevel::Info),
            final(self).mode == old(self).mode,
            final(self).stream == old(self).stream,
            final(self).setup == old(self).setup,
            final(self).refresh_in_progress == old(self).refresh_in_progress,
    {
        let ghost before = self.status_history@;
        let ghost entry = StatusEntry { message, level: StatusLevel::Info };
        replace_status(&mut self.status, &mut self.status_history, message);
        assert(self.status_history@ == recent_history(before.push(entry)));
    }

    /// Shows an error status.
    pub fn report_error(&mut self, message: String)
        ensures
            reported(*old(self), *final(self), message@, StatusLevel::Error),
            final(self).mode == old(self).mode,
            final(self).stream == old(self).stream,
            final(self).setup == old(self).setup,
            final(self).refresh_in_progress == old(self).refresh_in_progress,
    {
        let ghost before = self.status_history@;
        let ghost entry = StatusEntry { message, level: StatusLevel::Error };
        replace_status_error(&mut self.status, &mut self.status_history, message);
        assert(self.status_history@ == recent_history(before.push(entry)));
    }

    /// The setup form was saved: the configuration file was written (or
    /// not) and the database opened for it (or not). Returns whether the
    /// view is to be loaded.
    pub fn setup_config_saved(&mut self, outcome: Result<Result<Runtime, String>, ConfigError>) -> (reload:
        bool)
        ensures
            match outcome {
                Ok(Ok(rt)) => reload && final(self).mode == AppMode::Main(rt) && reported(
                    *old(self),
                    *final(self),
                    "Configuration saved. PAT is stored as plain text in v1."@,
                    StatusLevel::Info,
                ),
                Ok(Err(e)) => !reload && final(self).mode == old(self).mode && reported(
                    *old(self),
                    *final(self),
                    "Configuration saved, but database failed: "@ + e@,
                    StatusLevel::Error,
                ),
                Err(e) => !reload && final(self).mode == old(self).mode && reported(
                    *old(self),
                    *final(self),
                    config_error_message(e),
                    StatusLevel::Error,
                ),
            },
    {
        match outcome {
            Ok(Ok(runtime)) => {
                self.mode = AppMode::Main(runtime);
                self.report("Configuration saved. PAT is stored as plain text in v1.".to_owned());
                true
            },
            Ok(Err(error)) => {
                self.report_error(concat2("Configuration saved, but database failed: ", error.as_str()));
                false
            },
            Err(error) => {
                self.report_error(error.message());
                false
            },
        }
    }

    /// Opens the setup form from the main window, filled in from the
    /// configuration; the runtime is kept to go back to.
    pub fn open_setup_settings(&mut self)
        ensures
            match old(self).mode {
                AppMode::Main(rt) => {
                    &&& final(self).mode == AppMode::Setup { previous_runtime: Some(rt) }
                    &&& is_form_of(final(self).setup, rt.config)
                    &&& reported(*old(self), *final(self), "Editing host settings."@, StatusLevel::Info)
                },
                AppMode::Setup { .. } => final(self).mode == old(self).mode && final(self).setup
                    == old(self).setup && status_kept(*old(self), *final(self)),
            },
            final(self).stream == old(self).stream,
    {
        let mut mode = AppMode::Setup { previous_runtime: None };
        std::mem::swap(&mut mode, &mut self.mode);
        match mode {
            AppMode::Main(runtime) => {
                self.setup = SetupState::from_config(&runtime.config);
                self.mode = AppMode::Setup { previous_runtime: Some(runtime) };
                self.report("Editing host settings.".to_owned());
            },
            AppMode::Setup { previous_runtime } => {
                self.mode = AppMode::Setup { previous_runtime };
            },
        }
    }

    /// Leaves the setup form without saving: back to the runtime it was
    /// opened from, if any. Returns whether the view is to be loaded.
    pub fn cancel_setup(&mut self) -> (reload: bool)
        ensures
            match old(self).mode {
                AppMode::Setup { previous_runtime: Some(rt) } => reload && final(self).mode
                    == AppMode::Main(rt) && reported(
                    *old(self),
                    *final(self),
                    "Host settings unchanged."@,
                    StatusLevel::Info,
                ),
                _ => !reload && final(self).mode == old(self).mode && status_kept(
                    *old(self),
                    *final(self),
                ),
            },
    {
        let mut mode = AppMode::Setup { previous_runtime: None };
        std::mem::swap(&mut mode, &mut self.mode);
        match mode {
            AppMode::Setup { previous_runtime: Some(runtime) } => {
                self.mode = AppMode::Main(runtime);
                self.report("Host settings unchanged.".to_owned());
                true
            },
            other => {
                self.mode = other;
                false
            },
        }
    }

    /// A refresh of `query_count` saved queries is asked for. Returns
    /// whether it starts: not without queries (which the status says), not
    /// while another runs, not outside the main window.
    pub fn start_refresh(&mut self, label: &str, query_count: usize) -> (start: bool)
        ensures
            query_count == 0 ==> !start && reported(
                *old(self),
                *final(self),
                label@ + ": no saved queries to refresh."@,
                StatusLevel::Info,
            ) && final(self).refresh_in_progress == old(self).refresh_in_progress,
            query_count > 0 && (old(self).refresh_in_progress || runtime_of(*old(self)) is None) ==> !start
                && status_kept(*old(self), *final(self)) && final(self).refresh_in_progress
                == old(self).refresh_in_progress,
            query_count > 0 && !old(self).refresh_in_progress && runtime_of(*old(self)) is Some ==> start
                && final(self).refresh_in_progress && reported(
                *old(self),
                *final(self),
                label@ + ": refreshing..."@,
                StatusLevel::Info,
            ),
            final(self).mode == old(self).mode,
            final(self).stream == old(self).stream,
    {
        if query_count == 0 {
            self.report(concat2(label, ": no saved queries to refresh."));
            return false;
        }
        if self.refresh_in_progress {
            return false;
        }
        match &self.mode {
            AppMode::Main(_) => {},
            AppMode::Setup { .. } => return false,
        }
        self.report(concat2(label, ": refreshing..."));
        self.refresh_in_progress = true;
        true
    }

    /// A refresh finished. The status says what it did. Returns whether
    /// the saved queries are to be loaded again (something changed or a
    /// query failed), and whether the changed items are to be taken into
    /// the view.
    pub fn finish_refresh(&mut self, outcome: &RefreshOutcome) -> (r: (bool, bool))
        ensures
            !final(self).refresh_in_progress,
            reported(
                *old(self),
                *final(self),
                refresh_status_text(
                    outcome.label@,
                    outcome.processed_count as nat,
                    outcome.changed_count as nat,
                    outcome.failed_count as nat,
                ),
                StatusLevel::Info,
            ),
            r.0 == (outcome.changed_item_ids@.len() > 0 || outcome.failed_count > 0),
            r.1 == (outcome.changed_item_ids@.len() > 0),
            final(self).mode == old(self).mode,
            final(self).stream == old(self).stream,
    {
        self.refresh_in_progress = false;
        let message = refresh_status(
            outcome.label.as_str(),
            outcome.processed_count,
            outcome.changed_count,
            outcome.failed_count,
        );
        self.report(message);
        let changed = outcome.changed_item_ids.len() > 0;
        (changed || outcome.failed_count > 0, changed)
    }

    /// Where to preview a query: its project's page for a project query,
    /// else the search page. `None` when the query is empty or names no
    /// previewable project, which the status says, or outside the main
    /// window.
    pub fn preview_url(&mut self, query: &str, source: StreamSource) -> (r: Option<String>)
        ensures
            trim_seq(query@).len() == 0 ==> r is None && reported(
                *old(self),
                *final(self),
                "Saved query must not be empty."@,
                StatusLevel::Info,
            ),
            trim_seq(query@).len() > 0 && runtime_of(*old(self)) is None ==> r is None && status_kept(
                *old(self),
                *final(self),
            ),
            (trim_seq(query@).len() > 0 && source != StreamSource::ProjectV2 && runtime_of(*old(self))
                is Some) ==> (r matches Some(url) && url@ == search_url_of(
                runtime_of(*old(self))->0.config.host,
                source,
                trim_seq(query@),
            ) && status_kept(*old(self), *final(self))),
            (trim_seq(query@).len() > 0 && source == StreamSource::ProjectV2 && runtime_of(*old(self))
                is Some) ==> match project_preview_of(runtime_of(*old(self))->0.config.host, query@) {
                Ok(u) => r matches Some(url) && url@ == u && status_kept(*old(self), *final(self)),
                Err(m) => r is None && reported(
                    *old(self),
                    *final(self),
                    "Could not preview project: "@ + m,
                    StatusLevel::Error,
                ),
            },
            final(self).mode == old(self).mode,
            final(self).stream == old(self).stream,
    {
        let trimmed = trim(query);
        if trimmed.as_str().is_empty() {
            self.report("Saved query must not be empty.".to_owned());
            return None;
        }
        let url = match &self.mode {
            AppMode::Main(runtime) => match source {
                StreamSource::ProjectV2 => {
                    proof {
                        lemma_trim_twice(query@);
                        assert(project_locator_of(trimmed@) == project_locator_of(query@));
                    }
                    match project_preview_url(&runtime.config.host, trimmed.as_str()) {
                        Ok(url) => Ok(url),
                        Err(error) => Err(error.message()),
                    }
                },
                _ => {
                    let url = runtime.config.host.search_url_for(source, trimmed.as_str());
                    proof {
                        lemma_trim_twice(query@);
                    }
                    Ok(url)
                },
            },
            AppMode::Setup { .. } => return None,
        };
        match url {
            Ok(url) => Some(url),
            Err(message) => {
                let ghost m = message@;
                self.report_error(concat2("Could not preview project: ", message.as_str()));
                assert(reported(*old(self), *final(self), "Could not preview project: "@ + m, StatusLevel::Error));
                None
            },
        }
    }

    /// The browser was asked to open a preview.
    pub fn preview_opened(&mut self, result: Result<(), String>)
        ensures
            match result {
                Ok(()) => reported(
                    *old(self),
                    *final(self),
                    "Opened query preview in external browser."@,
                    StatusLevel::Info,
                ),
                Err(e) => reported(*old(self), *final(self), "Could not open browser: "@ + e@, StatusLevel::Error),
            },
            final(self).mode == old(self).mode,
            final(self).stream == old(self).stream,
    {
        match result {
            Ok(()) => self.report("Opened query preview in external browser.".to_owned()),
            Err(error) => self.report_error(concat2("Could not open browser: ", error.as_str())),
        }
    }

    /// An item was opened in the browser and marked read; the status line
    /// (not the log) says how both went.
    pub fn item_opened(&mut self, read: Result<(), String>, opened: Result<(), String>)
        ensures
            final(self).status@ == match (read, opened) {
                (Ok(()), Ok(())) => "Opened in external browser."@,
                (Err(r), Ok(())) => "Opened in external browser, but could not mark item read: "@ + r@,
                (Ok(()), Err(o)) => "Could not open browser: "@ + o@,
                (Err(r), Err(o)) => "Could not open browser: "@ + o@ + "; could not mark item read: "@
                    + r@,
            },
            final(self).status_history@ == old(self).status_history@,
            final(self).mode == old(self).mode,
            final(self).stream == old(self).stream,
    {
        self.status = match (read, opened) {
            (Ok(()), Ok(())) => "Opened in external browser.".to_owned(),
            (Err(read_error), Ok(())) => concat2(
                "Opened in external browser, but could not mark item read: ",
                read_error.as_str(),
            ),
            (Ok(()), Err(open_error)) => concat2("Could not open browser: ", open_error.as_str()),
            (Err(read_error), Err(open_error)) => {
                let mut message = concat3(
                    "Could not open browser: ",
                    open_error.as_str(),
                    "; could not mark item read: ",
                );
                message.append(read_error.as_str());
                message
            },
        };
    }

    /// The read, bookmark or archive state of an item was set; the status
    /// line (not the log) says how it went.
    pub fn item_state_updated(&mut self, result: Result<(), String>)
        ensures
            final(self).status@ == match result {
                Ok(()) => "Item state updated."@,
                Err(e) => "Could not update item state: "@ + e@,
            },
            final(self).status_history@ == old(self).status_history@,
            final(self).mode == old(self).mode,
            final(self).stream == old(self).stream,
    {
        self.status = match result {
            Ok(()) => "Item state updated.".to_owned(),
            Err(error) => concat2("Could not update item state: ", error.as_str()),
        };
    }

    /// A preference change was written to the configuration file (or not):
    /// when it was, the runtime takes the changed configuration, which is
    /// the runtime's configuration with the preference changed (as
    /// `changed_config` builds it). Returns whether it was saved.
    pub fn config_change_saved(
        &mut self,
        change: ConfigChange,
        candidate: AppConfig,
        result: Result<(), ConfigError>,
    ) -> (saved: bool)
        requires
            runtime_of(*old(self)) is Some ==> is_changed_config(
                candidate,
                runtime_of(*old(self))->0.config,
                change,
            ),
        ensures
            runtime_of(*old(self)) is None ==> !saved && final(self).mode == old(self).mode
                && status_kept(*old(self), *final(self)),
            runtime_of(*old(self)) is Some ==> match result {
                Ok(()) => saved && runtime_of(*final(self)) == Some(
                    Runtime { config: candidate, ..runtime_of(*old(self))->0 },
                ) && reported(*old(self), *final(self), change_saved_message(change), StatusLevel::Info),
                Err(e) => !saved && final(self).mode == old(self).mode && reported(
                    *old(self),
                    *final(self),
                    change_failed_prefix(change) + ": "@ + config_error_message(e),
                    StatusLevel::Error,
                ),
            },
            final(self).stream == old(self).stream,
    {
        match &self.mode {
            AppMode::Main(_) => {},
            AppMode::Setup { .. } => return false,
        }
        let (saved_message, failed_prefix) = change_messages(change);
        match result {
            Ok(()) => {
                let mut mode = AppMode::Setup { previous_runtime: None };
                std::mem::swap(&mut mode, &mut self.mode);
                match mode {
                    AppMode::Main(runtime) => {
                        self.mode = AppMode::Main(Runtime { config: candidate, ..runtime });
                    },
                    other => {
                        self.mode = other;
                    },
                }
                self.report(saved_message.to_owned());
                true
            },
            Err(error) => {
                let message = error.message();
                self.report_error(concat3(failed_prefix, ": ", message.as_str()));
                false
            },
        }
    }
}

/// What is being marked read.
#[derive(Clone, Copy, Debug, PartialEq, Eq, Structural)]
pub enum ReadScope {
    SavedQuery,
    FilterStream,
    Library,
}

pub open spec fn read_scope_name(scope: ReadScope) -> Seq<char> {
    match scope {
        ReadScope::SavedQuery => "saved query"@,
        ReadScope::FilterStream => "filter stream"@,
        ReadScope::Library => "library"@,
    }
}

fn scope_name(scope: ReadScope) -> (r: &'static str)
    ensures
        r@ == read_scope_name(scope),
{
    match scope {
        ReadScope::SavedQuery => "saved query",
        ReadScope::FilterStream => "filter stream",
        ReadScope::Library => "library",
    }
}

/// What the view needs after changed items were read from the database.
#[derive(Clone, Copy, Debug, PartialEq, Eq, Structural)]
pub enum ViewFollowUp {
    Nothing,
    /// Load the whole view again.
    ReloadView,
    /// Compare the view with the database to see which changes are still
    /// waiting to be shown.
    DeferUpdates,
}

/// The selection after the saved query `id` is deleted: the inbox when the
/// saved query, or a filter stream of it, was selected.
pub open spec fn selection_after_query_deleted(
    selection: Selection,
    id: i64,
    queries: Seq<SavedQuery>,
) -> Option<Selection> {
    match selection {
        Selection::SavedQuery(s) => if s == id {
            Some(Selection::Library(LibraryView::Inbox))
        } else {
            None
        },
        Selection::FilterStream(f) => match find_first_query(queries, id) {
            Some(k) => if has_filter_stream(queries[k], f) {
                Some(Selection::Library(LibraryView::Inbox))
            } else {
                None
            },
            None => None,
        },
        Selection::Library(_) => None,
    }
}

/// The selection after the filter stream `id` is deleted: its saved query
/// (or the inbox) when it was selected.
pub open spec fn selection_after_stream_deleted(
    selection: Selection,
    id: i64,
    queries: Seq<SavedQuery>,
) -> Option<Selection> {
    if selection == Selection::FilterStream(id) {
        match find_first_stream_owner(queries, id) {
            Some(k) => Some(Selection::SavedQuery(queries[k].id)),
            None => Some(Selection::Library(LibraryView::Inbox)),
        }
    } else {
        None
    }
}

/// The status after an import of `count` saved queries from `path`.
pub open spec fn imported_message(count: nat, path: Seq<char>) -> Seq<char> {
    "Imported "@ + crate::text::decimal_seq(count) + " saved quer"@ + (if count == 1 {
        "y"@
    } else {
        "ies"@
    }) + " from "@ + path + ". Refresh to rebuild matches."@
}

proof fn lemma_trim_twice(s: Seq<char>)
    ensures
        trim_seq(trim_seq(s)) == trim_seq(s),
{
    crate::text::lemma_trim_idempotent(s);
}

impl GhStreamApp {
    /// Moves the selection to `selection` (the list scrolls to the top).
    fn reselect(&mut self, selection: Selection)
        ensures
            final(self).stream == (StreamState {
                selection,
                reset_item_list_scroll: true,
                ..old(self).stream
            }),
            final(self).mode == old(self).mode,
            status_kept(*old(self), *final(self)),
    {
        self.stream.selection = selection;
        self.stream.reset_item_list_scroll = true;
    }

    /// A saved query form with an empty name or query is refused, which the
    /// status says. Returns whether it was refused.
    pub fn query_form_rejected(&mut self, name: &str, query: &str) -> (rejected: bool)
        ensures
            rejected == (trim_seq(name@).len() == 0 || trim_seq(query@).len() == 0),
            rejected ==> reported(
                *old(self),
                *final(self),
                "Saved query name and query must not be empty."@,
                StatusLevel::Info,
            ),
            !rejected ==> status_kept(*old(self), *final(self)),
            final(self).mode == old(self).mode,
            final(self).stream == old(self).stream,
    {
        let name = trim(name);
        let query = trim(query);
        if name.as_str().is_empty() || query.as_str().is_empty() {
            self.report("Saved query name and query must not be empty.".to_owned());
            true
        } else {
            false
        }
    }

    /// A saved query was added (and, when it is to be disabled, disabled).
    /// The new query is selected. Returns whether the sidebar and view are
    /// to be loaded again: not when disabling it failed.
    pub fn query_added(&mut self, added: Result<i64, String>, disabled: Result<(), String>) -> (reload:
        bool)
        ensures
            match (added, disabled) {
                (Ok(_), Err(e)) => !reload && reported(
                    *old(self),
                    *final(self),
                    "Could not disable saved query: "@ + e@,
                    StatusLevel::Info,
                ) && final(self).stream == old(self).stream,
                (Ok(id), Ok(())) => reload && final(self).stream.selection == Selection::SavedQuery(id)
                    && final(self).stream.reset_item_list_scroll && reported(
                    *old(self),
                    *final(self),
                    "Saved query created."@,
                    StatusLevel::Info,
                ),
                (Err(e), _) => reload && reported(
                    *old(self),
                    *final(self),
                    "Could not create saved query: "@ + e@,
                    StatusLevel::Error,
                ) && final(self).stream == old(self).stream,
            },
            final(self).mode == old(self).mode,
    {
        match added {
            Ok(id) => match disabled {
                Err(error) => {
                    self.report(concat2("Could not disable saved query: ", error.as_str()));
                    false
                },
                Ok(()) => {
                    self.reselect(Selection::SavedQuery(id));
                    self.report("Saved query created.".to_owned());
                    true
                },
            },
            Err(error) => {
                self.report_error(concat2("Could not create saved query: ", error.as_str()));
                true
            },
        }
    }

    /// A saved query was updated.
    pub fn query_updated(&mut self, result: Result<(), String>)
        ensures
            match result {
                Ok(()) => reported(*old(self), *final(self), "Saved query updated."@, StatusLevel::Info),
                Err(e) => reported(
                    *old(self),
                    *final(self),
                    "Could not update saved query: "@ + e@,
                    StatusLevel::Error,
                ),
            },
            final(self).mode == old(self).mode,
            final(self).stream == old(self).stream,
    {
        match result {
            Ok(()) => self.report("Saved query updated.".to_owned()),
            Err(error) => self.report_error(concat2("Could not update saved query: ", error.as_str())),
        }
    }

    /// The saved query `id` was deleted (or not). When it, or one of its
    /// filter streams, was selected, the inbox is selected.
    pub fn query_deleted(&mut self, id: i64, result: Result<(), String>)
        ensures
            runtime_of(*old(self)) is None ==> final(self).stream == old(self).stream && status_kept(
                *old(self),
                *final(self),
            ),
            runtime_of(*old(self)) is Some ==> match result {
                Ok(()) => reported(*old(self), *final(self), "Saved query deleted."@, StatusLevel::Info)
                    && match selection_after_query_deleted(
                    old(self).stream.selection,
                    id,
                    runtime_of(*old(self))->0.saved_queries@,
                ) {
                    Some(s) => final(self).stream.selection == s
                        && final(self).stream.reset_item_list_scroll,
                    None => final(self).stream == old(self).stream,
                },
                Err(e) => reported(
                    *old(self),
                    *final(self),
                    "Could not delete saved query: "@ + e@,
                    StatusLevel::Error,
                ) && final(self).stream == old(self).stream,
            },
            final(self).mode == old(self).mode,
    {
        let leave = match &self.mode {
            AppMode::Main(runtime) => match self.stream.selection {
                Selection::SavedQuery(selected) => selected == id,
                Selection::FilterStream(stream_id) => match find_query(&runtime.saved_queries, id) {
                    Some(k) => {
                        proof {
                            lemma_find_first_query(runtime.saved_queries@, id, k as int);
                        }
                        let streams = &runtime.saved_queries[k].filter_streams;
                        let mut found = false;
                        let mut g: usize = 0;
                        while g < streams.len()
                            invariant
                                g <= streams@.len(),
                                found == exists|h: int|
                                    0 <= h < g && (#[trigger] streams@[h]).id == stream_id,
                            decreases streams.len() - g,
                        {
                            if streams[g].id == stream_id {
                                found = true;
                            }
                            g = g + 1;
                        }
                        found
                    },
                    None => {
                        proof {
                            lemma_find_first_query_none(runtime.saved_queries@, id);
                        }
                        false
                    },
                },
                Selection::Library(_) => false,
            },
            AppMode::Setup { .. } => return ,
        };
        match result {
            Ok(()) => {
                if leave {
                    self.reselect(Selection::Library(LibraryView::Inbox));
                }
                self.report("Saved query deleted.".to_owned());
            },
            Err(error) => {
                self.report_error(concat2("Could not delete saved query: ", error.as_str()));
            },
        }
    }

    /// A filter stream form with an empty name or filter is refused, which
    /// the status says. Returns whether it was refused.
    pub fn filter_stream_form_rejected(&mut self, name: &str, filter_query: &str) -> (rejected: bool)
        ensures
            rejected == (trim_seq(name@).len() == 0 || trim_seq(filter_query@).len() == 0),
            rejected ==> reported(
                *old(self),
                *final(self),
                "Filter stream name and filter must not be empty."@,
                StatusLevel::Info,
            ),
            !rejected ==> status_kept(*old(self), *final(self)),
            final(self).mode == old(self).mode,
            final(self).stream == old(self).stream,
    {
        let name = trim(name);
        let filter_query = trim(filter_query);
        if name.as_str().is_empty() || filter_query.as_str().is_empty() {
            self.report("Filter stream name and filter must not be empty.".to_owned());
            true
        } else {
            false
        }
    }

    /// The database refused a filter stream's filter.
    pub fn filter_rejected(&mut self, creating: bool, error: &str)
        ensures
            reported(
                *old(self),
                *final(self),
                (if creating {
                    "Could not create filter stream: "@
                } else {
                    "Could not update filter stream: "@
                }) + error@,
                StatusLevel::Error,
            ),
            final(self).mode == old(self).mode,
            final(self).stream == old(self).stream,
    {
        if creating {
            self.report_error(concat2("Could not create filter stream: ", error));
        } else {
            self.report_error(concat2("Could not update filter stream: ", error));
        }
    }

    /// A filter stream was added; it is selected.
    pub fn filter_stream_added(&mut self, result: Result<i64, String>)
        ensures
            match result {
                Ok(id) => final(self).stream.selection == Selection::FilterStream(id)
                    && final(self).stream.reset_item_list_scroll && reported(
                    *old(self),
                    *final(self),
                    "Filter stream created."@,
                    StatusLevel::Info,
                ),
                Err(e) => reported(
                    *old(self),
                    *final(self),
                    "Could not create filter stream: "@ + e@,
                    StatusLevel::Error,
                ) && final(self).stream == old(self).stream,
            },
            final(self).mode == old(self).mode,
    {
        match result {
            Ok(id) => {
                self.reselect(Selection::FilterStream(id));
                self.report("Filter stream created.".to_owned());
            },
            Err(error) => self.report_error(concat2("Could not create filter stream: ", error.as_str())),
        }
    }

    /// A filter stream was updated.
    pub fn filter_stream_updated(&mut self, result: Result<(), String>)
        ensures
            match result {
                Ok(()) => reported(*old(self), *final(self), "Filter stream updated."@, StatusLevel::Info),
                Err(e) => reported(
                    *old(self),
                    *final(self),
                    "Could not update filter stream: "@ + e@,
                    StatusLevel::Error,
                ),
            },
            final(self).mode == old(self).mode,
            final(self).stream == old(self).stream,
    {
        match result {
            Ok(()) => self.report("Filter stream updated.".to_owned()),
            Err(error) => self.report_error(concat2("Could not update filter stream: ", error.as_str())),
        }
    }

    /// The filter stream `id` was deleted (or not). When it was selected,
    /// its saved query is selected, or the inbox when it has none.
    pub fn filter_stream_deleted(&mut self, id: i64, result: Result<(), String>)
        ensures
            runtime_of(*old(self)) is None ==> final(self).stream == old(self).stream && status_kept(
                *old(self),
                *final(self),
            ),
            runtime_of(*old(self)) is Some ==> match result {
                Ok(()) => reported(*old(self), *final(self), "Filter stream deleted."@, StatusLevel::Info)
                    && match selection_after_stream_deleted(
                    old(self).stream.selection,
                    id,
                    runtime_of(*old(self))->0.saved_queries@,
                ) {
                    Some(s) => final(self).stream.selection == s
                        && final(self).stream.reset_item_list_scroll,
                    None => final(self).stream == old(self).stream,
                },
                Err(e) => reported(
                    *old(self),
                    *final(self),
                    "Could not delete filter stream: "@ + e@,
                    StatusLevel::Error,
                ) && final(self).stream == old(self).stream,
            },
            final(self).mode == old(self).mode,
    {
        let parent = match &self.mode {
            AppMode::Main(runtime) => match find_filter_stream(&runtime.saved_queries, id) {
                Some((k, _)) => {
                    proof {
                        lemma_find_first_stream_owner(runtime.saved_queries@, id, k as int);
                    }
                    Some(runtime.saved_queries[k].id)
                },
                None => {
                    proof {
                        lemma_find_first_stream_owner_none(runtime.saved_queries@, id);
                    }
                    None
                },
            },
            AppMode::Setup { .. } => return ,
        };
        match result {
            Ok(()) => {
                if self.stream.selection == Selection::FilterStream(id) {
                    let next = match parent {
                        Some(query_id) => Selection::SavedQuery(query_id),
                        None => Selection::Library(LibraryView::Inbox),
                    };
                    self.reselect(next);
                }
                self.report("Filter stream deleted.".to_owned());
            },
            Err(error) => self.report_error(concat2("Could not delete filter stream: ", error.as_str())),
        }
    }

    /// A saved query was moved up or down (or was already at the end).
    pub fn query_moved(&mut self, up: bool, result: Result<bool, String>)
        ensures
            match result {
                Ok(true) => reported(
                    *old(self),
                    *final(self),
                    if up {
                        "Saved query moved up."@
                    } else {
                        "Saved query moved down."@
                    },
                    StatusLevel::Info,
                ),
                Ok(false) => reported(
                    *old(self),
                    *final(self),
                    if up {
                        "Saved query is already at the top."@
                    } else {
                        "Saved query is already at the bottom."@
                    },
                    StatusLevel::Info,
                ),
                Err(e) => reported(
                    *old(self),
                    *final(self),
                    "Could not move saved query: "@ + e@,
                    StatusLevel::Error,
                ),
            },
            final(self).mode == old(self).mode,
            final(self).stream == old(self).stream,
    {
        match result {
            Ok(true) => if up {
                self.report("Saved query moved up.".to_owned())
            } else {
                self.report("Saved query moved down.".to_owned())
            },
            Ok(false) => if up {
                self.report("Saved query is already at the top.".to_owned())
            } else {
                self.report("Saved query is already at the bottom.".to_owned())
            },
            Err(error) => self.report_error(concat2("Could not move saved query: ", error.as_str())),
        }
    }

    /// The unread items of what is to be marked read could not be listed.
    pub fn unread_listing_failed(&mut self, scope: ReadScope, error: &str)
        ensures
            reported(
                *old(self),
                *final(self),
                "Could not inspect "@ + read_scope_name(scope) + " items: "@ + error@,
                StatusLevel::Error,
            ),
            final(self).mode == old(self).mode,
            final(self).stream == old(self).stream,
    {
        let mut message = concat3("Could not inspect ", scope_name(scope), " items: ");
        message.append(error);
        self.report_error(message);
    }

    /// Items were marked read (or not). Returns whether the sidebar and the
    /// changed items are to be loaded again: only when some were marked.
    pub fn marked_read(&mut self, scope: ReadScope, result: Result<usize, String>) -> (reload: bool)
        ensures
            match result {
                Ok(n) => reload == (n > 0) && reported(
                    *old(self),
                    *final(self),
                    if n == 0 {
                        "No unread items to mark read."@
                    } else {
                        "Marked "@ + crate::text::decimal_seq(n as nat) + " items as read."@
                    },
                    StatusLevel::Info,
                ),
                Err(e) => !reload && reported(
                    *old(self),
                    *final(self),
                    "Could not mark "@ + read_scope_name(scope) + " read: "@ + e@,
                    StatusLevel::Error,
                ),
            },
            final(self).mode == old(self).mode,
            final(self).stream == old(self).stream,
    {
        match result {
            Ok(count) => {
                if count == 0 {
                    self.report("No unread items to mark read.".to_owned());
                    false
                } else {
                    let number = crate::text::u64_to_string(count as u64);
                    self.report(concat3("Marked ", number.as_str(), " items as read."));
                    true
                }
            },
            Err(error) => {
                let mut message = concat3("Could not mark ", scope_name(scope), " read: ");
                message.append(error.as_str());
                self.report_error(message);
                false
            },
        }
    }

    /// The path for an export or import, trimmed; an empty one is refused,
    /// which the status says.
    pub fn transfer_path(&mut self, path: &str, export: bool) -> (r: Option<String>)
        ensures
            trim_seq(path@).len() == 0 ==> r is None && reported(
                *old(self),
                *final(self),
                if export {
                    "Saved query export path must not be empty."@
                } else {
                    "Saved query import path must not be empty."@
                },
                StatusLevel::Info,
            ),
            trim_seq(path@).len() > 0 ==> (r matches Some(p) && p@ == trim_seq(path@) && status_kept(
                *old(self),
                *final(self),
            )),
            final(self).mode == old(self).mode,
            final(self).stream == old(self).stream,
    {
        let trimmed = trim(path);
        if trimmed.as_str().is_empty() {
            if export {
                self.report("Saved query export path must not be empty.".to_owned());
            } else {
                self.report("Saved query import path must not be empty.".to_owned());
            }
            None
        } else {
            Some(trimmed)
        }
    }

    /// The saved queries were exported to `path` (or not).
    pub fn queries_exported(&mut self, path: &str, result: Result<(), String>)
        ensures
            match result {
                Ok(()) => reported(
                    *old(self),
                    *final(self),
                    "Saved queries exported to "@ + path@ + "."@,
                    StatusLevel::Info,
                ),
                Err(e) => reported(
                    *old(self),
                    *final(self),
                    "Could not export saved queries: "@ + e@,
                    StatusLevel::Error,
                ),
            },
            final(self).mode == old(self).mode,
            final(self).stream == old(self).stream,
    {
        match result {
            Ok(()) => self.report(concat3("Saved queries exported to ", path, ".")),
            Err(error) => self.report_error(concat2("Could not export saved queries: ", error.as_str())),
        }
    }

    /// An import failed: the file could not be read, or the database
    /// refused the queries.
    pub fn import_failed(&mut self, error: &str)
        ensures
            reported(
                *old(self),
                *final(self),
                "Could not import saved queries: "@ + error@,
                StatusLevel::Error,
            ),
            final(self).mode == old(self).mode,
            final(self).stream == old(self).stream,
    {
        self.report_error(concat2("Could not import saved queries: ", error));
    }

    /// A saved query file is imported only for the host it was written
    /// for. Returns whether the hosts match; when they do not, the status
    /// says so.
    pub fn import_host_matches(&mut self, file_fingerprint: &str) -> (matches: bool)
        ensures
            runtime_of(*old(self)) is None ==> !matches && status_kept(*old(self), *final(self)),
            runtime_of(*old(self)) is Some ==> matches == (file_fingerprint@
                == crate::models::config::fingerprint_of(runtime_of(*old(self))->0.config.host)),
            runtime_of(*old(self)) is Some && !matches ==> reported(
                *old(self),
                *final(self),
                "Could not import saved queries: saved query file host does not match the current host."@,
                StatusLevel::Error,
            ),
            matches ==> status_kept(*old(self), *final(self)),
            final(self).mode == old(self).mode,
            final(self).stream == old(self).stream,
    {
        let current = match &self.mode {
            AppMode::Main(runtime) => runtime.config.host.fingerprint(),
            AppMode::Setup { .. } => return false,
        };
        if crate::text::str_eq(file_fingerprint, current.as_str()) {
            true
        } else {
            self.report_error(
                "Could not import saved queries: saved query file host does not match the current host.".to_owned(),
            );
            false
        }
    }

    /// Opens the saved query manager on what is selected: the selected
    /// saved query or filter stream, else, when the form is empty, the
    /// first saved query.
    pub fn open_saved_query_manager(&mut self)
        ensures
            match runtime_of(*old(self)) {
                Some(rt) => opened_on(
                    final(self).stream.saved_query_manager,
                    old(self).stream.saved_query_manager,
                    old(self).stream.selection,
                    rt.saved_queries@,
                ),
                None => final(self).stream.saved_query_manager == (SavedQueryManagerState {
                    open: true,
                    transfer_open: false,
                    ..old(self).stream.saved_query_manager
                }),
            },
            final(self).stream == (StreamState {
                saved_query_manager: final(self).stream.saved_query_manager,
                ..old(self).stream
            }),
            final(self).mode == old(self).mode,
            status_kept(*old(self), *final(self)),
    {
        self.stream.saved_query_manager.open = true;
        self.stream.saved_query_manager.transfer_open = false;
        let queries = match &self.mode {
            AppMode::Main(runtime) => &runtime.saved_queries,
            AppMode::Setup { .. } => return ,
        };
        match self.stream.selection {
            Selection::SavedQuery(id) => match find_query(queries, id) {
                Some(k) => {
                    proof {
                        lemma_find_first_query(queries@, id, k as int);
                    }
                    load_query_draft(&mut self.stream.saved_query_manager, &queries[k]);
                    return ;
                },
                None => {
                    proof {
                        lemma_find_first_query_none(queries@, id);
                    }
                },
            },
            Selection::FilterStream(id) => match find_filter_stream(queries, id) {
                Some((k, f)) => {
                    proof {
                        lemma_find_first_stream_owner(queries@, id, k as int);
                        lemma_first_stream_index(queries@[k as int].filter_streams@, id, f as int);
                    }
                    let query_id = queries[k].id;
                    load_filter_stream_draft(
                        &mut self.stream.saved_query_manager,
                        query_id,
                        &queries[k].filter_streams[f],
                    );
                    return ;
                },
                None => {
                    proof {
                        lemma_find_first_stream_owner_none(queries@, id);
                    }
                },
            },
            Selection::Library(_) => {},
        }
        if self.stream.saved_query_manager.edit_name.as_str().is_empty() && queries.len() > 0 {
            load_query_draft(&mut self.stream.saved_query_manager, &queries[0]);
        }
    }

    /// Saved queries were imported from `path`, replacing those before; the
    /// sidebar has been loaded again. The first imported query is selected
    /// (the inbox when there is none) and the manager opens on it.
    pub fn queries_imported(&mut self, path: &str, count: usize, inserted_ids: &Vec<i64>)
        ensures
            final(self).stream.selection == if inserted_ids@.len() > 0 {
                Selection::SavedQuery(inserted_ids@[0])
            } else {
                Selection::Library(LibraryView::Inbox)
            },
            final(self).stream.reset_item_list_scroll,
            match runtime_of(*old(self)) {
                Some(rt) => opened_on(
                    final(self).stream.saved_query_manager,
                    old(self).stream.saved_query_manager,
                    final(self).stream.selection,
                    rt.saved_queries@,
                ),
                None => final(self).stream.saved_query_manager.open,
            },
            reported(*old(self), *final(self), imported_message(count as nat, path@), StatusLevel::Info),
            final(self).mode == old(self).mode,
    {
        if inserted_ids.len() > 0 {
            self.reselect(Selection::SavedQuery(inserted_ids[0]));
        } else {
            self.reselect(Selection::Library(LibraryView::Inbox));
        }
        self.open_saved_query_manager();
        let number = crate::text::u64_to_string(count as u64);
        let mut message = concat3("Imported ", number.as_str(), " saved quer");
        if count == 1 {
            message.append("y");
        } else {
            message.append("ies");
        }
        message.append(" from ");
        message.append(path);
        message.append(". Refresh to rebuild matches.");
        self.report(message);
    }

    /// The sidebar was loaded from the database (or not).
    pub fn queries_reloaded(&mut self, result: Result<(LibraryCounts, Vec<SavedQuery>), String>)
        ensures
            runtime_of(*old(self)) is None ==> final(self).mode == old(self).mode && status_kept(
                *old(self),
                *final(self),
            ),
            runtime_of(*old(self)) is Some ==> match result {
                Ok(loaded) => runtime_of(*final(self)) == Some(
                    Runtime {
                        library_counts: loaded.0,
                        saved_queries: loaded.1,
                        ..runtime_of(*old(self))->0
                    },
                ) && status_kept(*old(self), *final(self)),
                Err(e) => final(self).mode == old(self).mode && reported(
                    *old(self),
                    *final(self),
                    "Could not load saved queries: "@ + e@,
                    StatusLevel::Error,
                ),
            },
            final(self).stream == old(self).stream,
    {
        match &self.mode {
            AppMode::Main(_) => {},
            AppMode::Setup { .. } => return ,
        }
        match result {
            Ok((library_counts, saved_queries)) => {
                let mut mode = AppMode::Setup { previous_runtime: None };
                std::mem::swap(&mut mode, &mut self.mode);
                match mode {
                    AppMode::Main(runtime) => {
                        self.mode = AppMode::Main(Runtime { library_counts, saved_queries, ..runtime });
                    },
                    other => {
                        self.mode = other;
                    },
                }
            },
            Err(error) => self.report_error(concat2("Could not load saved queries: ", error.as_str())),
        }
    }

    /// The view was loaded from the database (or not); once it is, no
    /// change waits to be shown.
    pub fn view_reloaded(&mut self, result: Result<Vec<StreamItem>, String>)
        ensures
            runtime_of(*old(self)) is None ==> final(self).mode == old(self).mode && final(self).stream
                == old(self).stream && status_kept(*old(self), *final(self)),
            runtime_of(*old(self)) is Some ==> match result {
                Ok(items) => runtime_of(*final(self)) == Some(
                    Runtime { items, ..runtime_of(*old(self))->0 },
                ) && final(self).stream.pending_remote_item_ids@.len() == 0 && status_kept(
                    *old(self),
                    *final(self),
                ),
                Err(e) => final(self).mode == old(self).mode && final(self).stream == old(self).stream
                    && reported(
                    *old(self),
                    *final(self),
                    "Could not load stream items: "@ + e@,
                    StatusLevel::Error,
                ),
            },
            final(self).stream.selection == old(self).stream.selection,
    {
        match &self.mode {
            AppMode::Main(_) => {},
            AppMode::Setup { .. } => return ,
        }
        match result {
            Ok(items) => {
                let mut mode = AppMode::Setup { previous_runtime: None };
                std::mem::swap(&mut mode, &mut self.mode);
                match mode {
                    AppMode::Main(runtime) => {
                        self.mode = AppMode::Main(Runtime { items, ..runtime });
                    },
                    other => {
                        self.mode = other;
                    },
                }
                self.stream.pending_remote_item_ids = Vec::new();
            },
            Err(error) => self.report_error(concat2("Could not load stream items: ", error.as_str())),
        }
    }
}

impl GhStreamApp {
    /// Items that a refresh changed were read from the database, as far as
    /// they are in the current selection. While other changes wait to be
    /// shown, only the read, bookmark and archive state is taken in (and the
    /// waiting changes are then looked at again); when the changes move
    /// items into or out of the view, it is to be loaded again; else the
    /// copies are taken into the view.
    pub fn changed_items_loaded(
        &mut self,
        changed_item_ids: &Vec<i64>,
        result: Result<Vec<StreamItem>, String>,
    ) -> (follow_up: ViewFollowUp)
        ensures
            changed_item_ids@.len() == 0 || runtime_of(*old(self)) is None ==> follow_up
                == ViewFollowUp::Nothing && final(self).mode == old(self).mode && status_kept(
                *old(self),
                *final(self),
            ),
            changed_item_ids@.len() > 0 && runtime_of(*old(self)) is Some ==> ({
                let rt = runtime_of(*old(self))->0;
                let pending = old(self).stream.pending_remote_item_ids@.len() > 0;
                let sort = rt.config.ui.default_sort;
                match result {
                    Ok(changed) => status_kept(*old(self), *final(self)) && (runtime_of(*final(self))
                        matches Some(now) && now.config == rt.config && now.saved_queries
                        == rt.saved_queries && if pending {
                        follow_up == ViewFollowUp::DeferUpdates && now.items@ == locally_patched(
                            rt.items@,
                            changed_item_ids@,
                            changed@,
                        )
                    } else if membership_changed(rt.items@, changed_item_ids@, changed@, sort) {
                        follow_up == ViewFollowUp::ReloadView && now.items == rt.items
                    } else {
                        follow_up == ViewFollowUp::Nothing && is_patched_view(
                            now.items@,
                            rt.items@,
                            changed@,
                            sort,
                        )
                    }),
                    Err(e) => final(self).mode == old(self).mode && reported(
                        *old(self),
                        *final(self),
                        "Could not load changed stream items: "@ + e@,
                        StatusLevel::Error,
                    ) && follow_up == if pending {
                        ViewFollowUp::DeferUpdates
                    } else {
                        ViewFollowUp::Nothing
                    },
                }
            }),
            final(self).stream == old(self).stream,
    {
        if changed_item_ids.len() == 0 {
            return ViewFollowUp::Nothing;
        }
        match &self.mode {
            AppMode::Main(_) => {},
            AppMode::Setup { .. } => return ViewFollowUp::Nothing,
        }
        let pending = self.stream.pending_remote_item_ids.len() > 0;
        match result {
            Ok(changed_items) => {
                let mut mode = AppMode::Setup { previous_runtime: None };
                std::mem::swap(&mut mode, &mut self.mode);
                let mut follow_up = ViewFollowUp::Nothing;
                match mode {
                    AppMode::Main(runtime) => {
                        let mut runtime = runtime;
                        let sort = runtime.config.ui.default_sort;
                        if pending {
                            patch_local_item_state(&mut runtime.items, changed_item_ids, &changed_items);
                            follow_up = ViewFollowUp::DeferUpdates;
                        } else if current_view_membership_changed(
                            &runtime.items,
                            changed_item_ids,
                            &changed_items,
                            sort,
                        ) {
                            follow_up = ViewFollowUp::ReloadView;
                        } else {
                            patch_current_items(&mut runtime.items, changed_items, sort);
                        }
                        self.mode = AppMode::Main(runtime);
                    },
                    other => {
                        self.mode = other;
                    },
                }
                follow_up
            },
            Err(error) => {
                self.report_error(concat2("Could not load changed stream items: ", error.as_str()));
                if pending {
                    ViewFollowUp::DeferUpdates
                } else {
                    ViewFollowUp::Nothing
                }
            },
        }
    }

    /// The current view was read from the database while changes wait to be
    /// shown. When it is what is on screen, nothing waits any more; else
    /// the changes that wait are those of the waiting and newly changed
    /// items that look different on screen than in the database.
    pub fn remote_updates_loaded(
        &mut self,
        changed_item_ids: &Vec<i64>,
        result: Result<Vec<StreamItem>, String>,
    )
        requires
            strictly_increasing(old(self).stream.pending_remote_item_ids@),
        ensures
            strictly_increasing(final(self).stream.pending_remote_item_ids@),
            final(self).mode == old(self).mode,
            final(self).stream.selection == old(self).stream.selection,
            (changed_item_ids@.len() == 0 && old(self).stream.pending_remote_item_ids@.len() == 0)
                || runtime_of(*old(self)) is None ==> final(self).stream == old(self).stream
                && status_kept(*old(self), *final(self)),
            !(changed_item_ids@.len() == 0 && old(self).stream.pending_remote_item_ids@.len() == 0)
                && runtime_of(*old(self)) is Some ==> match result {
                Ok(latest) => status_kept(*old(self), *final(self)) && if same_items(
                    latest@,
                    runtime_of(*old(self))->0.items@,
                ) {
                    final(self).stream.pending_remote_item_ids@.len() == 0
                } else {
                    forall|id: i64|
                        #[trigger] final(self).stream.pending_remote_item_ids@.contains(id) <==> ((old(
                            self,
                        ).stream.pending_remote_item_ids@.contains(id) || changed_item_ids@.contains(
                            id,
                        )) && differs_at(runtime_of(*old(self))->0.items@, latest@, id))
                },
                Err(e) => final(self).stream == old(self).stream && reported(
                    *old(self),
                    *final(self),
                    "Could not load stream items: "@ + e@,
                    StatusLevel::Error,
                ),
            },
    {
        if changed_item_ids.len() == 0 && self.stream.pending_remote_item_ids.len() == 0 {
            return ;
        }
        let current = match &self.mode {
            AppMode::Main(runtime) => &runtime.items,
            AppMode::Setup { .. } => return ,
        };
        match result {
            Ok(latest) => {
                if item_lists_equal(&latest, current) {
                    self.stream.pending_remote_item_ids = Vec::new();
                } else {
                    let ghost old_pending = self.stream.pending_remote_item_ids@;
                    let mut waiting: Vec<i64> = Vec::new();
                    let mut i: usize = 0;
                    while i < self.stream.pending_remote_item_ids.len()
                        invariant
                            i <= self.stream.pending_remote_item_ids@.len(),
                            self.stream.pending_remote_item_ids@ == old_pending,
                            strictly_increasing(waiting@),
                            forall|id: i64|
                                #[trigger] waiting@.contains(id) <==> (old_pending.take(
                                    i as int,
                                ).contains(id) && differs_at(current@, latest@, id)),
                        decreases self.stream.pending_remote_item_ids.len() - i,
                    {
                        let id = self.stream.pending_remote_item_ids[i];
                        if item_differs(current, &latest, id) {
                            insert_sorted(&mut waiting, id);
                        }
                        proof {
                            lemma_take_contains_step(old_pending, i as int);
                        }
                        i = i + 1;
                    }
                    proof {
                        assert(old_pending.take(old_pending.len() as int) =~= old_pending);
                    }
                    let mut j: usize = 0;
                    while j < changed_item_ids.len()
                        invariant
                            j <= changed_item_ids@.len(),
                            strictly_increasing(waiting@),
                            forall|id: i64|
                                #[trigger] waiting@.contains(id) <==> ((old_pending.contains(id)
                                    || changed_item_ids@.take(j as int).contains(id)) && differs_at(
                                    current@,
                                    latest@,
                                    id,
                                )),
                        decreases changed_item_ids.len() - j,
                    {
                        let id = changed_item_ids[j];
                        if item_differs(current, &latest, id) {
                            insert_sorted(&mut waiting, id);
                        }
                        proof {
                            lemma_take_contains_step(changed_item_ids@, j as int);
                        }
                        j = j + 1;
                    }
                    proof {
                        assert(changed_item_ids@.take(changed_item_ids@.len() as int)
                            =~= changed_item_ids@);
                    }
                    self.stream.pending_remote_item_ids = waiting;
                }
            },
            Err(error) => self.report_error(concat2("Could not load stream items: ", error.as_str())),
        }
    }
}

proof fn lemma_take_contains_step(s: Seq<i64>, i: int)
    requires
        0 <= i < s.len(),
    ensures
        forall|x: i64| #[trigger] s.take(i + 1).contains(x) <==> (s.take(i).contains(x) || x == s[i]),
{
    assert(s.take(i + 1) =~= s.take(i).push(s[i]));
    assert forall|x: i64| #[trigger] s.take(i + 1).contains(x) <==> (s.take(i).contains(x) || x == s[i]) by {
        if s.take(i + 1).contains(x) {
            let k = choose|k: int| 0 <= k < i + 1 && #[trigger] s.take(i + 1)[k] == x;
            if k < i {
                assert(s.take(i)[k] == x);
            }
        }
        if s.take(i).contains(x) {
            let k = choose|k: int| 0 <= k < i && #[trigger] s.take(i)[k] == x;
            assert(s.take(i + 1)[k] == x);
        }
        if x == s[i] {
            assert(s.take(i + 1)[i] == x);
        }
    }
}

} // verus!
