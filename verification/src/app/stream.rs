//! The state of the main window: what is selected and filtered, and the
//! events the window reports.

use vstd::prelude::*;

use crate::app::manager::SavedQueryManagerState;
use crate::models::config::{FontSize, SortOrder, Theme};
use crate::models::saved_query::StreamSource;
use crate::models::view::{LibraryView, Selection, StreamFilter};
use crate::text::{concat3, copy_str, split_whitespace, str_eq, trim, trim_seq, words_spec};

verus! {

/// Whether the status log is shown.
#[derive(Clone, Copy, Debug, Default, PartialEq, Eq)]
pub struct StatusLogState {
    pub open: bool,
}

/// The state of the main window.
#[derive(Debug, PartialEq, Eq)]
pub struct StreamState {
    pub selection: Selection,
    pub filter: Option<StreamFilter>,
    pub local_filter: Option<String>,
    pub local_filter_input: String,
    pub pending_remote_item_ids: Vec<i64>,
    pub reset_item_list_scroll: bool,
    pub polling_interval_draft: u32,
    pub saved_query_manager: SavedQueryManagerState,
    pub status_log: StatusLogState,
}

impl StreamState {
    /// The window as it opens: the inbox, unfiltered.
    pub fn new(saved_query_manager: SavedQueryManagerState) -> (r: Self)
        ensures
            r.selection == Selection::Library(LibraryView::Inbox),
            r.filter is None,
            r.local_filter is None,
            r.local_filter_input@.len() == 0,
            r.pending_remote_item_ids@.len() == 0,
            !r.reset_item_list_scroll,
            r.polling_interval_draft == 0,
            r.saved_query_manager == saved_query_manager,
            !r.status_log.open,
    {
        StreamState {
            selection: Selection::Library(LibraryView::Inbox),
            filter: None,
            local_filter: None,
            local_filter_input: String::new(),
            pending_remote_item_ids: Vec::new(),
            reset_item_list_scroll: false,
            polling_interval_draft: 0,
            saved_query_manager,
            status_log: StatusLogState { open: false },
        }
    }

    /// Selects a view; the item list scrolls back to the top when the
    /// selection changes.
    pub fn select(&mut self, selection: Selection)
        ensures
            final(self).selection == selection,
            final(self).reset_item_list_scroll == (old(self).reset_item_list_scroll
                || old(self).selection != selection),
            final(self).filter == old(self).filter,
            final(self).local_filter == old(self).local_filter,
            final(self).saved_query_manager == old(self).saved_query_manager,
    {
        if self.selection != selection {
            self.reset_item_list_scroll = true;
        }
        self.selection = selection;
    }

    /// Takes a local filter the database accepted, and shows it in the
    /// filter input.
    pub fn apply_local_filter(&mut self, normalized: Option<String>)
        ensures
            final(self).local_filter == normalized,
            match normalized {
                Some(f) => final(self).local_filter_input == f,
                None => final(self).local_filter_input@.len() == 0,
            },
            final(self).selection == old(self).selection,
    {
        self.local_filter_input = match &normalized {
            Some(f) => f.clone(),
            None => String::new(),
        };
        self.local_filter = normalized;
    }

    /// Adds a search term to the filter input, after what is there; a term
    /// that is already one of the input's words is not added again.
    pub fn add_local_filter_input_term(&mut self, term: &str)
        ensures
            ({
                let input = trim_seq(old(self).local_filter_input@);
                if words_spec(input).contains(term@) {
                    final(self).local_filter_input == old(self).local_filter_input
                } else if input.len() == 0 {
                    final(self).local_filter_input@ == term@
                } else {
                    final(self).local_filter_input@ == input + " "@ + term@
                }
            }),
            final(self).local_filter == old(self).local_filter,
            final(self).selection == old(self).selection,
    {
        let input = trim(self.local_filter_input.as_str());
        let words = split_whitespace(input.as_str());
        let ghost ws = words@.map_values(|w: String| w@);
        let mut i: usize = 0;
        while i < words.len()
            invariant
                i <= words@.len(),
                ws == words@.map_values(|w: String| w@),
                ws == words_spec(input@),
                input@ == trim_seq(old(self).local_filter_input@),
                *self == *old(self),
                forall|k: int| 0 <= k < i ==> ws[k] != term@,
            decreases words.len() - i,
        {
            if str_eq(words[i].as_str(), term) {
                assert(ws[i as int] == term@);
                return;
            }
            i = i + 1;
        }
        proof {
            assert(!ws.contains(term@));
        }
        if input.as_str().is_empty() {
            self.local_filter_input = copy_str(term);
        } else {
            self.local_filter_input = concat3(input.as_str(), " ", term);
        }
    }
}

/// The local filter as given: trimmed, and none when nothing is left.
pub open spec fn normalized_local_filter(local_filter: Option<Seq<char>>) -> Option<Seq<char>> {
    match local_filter {
        Some(f) => if trim_seq(f).len() == 0 {
            None
        } else {
            Some(trim_seq(f))
        },
        None => None,
    }
}

pub fn normalize_local_filter(local_filter: Option<String>) -> (r: Option<String>)
    ensures
        match (r, normalized_local_filter(match local_filter {
            Some(f) => Some(f@),
            None => None,
        })) {
            (Some(a), Some(b)) => a@ == b,
            (None, None) => true,
            _ => false,
        },
{
    match local_filter {
        Some(f) => {
            let t = trim(f.as_str());
            if t.as_str().is_empty() {
                None
            } else {
                Some(t)
            }
        },
        None => None,
    }
}

/// What can be done to one item of the list.
#[derive(Clone, Debug, PartialEq, Eq)]
pub enum ItemAction {
    MarkRead(i64),
    MarkUnread(i64),
    Bookmark(i64, bool),
    Archive(i64, bool),
    Open { id: i64, url: String },
}

/// What the main window asks for.
#[derive(Clone, Debug, PartialEq, Eq)]
pub enum StreamEvent {
    Select(Selection),
    SetFilter(Option<StreamFilter>),
    SetLocalFilter(Option<String>),
    AddLocalFilterTerm(String),
    PreviewQuery { query: String, source: StreamSource },
    AddQuery { name: String, query: String, source: StreamSource, enabled: bool },
    UpdateQuery { id: i64, name: String, query: String, source: StreamSource, enabled: bool },
    DeleteQuery(i64),
    AddFilterStream { saved_query_id: i64, name: String, filter_query: String, enabled: bool },
    UpdateFilterStream { id: i64, name: String, filter_query: String, enabled: bool },
    DeleteFilterStream(i64),
    MoveQueryUp(i64),
    MoveQueryDown(i64),
    MarkSavedQueryRead(i64),
    MarkFilterStreamRead(i64),
    MarkLibraryRead(LibraryView),
    ExportQueries(String),
    ImportQueries(String),
    RefreshNow,
    ShowRemoteUpdates,
    SetDefaultSort(SortOrder),
    SetPollingInterval(u32),
    SetTheme(Theme),
    SetFontSize(FontSize),
    OpenSetup,
    ItemAction(ItemAction),
}

} // verus!
