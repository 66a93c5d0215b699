//! The saved query manager: which saved query or filter stream is being
//! edited, and what its form holds.

use vstd::prelude::*;

use crate::app::queries::{
    find_filter_stream, find_first_query, find_first_stream_owner, find_query, first_stream_index,
    has_filter_stream,
    lemma_find_first_query, lemma_find_first_query_none, lemma_find_first_stream_owner,
    lemma_find_first_stream_owner_none,
};
use crate::models::saved_query::{FilterStream, SavedQuery, StreamSource};
use crate::models::view::Selection;

verus! {

/// What the form edits.
#[derive(Clone, Copy, Debug, PartialEq, Eq, Structural)]
pub enum EditKind {
    SavedQuery,
    FilterStream,
}

/// The state of the saved query manager.
#[derive(Debug, PartialEq, Eq)]
pub struct SavedQueryManagerState {
    pub open: bool,
    pub transfer_open: bool,
    pub edit_kind: EditKind,
    pub edit_saved_query_id: Option<i64>,
    pub edit_filter_stream_id: Option<i64>,
    pub edit_name: String,
    pub edit_text: String,
    pub edit_source: StreamSource,
    pub edit_enabled: bool,
    pub transfer_path: String,
}

impl SavedQueryManagerState {
    /// A closed manager with an empty form, offering `transfer_path` for
    /// import and export.
    pub fn new(transfer_path: String) -> (r: Self)
        ensures
            !r.open,
            !r.transfer_open,
            r.edit_kind == EditKind::SavedQuery,
            r.edit_saved_query_id is None,
            r.edit_filter_stream_id is None,
            r.edit_name@.len() == 0,
            r.edit_text@.len() == 0,
            r.edit_source == StreamSource::IssueOrPullRequest,
            r.edit_enabled,
            r.transfer_path == transfer_path,
    {
        SavedQueryManagerState {
            open: false,
            transfer_open: false,
            edit_kind: EditKind::SavedQuery,
            edit_saved_query_id: None,
            edit_filter_stream_id: None,
            edit_name: String::new(),
            edit_text: String::new(),
            edit_source: StreamSource::default(),
            edit_enabled: true,
            transfer_path,
        }
    }
}

/// The manager and `other` differ in nothing but the form.
pub open spec fn same_outside_form(a: SavedQueryManagerState, b: SavedQueryManagerState) -> bool {
    a.open == b.open && a.transfer_open == b.transfer_open && a.transfer_path == b.transfer_path
}

/// The form holds `query` for editing.
pub open spec fn holds_query_draft(state: SavedQueryManagerState, query: SavedQuery) -> bool {
    &&& state.edit_kind == EditKind::SavedQuery
    &&& state.edit_saved_query_id == Some(query.id)
    &&& state.edit_filter_stream_id is None
    &&& state.edit_name@ == query.name@
    &&& state.edit_text@ == query.query@
    &&& state.edit_source == query.source
    &&& state.edit_enabled == query.enabled
}

/// The form holds the filter stream `stream` of the saved query
/// `saved_query_id` for editing; the source is left as it was.
pub open spec fn holds_filter_stream_draft(
    state: SavedQueryManagerState,
    saved_query_id: i64,
    stream: FilterStream,
) -> bool {
    &&& state.edit_kind == EditKind::FilterStream
    &&& state.edit_saved_query_id == Some(saved_query_id)
    &&& state.edit_filter_stream_id == Some(stream.id)
    &&& state.edit_name@ == stream.name@
    &&& state.edit_text@ == stream.filter_query@
    &&& state.edit_enabled == stream.enabled
}

/// The manager as opening it on `selection` leaves it, from `before`: open,
/// with the transfer panel closed, and the form holding the selected saved
/// query, else the selected filter stream (the source left as it was),
/// else, when the form's name is empty, the first saved query; otherwise
/// the form as it was.
pub open spec fn opened_on(
    after: SavedQueryManagerState,
    before: SavedQueryManagerState,
    selection: Selection,
    queries: Seq<SavedQuery>,
) -> bool {
    let by_query = match selection {
        Selection::SavedQuery(id) => find_first_query(queries, id),
        _ => None,
    };
    let stream_id = match selection {
        Selection::FilterStream(id) => Some(id),
        _ => None,
    };
    let owner = match stream_id {
        Some(id) => find_first_stream_owner(queries, id),
        None => None,
    };
    &&& after.open
    &&& !after.transfer_open
    &&& after.transfer_path == before.transfer_path
    &&& if by_query is Some {
        holds_query_draft(after, queries[by_query->0])
    } else if owner is Some {
        let k = owner->0;
        let streams = queries[k].filter_streams@;
        &&& holds_filter_stream_draft(
            after,
            queries[k].id,
            streams[first_stream_index(streams, stream_id->0)->0],
        )
        &&& after.edit_source == before.edit_source
    } else if before.edit_name@.len() == 0 && queries.len() > 0 {
        holds_query_draft(after, queries[0])
    } else {
        after == (SavedQueryManagerState { open: true, transfer_open: false, ..before })
    }
}

pub fn load_query_draft(state: &mut SavedQueryManagerState, query: &SavedQuery)
    ensures
        holds_query_draft(*final(state), *query),
        same_outside_form(*final(state), *old(state)),
{
    state.edit_kind = EditKind::SavedQuery;
    state.edit_saved_query_id = Some(query.id);
    state.edit_filter_stream_id = None;
    state.edit_name = query.name.clone();
    state.edit_text = query.query.clone();
    state.edit_source = query.source;
    state.edit_enabled = query.enabled;
}

pub fn load_filter_stream_draft(
    state: &mut SavedQueryManagerState,
    saved_query_id: i64,
    filter_stream: &FilterStream,
)
    ensures
        holds_filter_stream_draft(*final(state), saved_query_id, *filter_stream),
        final(state).edit_source == old(state).edit_source,
        same_outside_form(*final(state), *old(state)),
{
    state.edit_kind = EditKind::FilterStream;
    state.edit_saved_query_id = Some(saved_query_id);
    state.edit_filter_stream_id = Some(filter_stream.id);
    state.edit_name = filter_stream.name.clone();
    state.edit_text = filter_stream.filter_query.clone();
    state.edit_enabled = filter_stream.enabled;
}

/// Empties the form for a new saved query.
pub fn clear_query_draft(state: &mut SavedQueryManagerState)
    ensures
        final(state).edit_kind == EditKind::SavedQuery,
        final(state).edit_saved_query_id is None,
        final(state).edit_filter_stream_id is None,
        final(state).edit_name@.len() == 0,
        final(state).edit_text@.len() == 0,
        final(state).edit_source == StreamSource::IssueOrPullRequest,
        final(state).edit_enabled,
        same_outside_form(*final(state), *old(state)),
{
    state.edit_kind = EditKind::SavedQuery;
    state.edit_saved_query_id = None;
    state.edit_filter_stream_id = None;
    state.edit_name = String::new();
    state.edit_text = String::new();
    state.edit_source = StreamSource::default();
    state.edit_enabled = true;
}

/// The saved query the form's item belongs to: the edited saved query, or
/// the parent of the edited filter stream.
pub open spec fn selected_parent_of(state: SavedQueryManagerState, queries: Seq<SavedQuery>) -> Option<
    i64,
> {
    match state.edit_kind {
        EditKind::SavedQuery => state.edit_saved_query_id,
        EditKind::FilterStream => match state.edit_saved_query_id {
            Some(id) => Some(id),
            None => match state.edit_filter_stream_id {
                Some(stream_id) => match find_first_stream_owner(queries, stream_id) {
                    Some(k) => Some(queries[k].id),
                    None => None,
                },
                None => None,
            },
        },
    }
}

pub fn selected_parent_saved_query_id(state: &SavedQueryManagerState, saved_queries: &Vec<SavedQuery>) -> (r:
    Option<i64>)
    ensures
        r == selected_parent_of(*state, saved_queries@),
{
    match state.edit_kind {
        EditKind::SavedQuery => state.edit_saved_query_id,
        EditKind::FilterStream => match state.edit_saved_query_id {
            Some(id) => Some(id),
            None => match state.edit_filter_stream_id {
                Some(stream_id) => match find_filter_stream(saved_queries, stream_id) {
                    Some((k, _)) => {
                        proof {
                            lemma_find_first_stream_owner(saved_queries@, stream_id, k as int);
                        }
                        Some(saved_queries[k].id)
                    },
                    None => {
                        proof {
                            lemma_find_first_stream_owner_none(saved_queries@, stream_id);
                        }
                        None
                    },
                },
                None => None,
            },
        },
    }
}

/// The name of the saved query with the given id.
pub open spec fn parent_name_of(queries: Seq<SavedQuery>, id: Option<i64>) -> Option<Seq<char>> {
    match id {
        Some(id) => match find_first_query(queries, id) {
            Some(k) => Some(queries[k].name@),
            None => None,
        },
        None => None,
    }
}

pub fn parent_query_name(saved_queries: &Vec<SavedQuery>, saved_query_id: Option<i64>) -> (r: Option<
    &str,
>)
    ensures
        match (r, parent_name_of(saved_queries@, saved_query_id)) {
            (Some(a), Some(b)) => a@ == b,
            (None, None) => true,
            _ => false,
        },
{
    let id = match saved_query_id {
        Some(id) => id,
        None => return None,
    };
    match find_query(saved_queries, id) {
        Some(k) => {
            proof {
                lemma_find_first_query(saved_queries@, id, k as int);
            }
            Some(saved_queries[k].name.as_str())
        },
        None => {
            proof {
                lemma_find_first_query_none(saved_queries@, id);
            }
            None
        },
    }
}

/// Starts a new filter stream under the saved query the form's item
/// belongs to, else under the first saved query; with no saved query the
/// form is left alone.
pub fn start_new_filter_stream(state: &mut SavedQueryManagerState, saved_queries: &Vec<SavedQuery>)
    ensures
        ({
            let parent = match selected_parent_of(*old(state), saved_queries@) {
                Some(id) => Some(id),
                None => if saved_queries@.len() > 0 {
                    Some(saved_queries@[0].id)
                } else {
                    None
                },
            };
            match parent {
                Some(id) => {
                    &&& final(state).edit_kind == EditKind::FilterStream
                    &&& final(state).edit_saved_query_id == Some(id)
                    &&& final(state).edit_filter_stream_id is None
                    &&& final(state).edit_name@.len() == 0
                    &&& final(state).edit_text@.len() == 0
                    &&& final(state).edit_enabled
                    &&& final(state).edit_source == old(state).edit_source
                    &&& same_outside_form(*final(state), *old(state))
                },
                None => *final(state) == *old(state),
            }
        }),
{
    let parent = match selected_parent_saved_query_id(state, saved_queries) {
        Some(id) => Some(id),
        None => if saved_queries.len() > 0 {
            Some(saved_queries[0].id)
        } else {
            None
        },
    };
    if let Some(saved_query_id) = parent {
        state.edit_kind = EditKind::FilterStream;
        state.edit_saved_query_id = Some(saved_query_id);
        state.edit_filter_stream_id = None;
        state.edit_name = String::new();
        state.edit_text = String::new();
        state.edit_enabled = true;
    }
}

/// How many of `queries` are enabled (or disabled, as `enabled` says).
pub open spec fn group_count(queries: Seq<SavedQuery>, enabled: bool) -> nat
    decreases queries.len(),
{
    if queries.len() == 0 {
        0
    } else {
        group_count(queries.drop_last(), enabled) + if queries.last().enabled == enabled {
            1nat
        } else {
            0nat
        }
    }
}

/// The edited saved query can move within its group (the enabled or the
/// disabled queries): up unless it is the group's first, down unless it is
/// the group's last. Filter streams and unsaved drafts do not move.
pub open spec fn can_move(queries: Seq<SavedQuery>, state: SavedQueryManagerState, move_up: bool) -> bool {
    if state.edit_kind != EditKind::SavedQuery || state.edit_filter_stream_id is Some {
        false
    } else {
        match state.edit_saved_query_id {
            None => false,
            Some(id) => match find_first_query(queries, id) {
                None => false,
                Some(k) => {
                    let enabled = queries[k].enabled;
                    let index = group_count(queries.take(k), enabled);
                    if move_up {
                        index > 0
                    } else {
                        index + 1 < group_count(queries, enabled)
                    }
                },
            },
        }
    }
}

pub fn can_move_selected_query(
    saved_queries: &Vec<SavedQuery>,
    state: &SavedQueryManagerState,
    move_up: bool,
) -> (r: bool)
    ensures
        r == can_move(saved_queries@, *state, move_up),
{
    match state.edit_kind {
        EditKind::FilterStream => return false,
        EditKind::SavedQuery => {},
    }
    if state.edit_filter_stream_id.is_some() {
        return false;
    }
    let selected_id = match state.edit_saved_query_id {
        Some(id) => id,
        None => return false,
    };
    let k = match find_query(saved_queries, selected_id) {
        Some(k) => k,
        None => {
            proof {
                lemma_find_first_query_none(saved_queries@, selected_id);
            }
            return false;
        },
    };
    proof {
        lemma_find_first_query(saved_queries@, selected_id, k as int);
    }
    let enabled = saved_queries[k].enabled;
    let mut index: usize = 0;
    let mut len: usize = 0;
    let mut i: usize = 0;
    while i < saved_queries.len()
        invariant
            i <= saved_queries@.len(),
            k < saved_queries@.len(),
            enabled == saved_queries@[k as int].enabled,
            len == group_count(saved_queries@.take(i as int), enabled),
            index == group_count(saved_queries@.take(if i <= k { i as int } else { k as int }), enabled),
            len <= i,
            index <= len,
        decreases saved_queries.len() - i,
    {
        assert(saved_queries@.take(i + 1).drop_last() =~= saved_queries@.take(i as int));
        if saved_queries[i].enabled == enabled {
            len = len + 1;
            if i < k {
                index = index + 1;
            }
        }
        i = i + 1;
    }
    assert(saved_queries@.take(saved_queries@.len() as int) =~= saved_queries@);
    if move_up {
        index > 0
    } else {
        len > index && len - index > 1
    }
}

} // verus!
