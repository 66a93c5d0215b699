//! Finding saved queries and filter streams by id.

use vstd::prelude::*;

use crate::models::saved_query::{FilterStream, SavedQuery};

verus! {

/// The position of the first saved query with the given id.
pub open spec fn find_first_query(queries: Seq<SavedQuery>, id: i64) -> Option<int>
    decreases queries.len(),
{
    if queries.len() == 0 {
        None
    } else if queries[0].id == id {
        Some(0)
    } else {
        match find_first_query(queries.drop_first(), id) {
            Some(k) => Some(k + 1),
            None => None,
        }
    }
}

/// `query` has a filter stream with the given id.
pub open spec fn has_filter_stream(query: SavedQuery, id: i64) -> bool {
    exists|g: int| 0 <= g < query.filter_streams@.len() && (#[trigger] query.filter_streams@[g]).id == id
}

/// The position of the first saved query that has the filter stream `id`.
pub open spec fn find_first_stream_owner(queries: Seq<SavedQuery>, id: i64) -> Option<int>
    decreases queries.len(),
{
    if queries.len() == 0 {
        None
    } else if has_filter_stream(queries[0], id) {
        Some(0)
    } else {
        match find_first_stream_owner(queries.drop_first(), id) {
            Some(k) => Some(k + 1),
            None => None,
        }
    }
}

pub proof fn lemma_find_first_query(queries: Seq<SavedQuery>, id: i64, k: int)
    requires
        0 <= k < queries.len(),
        queries[k].id == id,
        forall|j: int| 0 <= j < k ==> queries[j].id != id,
    ensures
        find_first_query(queries, id) == Some(k),
    decreases queries.len(),
{
    if k > 0 {
        lemma_find_first_query(queries.drop_first(), id, k - 1);
    }
}

pub proof fn lemma_find_first_query_none(queries: Seq<SavedQuery>, id: i64)
    requires
        forall|j: int| 0 <= j < queries.len() ==> queries[j].id != id,
    ensures
        find_first_query(queries, id) is None,
    decreases queries.len(),
{
    if queries.len() > 0 {
        lemma_find_first_query_none(queries.drop_first(), id);
    }
}

pub proof fn lemma_find_first_stream_owner(queries: Seq<SavedQuery>, id: i64, k: int)
    requires
        0 <= k < queries.len(),
        has_filter_stream(queries[k], id),
        forall|j: int| 0 <= j < k ==> !has_filter_stream(#[trigger] queries[j], id),
    ensures
        find_first_stream_owner(queries, id) == Some(k),
    decreases queries.len(),
{
    if k > 0 {
        assert forall|j: int| 0 <= j < k - 1 implies !has_filter_stream(
            #[trigger] queries.drop_first()[j],
            id,
        ) by {
            assert(queries.drop_first()[j] == queries[j + 1]);
        }
        lemma_find_first_stream_owner(queries.drop_first(), id, k - 1);
    }
}

pub proof fn lemma_find_first_stream_owner_none(queries: Seq<SavedQuery>, id: i64)
    requires
        forall|j: int| 0 <= j < queries.len() ==> !has_filter_stream(#[trigger] queries[j], id),
    ensures
        find_first_stream_owner(queries, id) is None,
    decreases queries.len(),
{
    if queries.len() > 0 {
        assert forall|j: int| 0 <= j < queries.len() - 1 implies !has_filter_stream(
            #[trigger] queries.drop_first()[j],
            id,
        ) by {
            assert(queries.drop_first()[j] == queries[j + 1]);
        }
        lemma_find_first_stream_owner_none(queries.drop_first(), id);
    }
}

/// The position of the first filter stream with the given id.
pub open spec fn first_stream_index(streams: Seq<FilterStream>, id: i64) -> Option<int>
    decreases streams.len(),
{
    if streams.len() == 0 {
        None
    } else if streams[0].id == id {
        Some(0)
    } else {
        match first_stream_index(streams.drop_first(), id) {
            Some(g) => Some(g + 1),
            None => None,
        }
    }
}

pub proof fn lemma_first_stream_index(streams: Seq<FilterStream>, id: i64, g: int)
    requires
        0 <= g < streams.len(),
        streams[g].id == id,
        forall|j: int| 0 <= j < g ==> (#[trigger] streams[j]).id != id,
    ensures
        first_stream_index(streams, id) == Some(g),
    decreases streams.len(),
{
    if g > 0 {
        assert forall|j: int| 0 <= j < g - 1 implies (#[trigger] streams.drop_first()[j]).id != id by {
            assert(streams.drop_first()[j] == streams[j + 1]);
        }
        lemma_first_stream_index(streams.drop_first(), id, g - 1);
    }
}

/// The position of the first saved query with the given id.
pub fn find_query(queries: &Vec<SavedQuery>, id: i64) -> (r: Option<usize>)
    ensures
        match r {
            Some(k) => k < queries@.len() && queries@[k as int].id == id && forall|j: int|
                0 <= j < k ==> queries@[j].id != id,
            None => forall|j: int| 0 <= j < queries@.len() ==> queries@[j].id != id,
        },
{
    let mut i: usize = 0;
    while i < queries.len()
        invariant
            i <= queries@.len(),
            forall|j: int| 0 <= j < i ==> queries@[j].id != id,
        decreases queries.len() - i,
    {
        if queries[i].id == id {
            return Some(i);
        }
        i = i + 1;
    }
    None
}

/// The position of the saved query that has the filter stream `id`, and
/// of the filter stream in it: the first such pair.
pub fn find_filter_stream(queries: &Vec<SavedQuery>, id: i64) -> (r: Option<(usize, usize)>)
    ensures
        match r {
            Some((q, f)) => q < queries@.len() && f < queries@[q as int].filter_streams@.len()
                && queries@[q as int].filter_streams@[f as int].id == id && (forall|j: int|
                0 <= j < q ==> !has_filter_stream(#[trigger] queries@[j], id)) && forall|g: int|
                0 <= g < f ==> (#[trigger] queries@[q as int].filter_streams@[g]).id != id,
            None => forall|j: int| 0 <= j < queries@.len() ==> !has_filter_stream(#[trigger] queries@[j], id),
        },
{
    let mut i: usize = 0;
    while i < queries.len()
        invariant
            i <= queries@.len(),
            forall|j: int| 0 <= j < i ==> !has_filter_stream(#[trigger] queries@[j], id),
        decreases queries.len() - i,
    {
        let streams = &queries[i].filter_streams;
        let mut k: usize = 0;
        while k < streams.len()
            invariant
                i < queries@.len(),
                streams@ == queries@[i as int].filter_streams@,
                forall|j: int| 0 <= j < i ==> !has_filter_stream(#[trigger] queries@[j], id),
                k <= streams@.len(),
                forall|g: int| 0 <= g < k ==> (#[trigger] streams@[g]).id != id,
            decreases streams.len() - k,
        {
            if streams[k].id == id {
                return Some((i, k));
            }
            k = k + 1;
        }
        i = i + 1;
    }
    None
}

} // verus!
