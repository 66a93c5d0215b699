//! Refreshing saved queries: which queries a refresh covers, what the
//! results add up to, and what the status line then says.

use vstd::prelude::*;

use crate::models::saved_query::{same_saved_query, SavedQuery};
use crate::app::queries::{
    find_filter_stream, find_first_query, find_first_stream_owner, find_query,
    lemma_find_first_query, lemma_find_first_query_none, lemma_find_first_stream_owner,
    lemma_find_first_stream_owner_none,
};
use crate::models::view::Selection;
use crate::text::{concat2, decimal_seq, u64_to_string};

verus! {

/// The status after a refresh: how many items were processed and changed,
/// and how many query refreshes failed if any did.
pub open spec fn refresh_status_text(label: Seq<char>, processed: nat, changed: nat, failed: nat) -> Seq<
    char,
> {
    if failed == 0 {
        label + ": processed "@ + decimal_seq(processed) + " items; "@ + decimal_seq(changed)
            + " changed."@
    } else {
        label + ": processed "@ + decimal_seq(processed) + " items; "@ + decimal_seq(changed)
            + " changed; "@ + decimal_seq(failed) + " query refreshes failed."@
    }
}

pub fn refresh_status(label: &str, processed_count: usize, changed_count: usize, failed_count: usize) -> (r:
    String)
    ensures
        r@ == refresh_status_text(
            label@,
            processed_count as nat,
            changed_count as nat,
            failed_count as nat,
        ),
{
    let processed = u64_to_string(processed_count as u64);
    let changed = u64_to_string(changed_count as u64);
    let mut r = concat2(label, ": processed ");
    r.append(processed.as_str());
    r.append(" items; ");
    r.append(changed.as_str());
    if failed_count == 0 {
        r.append(" changed.");
    } else {
        let failed = u64_to_string(failed_count as u64);
        r.append(" changed; ");
        r.append(failed.as_str());
        r.append(" query refreshes failed.");
    }
    r
}

/// What refreshing one saved query did.
#[derive(Debug, PartialEq, Eq)]
pub struct RefreshStats {
    pub processed_count: usize,
    pub changed_count: usize,
    pub changed_item_ids: Vec<i64>,
}

/// What a refresh of several saved queries did, all told.
#[derive(Debug, PartialEq, Eq)]
pub struct RefreshOutcome {
    pub label: String,
    pub processed_count: usize,
    pub changed_count: usize,
    pub failed_count: usize,
    pub changed_item_ids: Vec<i64>,
}

pub open spec fn total_processed(results: Seq<Result<RefreshStats, String>>) -> nat
    decreases results.len(),
{
    if results.len() == 0 {
        0
    } else {
        total_processed(results.drop_last()) + match results.last() {
            Ok(stats) => stats.processed_count as nat,
            Err(_) => 0,
        }
    }
}

pub open spec fn total_changed(results: Seq<Result<RefreshStats, String>>) -> nat
    decreases results.len(),
{
    if results.len() == 0 {
        0
    } else {
        total_changed(results.drop_last()) + match results.last() {
            Ok(stats) => stats.changed_count as nat,
            Err(_) => 0,
        }
    }
}

pub open spec fn total_failed(results: Seq<Result<RefreshStats, String>>) -> nat
    decreases results.len(),
{
    if results.len() == 0 {
        0
    } else {
        total_failed(results.drop_last()) + if results.last() is Err {
            1nat
        } else {
            0nat
        }
    }
}

/// `id` changed in one of the successful refreshes.
pub open spec fn changed_in(results: Seq<Result<RefreshStats, String>>, id: i64) -> bool {
    exists|k: int|
        0 <= k < results.len() && (#[trigger] results[k] matches Ok(stats)
            && stats.changed_item_ids@.contains(id))
}

pub open spec fn strictly_increasing(ids: Seq<i64>) -> bool {
    forall|a: int, b: int| 0 <= a < b < ids.len() ==> ids[a] < ids[b]
}

/// Adds `id` to the increasing `ids`, unless it is there already.
pub fn insert_sorted(ids: &mut Vec<i64>, id: i64)
    requires
        strictly_increasing(old(ids)@),
    ensures
        strictly_increasing(final(ids)@),
        forall|x: i64| #[trigger] final(ids)@.contains(x) <==> (old(ids)@.contains(x) || x == id),
{
    let mut p: usize = 0;
    while p < ids.len() && ids[p] < id
        invariant
            p <= ids@.len(),
            strictly_increasing(ids@),
            forall|q: int| 0 <= q < p ==> ids@[q] < id,
        decreases ids.len() - p,
    {
        p = p + 1;
    }
    if p < ids.len() && ids[p] == id {
        return;
    }
    let ghost before = ids@;
    ids.insert(p, id);
    proof {
        assert(ids@ =~= before.take(p as int) + seq![id] + before.skip(p as int));
        assert forall|a: int, b: int| 0 <= a < b < ids@.len() implies ids@[a] < ids@[b] by {
            if a < p && b > p {
                assert(before[a] < before[b - 1] || a == b - 1);
            }
        }
        assert forall|x: i64| #[trigger] ids@.contains(x) <==> (before.contains(x) || x == id) by {
            if ids@.contains(x) {
                let k = choose|k: int| 0 <= k < ids@.len() && ids@[k] == x;
                if k < p {
                    assert(before[k] == x);
                } else if k > p {
                    assert(before[k - 1] == x);
                }
            }
            if before.contains(x) {
                let k = choose|k: int| 0 <= k < before.len() && before[k] == x;
                if k < p {
                    assert(ids@[k] == x);
                } else {
                    assert(ids@[k + 1] == x);
                }
            }
            if x == id {
                assert(ids@[p as int] == x);
            }
        }
    }
}

/// Adds up the results of refreshing several saved queries: the processed
/// and changed counts of the successful ones, the number that failed, and
/// every changed item once, in increasing order.
pub fn summarize_refresh(label: String, results: &Vec<Result<RefreshStats, String>>) -> (r:
    RefreshOutcome)
    requires
        total_processed(results@) <= usize::MAX,
        total_changed(results@) <= usize::MAX,
    ensures
        r.label == label,
        r.processed_count == total_processed(results@),
        r.changed_count == total_changed(results@),
        r.failed_count == total_failed(results@),
        strictly_increasing(r.changed_item_ids@),
        forall|id: i64| #[trigger] r.changed_item_ids@.contains(id) <==> changed_in(results@, id),
{
    let mut processed: usize = 0;
    let mut changed: usize = 0;
    let mut failed: usize = 0;
    let mut ids: Vec<i64> = Vec::new();
    let mut i: usize = 0;
    while i < results.len()
        invariant
            i <= results@.len(),
            total_processed(results@) <= usize::MAX,
            total_changed(results@) <= usize::MAX,
            processed == total_processed(results@.take(i as int)),
            changed == total_changed(results@.take(i as int)),
            failed == total_failed(results@.take(i as int)),
            failed <= i,
            strictly_increasing(ids@),
            forall|id: i64| #[trigger] ids@.contains(id) <==> changed_in(results@.take(i as int), id),
        decreases results.len() - i,
    {
        proof {
            assert(results@.take(i + 1).drop_last() =~= results@.take(i as int));
            lemma_totals_prefix(results@, i + 1);
        }
        match &results[i] {
            Ok(stats) => {
                processed = processed + stats.processed_count;
                changed = changed + stats.changed_count;
                let mut j: usize = 0;
                while j < stats.changed_item_ids.len()
                    invariant
                        i < results@.len(),
                        results@[i as int] == Ok::<RefreshStats, String>(*stats),
                        j <= stats.changed_item_ids@.len(),
                        strictly_increasing(ids@),
                        forall|id: i64| #[trigger] ids@.contains(id) <==> (changed_in(
                            results@.take(i as int),
                            id,
                        ) || stats.changed_item_ids@.take(j as int).contains(id)),
                    decreases stats.changed_item_ids.len() - j,
                {
                    let id = stats.changed_item_ids[j];
                    insert_sorted(&mut ids, id);
                    proof {
                        let t = stats.changed_item_ids@;
                        assert(t.take(j + 1) =~= t.take(j as int).push(id));
                        assert forall|x: i64| t.take(j + 1).contains(x) <==> (t.take(j as int).contains(x)
                            || x == id) by {
                            if t.take(j + 1).contains(x) {
                                let k = choose|k: int| 0 <= k < j + 1 && #[trigger] t.take(j + 1)[k] == x;
                                if k < j {
                                    assert(t.take(j as int)[k] == x);
                                }
                            }
                            if t.take(j as int).contains(x) {
                                let k = choose|k: int| 0 <= k < j && #[trigger] t.take(j as int)[k] == x;
                                assert(t.take(j + 1)[k] == x);
                            }
                            if x == id {
                                assert(t.take(j + 1)[j as int] == x);
                            }
                        }
                    }
                    j = j + 1;
                }
                proof {
                    assert(stats.changed_item_ids@.take(j as int) =~= stats.changed_item_ids@);
                }
            },
            Err(_) => {
                failed = failed + 1;
            },
        }
        proof {
            let prev = results@.take(i as int);
            let next = results@.take(i + 1);
            assert forall|id: i64| changed_in(next, id) <==> (changed_in(prev, id) || (
            results@[i as int] matches Ok(stats) && stats.changed_item_ids@.contains(id))) by {
                if changed_in(next, id) {
                    let k = choose|k: int|
                        0 <= k < next.len() && (#[trigger] next[k] matches Ok(stats)
                            && stats.changed_item_ids@.contains(id));
                    if k < i {
                        assert(prev[k] == next[k]);
                    }
                }
                if changed_in(prev, id) {
                    let k = choose|k: int|
                        0 <= k < prev.len() && (#[trigger] prev[k] matches Ok(stats)
                            && stats.changed_item_ids@.contains(id));
                    assert(prev[k] == next[k]);
                }
                if results@[i as int] matches Ok(stats) && stats.changed_item_ids@.contains(id) {
                    assert(next[i as int] == results@[i as int]);
                }
            }
        }
        i = i + 1;
    }
    assert(results@.take(results@.len() as int) =~= results@);
    RefreshOutcome {
        label,
        processed_count: processed,
        changed_count: changed,
        failed_count: failed,
        changed_item_ids: ids,
    }
}

/// The totals of a prefix are no larger than those of the whole.
proof fn lemma_totals_prefix(results: Seq<Result<RefreshStats, String>>, n: int)
    requires
        0 <= n <= results.len(),
    ensures
        total_processed(results.take(n)) <= total_processed(results),
        total_changed(results.take(n)) <= total_changed(results),
    decreases results.len() - n,
{
    if n < results.len() {
        lemma_totals_prefix(results, n + 1);
        assert(results.take(n + 1).drop_last() =~= results.take(n));
    } else {
        assert(results.take(n) =~= results);
    }
}

/// The saved queries a manual refresh covers: the selected saved query, the
/// saved query of the selected filter stream, or every saved query when a
/// library view is selected.
pub fn refresh_scope(selection: Selection, queries: &Vec<SavedQuery>) -> (r: Vec<SavedQuery>)
    ensures
        match selection {
            Selection::Library(_) => r@.len() == queries@.len() && forall|k: int|
                0 <= k < r@.len() ==> same_saved_query(#[trigger] r@[k], queries@[k]),
            Selection::SavedQuery(id) => match find_first_query(queries@, id) {
                Some(k) => r@.len() == 1 && same_saved_query(r@[0], queries@[k]),
                None => r@.len() == 0,
            },
            Selection::FilterStream(id) => match find_first_stream_owner(queries@, id) {
                Some(k) => r@.len() == 1 && same_saved_query(r@[0], queries@[k]),
                None => r@.len() == 0,
            },
        },
{
    match selection {
        Selection::Library(_) => {
            let mut r: Vec<SavedQuery> = Vec::new();
            let mut i: usize = 0;
            while i < queries.len()
                invariant
                    i <= queries@.len(),
                    r@.len() == i,
                    forall|k: int| 0 <= k < i ==> same_saved_query(#[trigger] r@[k], queries@[k]),
                decreases queries.len() - i,
            {
                r.push(queries[i].clone());
                i = i + 1;
            }
            r
        },
        Selection::SavedQuery(id) => {
            let mut r: Vec<SavedQuery> = Vec::new();
            match find_query(queries, id) {
                Some(k) => {
                    r.push(queries[k].clone());
                    proof {
                        lemma_find_first_query(queries@, id, k as int);
                    }
                },
                None => {
                    proof {
                        lemma_find_first_query_none(queries@, id);
                    }
                },
            }
            r
        },
        Selection::FilterStream(id) => {
            let mut r: Vec<SavedQuery> = Vec::new();
            match find_filter_stream(queries, id) {
                Some((k, _)) => {
                    r.push(queries[k].clone());
                    proof {
                        lemma_find_first_stream_owner(queries@, id, k as int);
                    }
                },
                None => {
                    proof {
                        lemma_find_first_stream_owner_none(queries@, id);
                    }
                },
            }
            r
        },
    }
}

} // verus!
