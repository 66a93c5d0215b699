//! The items of the current view: their order, and how a refresh that
//! changed some items is taken into the list on screen.

use std::cmp::Ordering;

use vstd::prelude::*;

use crate::github::project::{parse_rfc3339_utc, rfc3339_utc, stamp_view};
use crate::models::config::SortOrder;
use crate::models::stream_item::{ItemPerson, ItemReview, StreamItem};
use crate::text::{
    lemma_seq_lt_asymmetric, lemma_seq_lt_irreflexive, lemma_seq_lt_total,
    lemma_seq_lt_transitive, seq_lt, str_eq, str_lt,
};

verus! {

broadcast use vstd::seq_lib::group_to_multiset_ensures;

/// The most items a view shows.
pub const STREAM_VIEW_LIMIT: usize = 500;

/// The instant an RFC 3339 time stamp names, if it names one.
pub open spec fn instant_of(text: Seq<char>) -> Option<(i64, u32)> {
    match rfc3339_utc(text) {
        Some(t) => Some((t.0, t.1)),
        None => None,
    }
}

/// Instants in order; a missing instant comes before any instant.
pub open spec fn opt_instant_lt(a: Option<(i64, u32)>, b: Option<(i64, u32)>) -> bool {
    match (a, b) {
        (None, Some(_)) => true,
        (Some(x), Some(y)) => x.0 < y.0 || (x.0 == y.0 && x.1 < y.1),
        _ => false,
    }
}

/// The time stamp an item is ordered by under a sort, and whether it is
/// the fallback (items without the sort's own time stamp go last and are
/// ordered by their update).
pub open spec fn sort_text(item: StreamItem, sort: SortOrder) -> (bool, Seq<char>) {
    match sort {
        SortOrder::UpdatedDesc => (false, item.updated_at_github@),
        SortOrder::UpdatedAsc => (false, item.updated_at_github@),
        SortOrder::CreatedDesc => (false, item.created_at_github@),
        SortOrder::ReadDesc => match item.read_at {
            Some(t) => (false, t@),
            None => (true, item.updated_at_github@),
        },
        SortOrder::ClosedDesc => match item.closed_at_github {
            Some(t) => (false, t@),
            None => (true, item.updated_at_github@),
        },
        SortOrder::MergedDesc => match item.merged_at_github {
            Some(t) => (false, t@),
            None => (true, item.updated_at_github@),
        },
    }
}

/// What an item is ordered by: the fallback flag, the instant, the text of
/// the time stamp and the id.
pub open spec fn view_key(item: StreamItem, sort: SortOrder) -> (bool, Option<(i64, u32)>, Seq<
    char,
>, i64) {
    let t = sort_text(item, sort);
    (t.0, instant_of(t.1), t.1, item.id)
}

/// Key `a` comes before key `b`: items with their own time stamp first,
/// then the later instant, then the greater text, then the greater id.
pub open spec fn key_before(
    a: (bool, Option<(i64, u32)>, Seq<char>, i64),
    b: (bool, Option<(i64, u32)>, Seq<char>, i64),
) -> bool {
    ||| !a.0 && b.0
    ||| a.0 == b.0 && opt_instant_lt(b.1, a.1)
    ||| a.0 == b.0 && a.1 == b.1 && seq_lt(b.2, a.2)
    ||| a.0 == b.0 && a.1 == b.1 && a.2 == b.2 && b.3 < a.3
}

/// Whether a sort lists the oldest first: the order of the keys is then
/// turned around.
pub open spec fn is_ascending(sort: SortOrder) -> bool {
    sort == SortOrder::UpdatedAsc
}

/// Item `l` comes before item `r` in a view sorted by `sort`.
pub open spec fn item_before(l: StreamItem, r: StreamItem, sort: SortOrder) -> bool {
    if is_ascending(sort) {
        key_before(view_key(r, sort), view_key(l, sort))
    } else {
        key_before(view_key(l, sort), view_key(r, sort))
    }
}

/// No item of `items` comes before an item ahead of it.
pub open spec fn is_sorted_view(items: Seq<StreamItem>, sort: SortOrder) -> bool {
    forall|i: int, j: int| 0 <= i < j < items.len() ==> !item_before(#[trigger] items[j], #[trigger] items[i], sort)
}

proof fn lemma_opt_instant_order(a: Option<(i64, u32)>, b: Option<(i64, u32)>, c: Option<(i64, u32)>)
    ensures
        !opt_instant_lt(a, a),
        opt_instant_lt(a, b) ==> !opt_instant_lt(b, a),
        opt_instant_lt(a, b) && opt_instant_lt(b, c) ==> opt_instant_lt(a, c),
        a != b ==> opt_instant_lt(a, b) || opt_instant_lt(b, a),
{
}

proof fn lemma_key_order(
    a: (bool, Option<(i64, u32)>, Seq<char>, i64),
    b: (bool, Option<(i64, u32)>, Seq<char>, i64),
    c: (bool, Option<(i64, u32)>, Seq<char>, i64),
)
    ensures
        !key_before(a, a),
        key_before(a, b) ==> !key_before(b, a),
        key_before(a, b) && key_before(b, c) ==> key_before(a, c),
        a != b ==> key_before(a, b) || key_before(b, a),
{
    lemma_opt_instant_order(a.1, b.1, c.1);
    lemma_opt_instant_order(c.1, b.1, a.1);
    lemma_opt_instant_order(b.1, a.1, c.1);
    lemma_opt_instant_order(a.1, c.1, b.1);
    lemma_opt_instant_order(b.1, c.1, a.1);
    lemma_opt_instant_order(c.1, a.1, b.1);
    lemma_seq_lt_irreflexive(a.2);
    lemma_seq_lt_asymmetric(a.2, b.2);
    lemma_seq_lt_total(a.2, b.2);
    if seq_lt(c.2, b.2) && seq_lt(b.2, a.2) {
        lemma_seq_lt_transitive(c.2, b.2, a.2);
    }
}

/// Items in a view: one never comes before itself, never both ways, the
/// order is transitive, and two items neither of which comes first have
/// equal keys.
pub proof fn lemma_item_order(a: StreamItem, b: StreamItem, c: StreamItem, sort: SortOrder)
    ensures
        !item_before(a, a, sort),
        item_before(a, b, sort) ==> !item_before(b, a, sort),
        item_before(a, b, sort) && item_before(b, c, sort) ==> item_before(a, c, sort),
        !item_before(a, b, sort) && !item_before(b, a, sort) ==> view_key(a, sort) == view_key(
            b,
            sort,
        ),
        !item_before(b, a, sort) && !item_before(c, b, sort) ==> !item_before(c, a, sort),
{
    let ka = view_key(a, sort);
    let kb = view_key(b, sort);
    let kc = view_key(c, sort);
    lemma_key_order(ka, kb, kc);
    lemma_key_order(kc, kb, ka);
    lemma_key_order(kb, ka, kc);
    lemma_key_order(ka, kc, kb);
    lemma_key_order(kb, kc, ka);
    lemma_key_order(kc, ka, kb);
}

/// Time stamp `x` names a later instant than `y`; both must read as
/// instants.
pub open spec fn is_later_stamp(x: Seq<char>, y: Seq<char>) -> bool {
    &&& instant_of(x) is Some
    &&& instant_of(y) is Some
    &&& {
        let p = instant_of(x)->0;
        let q = instant_of(y)->0;
        q.0 < p.0 || (q.0 == p.0 && q.1 < p.1)
    }
}

/// Under each sort the item with the later time stamp of that sort comes
/// first (last when oldest first), whatever its other time stamps; under
/// the read, closed and merged sorts an item that has the time stamp comes
/// before one that has none.
pub proof fn lemma_later_stamp_first(a: StreamItem, b: StreamItem)
    ensures
        is_later_stamp(a.created_at_github@, b.created_at_github@) ==> item_before(
            a,
            b,
            SortOrder::CreatedDesc,
        ),
        is_later_stamp(a.updated_at_github@, b.updated_at_github@) ==> item_before(
            a,
            b,
            SortOrder::UpdatedDesc,
        ) && item_before(b, a, SortOrder::UpdatedAsc),
        (a.read_at matches Some(x) && b.read_at matches Some(y) && is_later_stamp(x@, y@))
            ==> item_before(a, b, SortOrder::ReadDesc),
        (a.closed_at_github matches Some(x) && b.closed_at_github matches Some(y) && is_later_stamp(
            x@,
            y@,
        )) ==> item_before(a, b, SortOrder::ClosedDesc),
        (a.merged_at_github matches Some(x) && b.merged_at_github matches Some(y) && is_later_stamp(
            x@,
            y@,
        )) ==> item_before(a, b, SortOrder::MergedDesc),
        a.read_at is Some && b.read_at is None ==> item_before(a, b, SortOrder::ReadDesc),
        a.closed_at_github is Some && b.closed_at_github is None ==> item_before(
            a,
            b,
            SortOrder::ClosedDesc,
        ),
        a.merged_at_github is Some && b.merged_at_github is None ==> item_before(
            a,
            b,
            SortOrder::MergedDesc,
        ),
{
}

/// In a view sorted by creation, no item comes after one created earlier;
/// in one sorted by update, none after one updated earlier (before one
/// updated later when oldest first).
pub proof fn lemma_sorted_view_stamps(items: Seq<StreamItem>, sort: SortOrder, i: int, j: int)
    requires
        is_sorted_view(items, sort),
        0 <= i < j < items.len(),
    ensures
        sort == SortOrder::CreatedDesc ==> !is_later_stamp(
            items[j].created_at_github@,
            items[i].created_at_github@,
        ),
        sort == SortOrder::UpdatedDesc ==> !is_later_stamp(
            items[j].updated_at_github@,
            items[i].updated_at_github@,
        ),
        sort == SortOrder::UpdatedAsc ==> !is_later_stamp(
            items[i].updated_at_github@,
            items[j].updated_at_github@,
        ),
{
    lemma_later_stamp_first(items[j], items[i]);
    lemma_later_stamp_first(items[i], items[j]);
    assert(!item_before(items[j], items[i], sort));
}

fn sort_text_of(item: &StreamItem, sort: SortOrder) -> (r: (bool, &String))
    ensures
        (r.0, r.1@) == sort_text(*item, sort),
{
    match sort {
        SortOrder::UpdatedDesc => (false, &item.updated_at_github),
        SortOrder::UpdatedAsc => (false, &item.updated_at_github),
        SortOrder::CreatedDesc => (false, &item.created_at_github),
        SortOrder::ReadDesc => match &item.read_at {
            Some(t) => (false, t),
            None => (true, &item.updated_at_github),
        },
        SortOrder::ClosedDesc => match &item.closed_at_github {
            Some(t) => (false, t),
            None => (true, &item.updated_at_github),
        },
        SortOrder::MergedDesc => match &item.merged_at_github {
            Some(t) => (false, t),
            None => (true, &item.updated_at_github),
        },
    }
}

fn instant(text: &str) -> (r: Option<(i64, u32)>)
    ensures
        r == instant_of(text@),
{
    match parse_rfc3339_utc(text) {
        Some(t) => Some((t.0, t.1)),
        None => None,
    }
}

fn instant_lt(a: Option<(i64, u32)>, b: Option<(i64, u32)>) -> (r: bool)
    ensures
        r == opt_instant_lt(a, b),
{
    match (a, b) {
        (None, Some(_)) => true,
        (Some(x), Some(y)) => x.0 < y.0 || (x.0 == y.0 && x.1 < y.1),
        _ => false,
    }
}

/// Item `left` comes before `right` under `sort`.
pub fn item_precedes(left: &StreamItem, right: &StreamItem, sort: SortOrder) -> (r: bool)
    ensures
        r == item_before(*left, *right, sort),
{
    match sort {
        SortOrder::UpdatedAsc => key_precedes(right, left, sort),
        _ => key_precedes(left, right, sort),
    }
}

/// The key of `left` comes before that of `right`: newest first.
fn key_precedes(left: &StreamItem, right: &StreamItem, sort: SortOrder) -> (r: bool)
    ensures
        r == key_before(view_key(*left, sort), view_key(*right, sort)),
{
    let (left_fallback, left_text) = sort_text_of(left, sort);
    let (right_fallback, right_text) = sort_text_of(right, sort);
    if left_fallback != right_fallback {
        return !left_fallback;
    }
    let left_instant = instant(left_text.as_str());
    let right_instant = instant(right_text.as_str());
    if instant_lt(right_instant, left_instant) {
        return true;
    }
    if left_instant != right_instant {
        return false;
    }
    if str_lt(right_text.as_str(), left_text.as_str()) {
        return true;
    }
    if !str_eq(left_text.as_str(), right_text.as_str()) {
        return false;
    }
    right.id < left.id
}

/// How two items of a view compare: `Less` when `left` goes first.
pub fn compare_items(left: &StreamItem, right: &StreamItem, sort: SortOrder) -> (r: Ordering)
    ensures
        (r is Less) == item_before(*left, *right, sort),
        (r is Greater) == item_before(*right, *left, sort),
{
    proof {
        lemma_item_order(*left, *right, *left, sort);
    }
    if item_precedes(left, right, sort) {
        Ordering::Less
    } else if item_precedes(right, left, sort) {
        Ordering::Greater
    } else {
        Ordering::Equal
    }
}

/// The items in view order.
pub fn sort_view_items(items: Vec<StreamItem>, sort: SortOrder) -> (r: Vec<StreamItem>)
    ensures
        r@.to_multiset() == items@.to_multiset(),
        is_sorted_view(r@, sort),
{
    let ghost all = items@;
    let mut rest = items;
    let mut out: Vec<StreamItem> = Vec::new();
    while rest.len() > 0
        invariant
            out@.to_multiset().add(rest@.to_multiset()) == all.to_multiset(),
            is_sorted_view(out@, sort),
        decreases rest.len(),
    {
        let ghost before_rest = rest@;
        let x = match rest.pop() {
            Some(x) => x,
            None => {
                return out;
            },
        };
        proof {
            assert(before_rest =~= rest@.push(x));
        }
        let mut p = out.len();
        while p > 0 && item_precedes(&x, &out[p - 1], sort)
            invariant
                p <= out@.len(),
                is_sorted_view(out@, sort),
                forall|q: int| p <= q < out@.len() ==> item_before(x, #[trigger] out@[q], sort),
            decreases p,
        {
            p = p - 1;
        }
        let ghost old_out = out@;
        out.insert(p, x);
        proof {
            assert(out@ == old_out.insert(p as int, x));
            assert forall|i: int, j: int| 0 <= i < j < out@.len() implies !item_before(
                #[trigger] out@[j],
                #[trigger] out@[i],
                sort,
            ) by {
                if j < p {
                    assert(out@[i] == old_out[i] && out@[j] == old_out[j]);
                } else if i > p {
                    assert(out@[i] == old_out[i - 1] && out@[j] == old_out[j - 1]);
                } else if i == p {
                    lemma_item_order(x, out@[j], x, sort);
                    assert(out@[j] == old_out[j - 1]);
                } else {
                    // i < p == j or i < p < j
                    if j == p {
                        assert(out@[i] == old_out[i]);
                        if p > 0 {
                            lemma_item_order(old_out[i], old_out[p - 1], x, sort);
                        }
                    } else {
                        assert(out@[i] == old_out[i] && out@[j] == old_out[j - 1]);
                    }
                }
            }
        }
    }
    out
}

/// The last of `changed` with the given id: later entries win.
pub open spec fn last_with_id(changed: Seq<StreamItem>, id: i64) -> Option<StreamItem>
    decreases changed.len(),
{
    if changed.len() == 0 {
        None
    } else if changed.last().id == id {
        Some(changed.last())
    } else {
        last_with_id(changed.drop_last(), id)
    }
}

/// No item ahead of position `k` has the id of the item at `k`.
pub open spec fn first_with_its_id(items: Seq<StreamItem>, k: int) -> bool {
    forall|j: int| 0 <= j < k ==> (#[trigger] items[j]).id != items[k].id
}

/// The items with refreshed copies in place: the first item with an id
/// takes the last refreshed copy with that id.
pub open spec fn replaced_items(items: Seq<StreamItem>, changed: Seq<StreamItem>) -> Seq<StreamItem> {
    Seq::new(
        items.len(),
        |k: int|
            if first_with_its_id(items, k) && last_with_id(changed, items[k].id) is Some {
                last_with_id(changed, items[k].id)->0
            } else {
                items[k]
            },
    )
}

fn find_last_with_id(changed: &Vec<StreamItem>, id: i64) -> (r: Option<usize>)
    ensures
        match r {
            Some(k) => k < changed@.len() && changed@[k as int].id == id && last_with_id(changed@, id)
                == Some(changed@[k as int]),
            None => last_with_id(changed@, id) is None,
        },
{
    let mut i: usize = changed.len();
    assert(changed@.take(changed@.len() as int) =~= changed@);
    while i > 0
        invariant
            i <= changed@.len(),
            last_with_id(changed@, id) == last_with_id(changed@.take(i as int), id),
        decreases i,
    {
        proof {
            assert(changed@.take(i as int).drop_last() =~= changed@.take(i - 1));
        }
        if changed[i - 1].id == id {
            return Some(i - 1);
        }
        i = i - 1;
    }
    None
}

fn contains_id(ids: &Vec<i64>, id: i64) -> (r: bool)
    ensures
        r == ids@.contains(id),
{
    let mut j: usize = 0;
    while j < ids.len()
        invariant
            j <= ids@.len(),
            forall|q: int| 0 <= q < j ==> ids@[q] != id,
        decreases ids.len() - j,
    {
        if ids[j] == id {
            return true;
        }
        j = j + 1;
    }
    false
}

proof fn lemma_last_with_id_remove(s: Seq<StreamItem>, k: int, id: i64)
    requires
        0 <= k < s.len(),
        s[k].id != id,
    ensures
        last_with_id(s.remove(k), id) == last_with_id(s, id),
    decreases s.len(),
{
    if k == s.len() - 1 {
        assert(s.remove(k) =~= s.drop_last());
    } else {
        assert(s.remove(k).drop_last() =~= s.drop_last().remove(k));
        assert(s.remove(k).last() == s.last());
        lemma_last_with_id_remove(s.drop_last(), k, id);
    }
}

/// `after` is the view `before` with the refreshed copies `changed` taken
/// in: the items with their copies in place, put in order, cut to
/// `STREAM_VIEW_LIMIT` items.
pub open spec fn is_patched_view(
    after: Seq<StreamItem>,
    before: Seq<StreamItem>,
    changed: Seq<StreamItem>,
    sort: SortOrder,
) -> bool {
    &&& after.len() == if before.len() <= STREAM_VIEW_LIMIT {
        before.len() as int
    } else {
        STREAM_VIEW_LIMIT as int
    }
    &&& is_sorted_view(after, sort)
    &&& exists|all: Seq<StreamItem>|
        all.to_multiset() == replaced_items(before, changed).to_multiset() && is_sorted_view(all, sort)
            && after == all.take(after.len() as int)
}

/// Takes refreshed copies of items into the view: each item is replaced by
/// its refreshed copy, the view is put back in order, and only the first
/// `STREAM_VIEW_LIMIT` items are kept.
pub fn patch_current_items(items: &mut Vec<StreamItem>, changed_items: Vec<StreamItem>, sort: SortOrder)
    ensures
        is_patched_view(final(items)@, old(items)@, changed_items@, sort),
{
    let ghost changed = changed_items@;
    let mut current: Vec<StreamItem> = Vec::new();
    std::mem::swap(&mut current, items);
    let ghost start = current@;
    let ghost n = start.len();
    let ghost target = replaced_items(start, changed);
    let mut remaining = changed_items;
    let mut seen_ids: Vec<i64> = Vec::new();
    let mut replaced: Vec<StreamItem> = Vec::new();
    let ghost mut i: int = 0;
    while current.len() > 0
        invariant
            start.len() == n,
            target == replaced_items(start, changed),
            0 <= i <= n,
            i + current@.len() == n,
            current@ == start.skip(i),
            seen_ids@ == start.take(i).map_values(|it: StreamItem| it.id),
            replaced@ == target.take(i),
            forall|id: i64|
                !(#[trigger] seen_ids@.contains(id)) ==> last_with_id(remaining@, id)
                    == last_with_id(changed, id),
        decreases current.len(),
    {
        let item = current.remove(0);
        proof {
            assert(item == start[i]);
            assert(current@ =~= start.skip(i + 1));
            assert(!seen_ids@.contains(item.id) <==> first_with_its_id(start, i)) by {
                if seen_ids@.contains(item.id) {
                    let q = choose|q: int| 0 <= q < seen_ids@.len() && seen_ids@[q] == item.id;
                    assert(start[q].id == item.id);
                }
                if !first_with_its_id(start, i) {
                    let q = choose|q: int| 0 <= q < i && (#[trigger] start[q]).id != start[i].id
                        == false;
                    assert(seen_ids@[q] == item.id);
                }
            }
        }
        let id = item.id;
        let earlier = contains_id(&seen_ids, id);
        let next = if earlier {
            item
        } else {
            match find_last_with_id(&remaining, id) {
                Some(k) => {
                    let ghost before = remaining@;
                    let taken = remaining.remove(k);
                    proof {
                        assert forall|other: i64|
                            !(#[trigger] seen_ids@.push(id).contains(other)) implies last_with_id(
                            remaining@,
                            other,
                        ) == last_with_id(changed, other) by {
                            if other == id {
                                assert(seen_ids@.push(id)[seen_ids@.len() as int] == other);
                            }
                            assert(other != id);
                            assert(!seen_ids@.contains(other)) by {
                                if seen_ids@.contains(other) {
                                    let q = choose|q: int|
                                        0 <= q < seen_ids@.len() && seen_ids@[q] == other;
                                    assert(seen_ids@.push(id)[q] == other);
                                }
                            }
                            lemma_last_with_id_remove(before, k as int, other);
                        }
                    }
                    taken
                },
                None => item,
            }
        };
        proof {
            assert(next == target[i]);
        }
        let ghost old_seen = seen_ids@;
        seen_ids.push(id);
        replaced.push(next);
        proof {
            assert(start.take(i + 1).map_values(|it: StreamItem| it.id) =~= old_seen.push(id));
            assert(replaced@ =~= target.take(i + 1));
            assert forall|other: i64| !(#[trigger] seen_ids@.contains(other)) implies last_with_id(
                remaining@,
                other,
            ) == last_with_id(changed, other) by {
                if old_seen.contains(other) {
                    let q = choose|q: int| 0 <= q < old_seen.len() && old_seen[q] == other;
                    assert(seen_ids@[q] == other);
                }
            }
            i = i + 1;
        }
    }
    proof {
        assert(replaced@ =~= target);
    }
    let sorted = sort_view_items(replaced, sort);
    let ghost all = sorted@;
    let mut kept = sorted;
    kept.truncate(STREAM_VIEW_LIMIT);
    proof {
        assert(kept@ =~= all.take(kept@.len() as int));
        assert(all.to_multiset().len() == all.len());
        assert(target.to_multiset().len() == target.len());
        assert forall|a: int, b: int| 0 <= a < b < kept@.len() implies !item_before(
            #[trigger] kept@[b],
            #[trigger] kept@[a],
            sort,
        ) by {
            assert(kept@[a] == all[a] && kept@[b] == all[b]);
        }
    }
    *items = kept;
}

/// Some item of `items` has the id.
pub open spec fn has_item_id(items: Seq<StreamItem>, id: i64) -> bool {
    exists|k: int| 0 <= k < items.len() && (#[trigger] items[k]).id == id
}

fn holds_item_id(items: &Vec<StreamItem>, id: i64) -> (r: bool)
    ensures
        r == has_item_id(items@, id),
{
    let mut j: usize = 0;
    while j < items.len()
        invariant
            j <= items@.len(),
            forall|q: int| 0 <= q < j ==> (#[trigger] items@[q]).id != id,
        decreases items.len() - j,
    {
        if items[j].id == id {
            return true;
        }
        j = j + 1;
    }
    false
}

/// The view must be loaded again after a refresh: a full view sorted by a
/// time stamp that a refresh moves may gain items from beyond its end, and
/// a changed item may have entered or left the view.
pub open spec fn membership_changed(
    current: Seq<StreamItem>,
    changed_ids: Seq<i64>,
    changed: Seq<StreamItem>,
    sort: SortOrder,
) -> bool {
    ||| current.len() >= STREAM_VIEW_LIMIT && (sort == SortOrder::UpdatedDesc || sort
        == SortOrder::UpdatedAsc || sort == SortOrder::ReadDesc || sort == SortOrder::ClosedDesc || sort == SortOrder::MergedDesc)
    ||| exists|k: int|
        0 <= k < changed_ids.len() && has_item_id(current, #[trigger] changed_ids[k]) != has_item_id(
            changed,
            changed_ids[k],
        )
}

pub fn current_view_membership_changed(
    current_items: &Vec<StreamItem>,
    changed_item_ids: &Vec<i64>,
    changed_items: &Vec<StreamItem>,
    sort: SortOrder,
) -> (r: bool)
    ensures
        r == membership_changed(current_items@, changed_item_ids@, changed_items@, sort),
{
    if current_items.len() >= STREAM_VIEW_LIMIT {
        match sort {
            SortOrder::UpdatedDesc | SortOrder::UpdatedAsc | SortOrder::ReadDesc
            | SortOrder::ClosedDesc | SortOrder::MergedDesc => {
                return true;
            },
            SortOrder::CreatedDesc => {},
        }
    }
    let mut k: usize = 0;
    while k < changed_item_ids.len()
        invariant
            k <= changed_item_ids@.len(),
            forall|q: int|
                0 <= q < k ==> has_item_id(current_items@, #[trigger] changed_item_ids@[q])
                    == has_item_id(changed_items@, changed_item_ids@[q]),
        decreases changed_item_ids.len() - k,
    {
        let id = changed_item_ids[k];
        if holds_item_id(current_items, id) != holds_item_id(changed_items, id) {
            return true;
        }
        k = k + 1;
    }
    false
}

/// The view after changed items are taken in without reordering: an item
/// that did not change stays; a changed item still in the selection takes
/// the read, bookmark and archive state of its last refreshed copy; a
/// changed item no longer in the selection leaves.
pub open spec fn locally_patched(
    items: Seq<StreamItem>,
    changed_ids: Seq<i64>,
    changed: Seq<StreamItem>,
) -> Seq<StreamItem>
    decreases items.len(),
{
    if items.len() == 0 {
        seq![]
    } else {
        let rest = locally_patched(items.drop_last(), changed_ids, changed);
        let it = items.last();
        if !changed_ids.contains(it.id) {
            rest.push(it)
        } else {
            match last_with_id(changed, it.id) {
                Some(c) => rest.push(
                    StreamItem {
                        is_unread: c.is_unread,
                        is_bookmarked: c.is_bookmarked,
                        is_archived: c.is_archived,
                        ..it
                    },
                ),
                None => rest,
            }
        }
    }
}

pub fn patch_local_item_state(
    items: &mut Vec<StreamItem>,
    changed_item_ids: &Vec<i64>,
    changed_items: &Vec<StreamItem>,
)
    ensures
        final(items)@ == locally_patched(old(items)@, changed_item_ids@, changed_items@),
{
    let mut current: Vec<StreamItem> = Vec::new();
    std::mem::swap(&mut current, items);
    let ghost start = current@;
    let mut out: Vec<StreamItem> = Vec::new();
    let ghost mut i: int = 0;
    while current.len() > 0
        invariant
            0 <= i <= start.len(),
            current@ == start.skip(i),
            out@ == locally_patched(start.take(i), changed_item_ids@, changed_items@),
        decreases current.len(),
    {
        let item = current.remove(0);
        proof {
            assert(item == start[i]);
            assert(current@ =~= start.skip(i + 1));
            assert(start.take(i + 1).drop_last() =~= start.take(i));
        }
        if !contains_id(changed_item_ids, item.id) {
            out.push(item);
        } else {
            match find_last_with_id(changed_items, item.id) {
                Some(k) => {
                    let mut patched = item;
                    patched.is_unread = changed_items[k].is_unread;
                    patched.is_bookmarked = changed_items[k].is_bookmarked;
                    patched.is_archived = changed_items[k].is_archived;
                    out.push(patched);
                },
                None => {},
            }
        }
        proof {
            i = i + 1;
        }
    }
    proof {
        assert(start.take(i) =~= start);
    }
    *items = out;
}

/// An optional text, by its characters.
pub open spec fn opt_view(s: Option<String>) -> Option<Seq<char>> {
    match s {
        Some(t) => Some(t@),
        None => None,
    }
}

pub open spec fn person_view(p: ItemPerson) -> (Seq<char>, Option<Seq<char>>) {
    (p.login@, opt_view(p.avatar_url))
}

pub open spec fn review_view(r: ItemReview) -> (Seq<char>, Option<Seq<char>>, Seq<char>) {
    (r.login@, opt_view(r.avatar_url), r.state@)
}

/// Two items hold the same values.
pub open spec fn same_item(a: StreamItem, b: StreamItem) -> bool {
    &&& a.id == b.id
    &&& a.repository_owner@ == b.repository_owner@
    &&& a.repository_name@ == b.repository_name@
    &&& a.number == b.number
    &&& a.item_type == b.item_type
    &&& a.title@ == b.title@
    &&& opt_view(a.author_login) == opt_view(b.author_login)
    &&& opt_view(a.author_avatar_url) == opt_view(b.author_avatar_url)
    &&& a.html_url@ == b.html_url@
    &&& a.state@ == b.state@
    &&& a.is_draft == b.is_draft
    &&& a.is_merged == b.is_merged
    &&& opt_view(a.review_status) == opt_view(b.review_status)
    &&& a.comment_count == b.comment_count
    &&& a.created_at_github@ == b.created_at_github@
    &&& a.updated_at_github@ == b.updated_at_github@
    &&& opt_view(a.closed_at_github) == opt_view(b.closed_at_github)
    &&& opt_view(a.merged_at_github) == opt_view(b.merged_at_github)
    &&& opt_view(a.read_at) == opt_view(b.read_at)
    &&& a.labels@.map_values(|l: String| l@) == b.labels@.map_values(|l: String| l@)
    &&& a.assignees@.map_values(|p: ItemPerson| person_view(p)) == b.assignees@.map_values(
        |p: ItemPerson| person_view(p),
    )
    &&& a.review_requests@.map_values(|p: ItemPerson| person_view(p))
        == b.review_requests@.map_values(|p: ItemPerson| person_view(p))
    &&& a.reviewers@.map_values(|r: ItemReview| review_view(r)) == b.reviewers@.map_values(
        |r: ItemReview| review_view(r),
    )
    &&& a.is_unread == b.is_unread
    &&& a.is_bookmarked == b.is_bookmarked
    &&& a.is_archived == b.is_archived
}

fn opt_str_eq(a: &Option<String>, b: &Option<String>) -> (r: bool)
    ensures
        r == (opt_view(*a) == opt_view(*b)),
{
    match (a, b) {
        (Some(x), Some(y)) => str_eq(x.as_str(), y.as_str()),
        (None, None) => true,
        _ => false,
    }
}

fn strings_eq(a: &Vec<String>, b: &Vec<String>) -> (r: bool)
    ensures
        r == (a@.map_values(|l: String| l@) == b@.map_values(|l: String| l@)),
{
    let ghost va = a@.map_values(|l: String| l@);
    let ghost vb = b@.map_values(|l: String| l@);
    if a.len() != b.len() {
        assert(va.len() != vb.len());
        return false;
    }
    let mut i: usize = 0;
    while i < a.len()
        invariant
            a@.len() == b@.len(),
            i <= a@.len(),
            va == a@.map_values(|l: String| l@),
            vb == b@.map_values(|l: String| l@),
            forall|k: int| 0 <= k < i ==> va[k] == vb[k],
        decreases a.len() - i,
    {
        if !str_eq(a[i].as_str(), b[i].as_str()) {
            assert(va[i as int] != vb[i as int]);
            return false;
        }
        i = i + 1;
    }
    assert(va =~= vb);
    true
}

fn people_eq(a: &Vec<ItemPerson>, b: &Vec<ItemPerson>) -> (r: bool)
    ensures
        r == (a@.map_values(|p: ItemPerson| person_view(p)) == b@.map_values(
            |p: ItemPerson| person_view(p),
        )),
{
    let ghost va = a@.map_values(|p: ItemPerson| person_view(p));
    let ghost vb = b@.map_values(|p: ItemPerson| person_view(p));
    if a.len() != b.len() {
        assert(va.len() != vb.len());
        return false;
    }
    let mut i: usize = 0;
    while i < a.len()
        invariant
            a@.len() == b@.len(),
            i <= a@.len(),
            va == a@.map_values(|p: ItemPerson| person_view(p)),
            vb == b@.map_values(|p: ItemPerson| person_view(p)),
            forall|k: int| 0 <= k < i ==> va[k] == vb[k],
        decreases a.len() - i,
    {
        if !str_eq(a[i].login.as_str(), b[i].login.as_str()) || !opt_str_eq(
            &a[i].avatar_url,
            &b[i].avatar_url,
        ) {
            assert(va[i as int] != vb[i as int]);
            return false;
        }
        i = i + 1;
    }
    assert(va =~= vb);
    true
}

fn reviews_eq(a: &Vec<ItemReview>, b: &Vec<ItemReview>) -> (r: bool)
    ensures
        r == (a@.map_values(|r: ItemReview| review_view(r)) == b@.map_values(
            |r: ItemReview| review_view(r),
        )),
{
    let ghost va = a@.map_values(|r: ItemReview| review_view(r));
    let ghost vb = b@.map_values(|r: ItemReview| review_view(r));
    if a.len() != b.len() {
        assert(va.len() != vb.len());
        return false;
    }
    let mut i: usize = 0;
    while i < a.len()
        invariant
            a@.len() == b@.len(),
            i <= a@.len(),
            va == a@.map_values(|r: ItemReview| review_view(r)),
            vb == b@.map_values(|r: ItemReview| review_view(r)),
            forall|k: int| 0 <= k < i ==> va[k] == vb[k],
        decreases a.len() - i,
    {
        if !str_eq(a[i].login.as_str(), b[i].login.as_str()) || !opt_str_eq(
            &a[i].avatar_url,
            &b[i].avatar_url,
        ) || !str_eq(a[i].state.as_str(), b[i].state.as_str()) {
            assert(va[i as int] != vb[i as int]);
            return false;
        }
        i = i + 1;
    }
    assert(va =~= vb);
    true
}

/// Whether two items hold the same values.
pub fn items_equal(a: &StreamItem, b: &StreamItem) -> (r: bool)
    ensures
        r == same_item(*a, *b),
{
    a.id == b.id && str_eq(a.repository_owner.as_str(), b.repository_owner.as_str()) && str_eq(
        a.repository_name.as_str(),
        b.repository_name.as_str(),
    ) && a.number == b.number && a.item_type == b.item_type && str_eq(
        a.title.as_str(),
        b.title.as_str(),
    ) && opt_str_eq(&a.author_login, &b.author_login) && opt_str_eq(
        &a.author_avatar_url,
        &b.author_avatar_url,
    ) && str_eq(a.html_url.as_str(), b.html_url.as_str()) && str_eq(
        a.state.as_str(),
        b.state.as_str(),
    ) && a.is_draft == b.is_draft && a.is_merged == b.is_merged && opt_str_eq(
        &a.review_status,
        &b.review_status,
    ) && a.comment_count == b.comment_count && str_eq(
        a.created_at_github.as_str(),
        b.created_at_github.as_str(),
    ) && str_eq(a.updated_at_github.as_str(), b.updated_at_github.as_str()) && opt_str_eq(
        &a.closed_at_github,
        &b.closed_at_github,
    ) && opt_str_eq(&a.merged_at_github, &b.merged_at_github) && opt_str_eq(&a.read_at, &b.read_at)
        && strings_eq(&a.labels, &b.labels) && people_eq(&a.assignees, &b.assignees) && people_eq(
        &a.review_requests,
        &b.review_requests,
    ) && reviews_eq(&a.reviewers, &b.reviewers) && a.is_unread == b.is_unread && a.is_bookmarked
        == b.is_bookmarked && a.is_archived == b.is_archived
}

/// Two lists hold the same items in the same order.
pub open spec fn same_items(a: Seq<StreamItem>, b: Seq<StreamItem>) -> bool {
    a.len() == b.len() && forall|k: int| 0 <= k < a.len() ==> same_item(#[trigger] a[k], b[k])
}

pub fn item_lists_equal(a: &Vec<StreamItem>, b: &Vec<StreamItem>) -> (r: bool)
    ensures
        r == same_items(a@, b@),
{
    if a.len() != b.len() {
        return false;
    }
    let mut i: usize = 0;
    while i < a.len()
        invariant
            a@.len() == b@.len(),
            i <= a@.len(),
            forall|k: int| 0 <= k < i ==> same_item(#[trigger] a@[k], b@[k]),
        decreases a.len() - i,
    {
        if !items_equal(&a[i], &b[i]) {
            return false;
        }
        i = i + 1;
    }
    true
}

/// The first item of `items` with the given id.
pub open spec fn first_item_with_id(items: Seq<StreamItem>, id: i64) -> Option<StreamItem>
    decreases items.len(),
{
    if items.len() == 0 {
        None
    } else if items[0].id == id {
        Some(items[0])
    } else {
        first_item_with_id(items.drop_first(), id)
    }
}

/// The item with `id` looks different in `a` and in `b` (or is in only
/// one of them).
pub open spec fn differs_at(a: Seq<StreamItem>, b: Seq<StreamItem>, id: i64) -> bool {
    match (first_item_with_id(a, id), first_item_with_id(b, id)) {
        (Some(x), Some(y)) => !same_item(x, y),
        (None, None) => false,
        _ => true,
    }
}

fn find_item(items: &Vec<StreamItem>, id: i64) -> (r: Option<usize>)
    ensures
        match r {
            Some(k) => k < items@.len() && first_item_with_id(items@, id) == Some(items@[k as int]),
            None => first_item_with_id(items@, id) is None,
        },
{
    let mut i: usize = 0;
    assert(items@.skip(0) =~= items@);
    while i < items.len()
        invariant
            i <= items@.len(),
            first_item_with_id(items@, id) == first_item_with_id(items@.skip(i as int), id),
        decreases items.len() - i,
    {
        proof {
            assert(items@.skip(i as int).drop_first() =~= items@.skip(i + 1));
        }
        if items[i].id == id {
            return Some(i);
        }
        i = i + 1;
    }
    None
}

/// Whether the item with `id` looks different in the two lists.
pub fn item_differs(a: &Vec<StreamItem>, b: &Vec<StreamItem>, id: i64) -> (r: bool)
    ensures
        r == differs_at(a@, b@, id),
{
    match (find_item(a, id), find_item(b, id)) {
        (Some(x), Some(y)) => !items_equal(&a[x], &b[y]),
        (None, None) => false,
        _ => true,
    }
}

} // verus!
