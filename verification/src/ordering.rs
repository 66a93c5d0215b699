//! The stable order of records by `(position, name)`.
//!
//! Saved queries and filter streams are ordered by their position, then by
//! their name, and records with equal keys keep the order they came in
//! (`slice::sort_by` is stable). The order is computed as a permutation of
//! indices, so the records themselves need not move.

use vstd::prelude::*;

use crate::text::{
    lemma_seq_lt_asymmetric, lemma_seq_lt_irreflexive, lemma_seq_lt_total, lemma_seq_lt_transitive,
    seq_lt, str_eq, str_lt,
};

verus! {

/// `(position, name)` ordering: by position, then by name.
pub open spec fn key_lt(a: (i64, Seq<char>), b: (i64, Seq<char>)) -> bool {
    a.0 < b.0 || (a.0 == b.0 && seq_lt(a.1, b.1))
}

/// Inserts index `i` into the ordered indices `order`, after every index
/// whose key is not greater than that of `i`.
pub open spec fn insert_index(order: Seq<usize>, i: usize, keys: Seq<(i64, Seq<char>)>) -> Seq<
    usize,
>
    decreases order.len(),
{
    if order.len() == 0 {
        seq![i]
    } else if key_lt(keys[i as int], keys[order.last() as int]) {
        insert_index(order.drop_last(), i, keys).push(order.last())
    } else {
        order.push(i)
    }
}

/// The indices `0..n` in stable `(position, name)` order (insertion sort is
/// the definition of a stable sort used here).
pub open spec fn stable_order(keys: Seq<(i64, Seq<char>)>, n: nat) -> Seq<usize>
    decreases n,
{
    if n == 0 {
        seq![]
    } else {
        insert_index(stable_order(keys, (n - 1) as nat), (n - 1) as usize, keys)
    }
}

/// The view of exec keys.
pub open spec fn keys_view(keys: Seq<(i64, String)>) -> Seq<(i64, Seq<char>)> {
    keys.map_values(|k: (i64, String)| (k.0, k.1@))
}

fn key_lt_exec(a: &(i64, String), b: &(i64, String)) -> (r: bool)
    ensures
        r == key_lt((a.0, a.1@), (b.0, b.1@)),
{
    a.0 < b.0 || (a.0 == b.0 && str_lt(a.1.as_str(), b.1.as_str()))
}

proof fn lemma_insert_at(order: Seq<usize>, i: usize, keys: Seq<(i64, Seq<char>)>, p: int)
    requires
        0 <= p <= order.len(),
        forall|q: int| p <= q < order.len() ==> key_lt(keys[i as int], keys[order[q] as int]),
        p > 0 ==> !key_lt(keys[i as int], keys[order[p - 1] as int]),
    ensures
        insert_index(order, i, keys) == order.take(p) + seq![i] + order.skip(p),
    decreases order.len(),
{
    if order.len() == 0 {
        assert(order.take(p) + seq![i] + order.skip(p) =~= seq![i]);
    } else if p == order.len() {
        assert(order.take(p) + seq![i] + order.skip(p) =~= order.push(i));
    } else {
        let d = order.drop_last();
        assert(key_lt(keys[i as int], keys[order.last() as int]));
        lemma_insert_at(d, i, keys, p);
        assert(d.take(p) =~= order.take(p));
        assert((d.take(p) + seq![i] + d.skip(p)).push(order.last()) =~= order.take(p) + seq![i]
            + order.skip(p));
    }
}

/// The indices of `keys` in stable `(position, name)` order.
pub fn stable_sort_order(keys: &Vec<(i64, String)>) -> (order: Vec<usize>)
    ensures
        order@ == stable_order(keys_view(keys@), keys@.len()),
        order@.len() == keys@.len(),
{
    let ghost kv = keys_view(keys@);
    let mut order: Vec<usize> = Vec::new();
    let n = keys.len();
    let mut i: usize = 0;
    while i < n
        invariant
            n == keys.len(),
            i <= n,
            kv == keys_view(keys@),
            order@ == stable_order(kv, i as nat),
            order@.len() == i,
            forall|q: int| 0 <= q < order@.len() ==> order@[q] < i,
        decreases n - i,
    {
        let mut p = order.len();
        while p > 0 && key_lt_exec(&keys[i], &keys[order[p - 1]])
            invariant
                n == keys.len(),
                i < n,
                kv == keys_view(keys@),
                p <= order@.len(),
                forall|q: int| 0 <= q < order@.len() ==> order@[q] < i,
                forall|q: int| p <= q < order@.len() ==> key_lt(kv[i as int], kv[order@[q] as int]),
            decreases p,
        {
            p = p - 1;
        }
        proof {
            lemma_insert_at(order@, i, kv, p as int);
            assert(stable_order(kv, (i + 1) as nat) == insert_index(
                stable_order(kv, i as nat),
                i,
                kv,
            ));
        }
        order.insert(p, i);
        assert(order@ =~= stable_order(kv, i as nat).take(p as int) + seq![i] + stable_order(
            kv,
            i as nat,
        ).skip(p as int));
        i = i + 1;
    }
    order
}

proof fn lemma_insert_index_perm(order: Seq<usize>, i: usize, keys: Seq<(i64, Seq<char>)>)
    ensures
        insert_index(order, i, keys).len() == order.len() + 1,
        forall|x: usize| #[trigger]
            insert_index(order, i, keys).contains(x) <==> (order.contains(x) || x == i),
    decreases order.len(),
{
    if order.len() > 0 && key_lt(keys[i as int], keys[order.last() as int]) {
        lemma_insert_index_perm(order.drop_last(), i, keys);
        assert forall|x: usize| order.contains(x) <==> (order.drop_last().contains(x) || x
            == order.last()) by {
            if order.contains(x) {
                let k = choose|k: int| 0 <= k < order.len() && order[k] == x;
                if k < order.len() - 1 {
                    assert(order.drop_last()[k] == x);
                }
            }
            if order.drop_last().contains(x) {
                let k = choose|k: int| 0 <= k < order.drop_last().len() && order.drop_last()[k] == x;
                assert(order[k] == x);
            }
        }
        let r = insert_index(order.drop_last(), i, keys);
        assert(insert_index(order, i, keys) == r.push(order.last()));
        assert forall|x: usize| r.push(order.last()).contains(x) <==> (r.contains(x) || x
            == order.last()) by {
            if r.push(order.last()).contains(x) {
                let k = choose|k: int| 0 <= k < r.push(order.last()).len() && r.push(order.last())[k] == x;
                if k < r.len() {
                    assert(r[k] == x);
                }
            }
            if r.contains(x) {
                let k = choose|k: int| 0 <= k < r.len() && r[k] == x;
                assert(r.push(order.last())[k] == x);
            }
            if x == order.last() {
                assert(r.push(order.last())[r.len() as int] == x);
            }
        }
        assert forall|x: usize| #[trigger] insert_index(order, i, keys).contains(x) <==> (
        order.contains(x) || x == i) by {
            assert(r.contains(x) <==> (order.drop_last().contains(x) || x == i));
        }
    } else if order.len() > 0 {
        assert forall|x: usize| order.push(i).contains(x) <==> (order.contains(x) || x == i) by {
            if order.push(i).contains(x) {
                let k = choose|k: int| 0 <= k < order.push(i).len() && order.push(i)[k] == x;
                if k < order.len() {
                    assert(order[k] == x);
                }
            }
            if order.contains(x) {
                let k = choose|k: int| 0 <= k < order.len() && order[k] == x;
                assert(order.push(i)[k] == x);
            }
            if x == i {
                assert(order.push(i)[order.len() as int] == x);
            }
        }
    } else {
        assert forall|x: usize| seq![i].contains(x) <==> x == i by {
            if x == i {
                assert(seq![i][0] == x);
            }
        }
    }
}

/// The stable order lists every index below `n` exactly once.
pub proof fn lemma_stable_order_indices(keys: Seq<(i64, Seq<char>)>, n: nat)
    ensures
        stable_order(keys, n).len() == n,
        forall|x: usize| #[trigger] stable_order(keys, n).contains(x) <==> x < n,
    decreases n,
{
    if n > 0 {
        lemma_stable_order_indices(keys, (n - 1) as nat);
        lemma_insert_index_perm(stable_order(keys, (n - 1) as nat), (n - 1) as usize, keys);
    }
}

/// Whether `name` is among `names`.
pub fn contains_name(names: &Vec<String>, name: &str) -> (b: bool)
    ensures
        b == names@.map_values(|s: String| s@).contains(name@),
{
    let ghost views = names@.map_values(|s: String| s@);
    let mut i: usize = 0;
    while i < names.len()
        invariant
            i <= names.len(),
            views == names@.map_values(|s: String| s@),
            forall|k: int| 0 <= k < i ==> views[k] != name@,
        decreases names.len() - i,
    {
        if str_eq(names[i].as_str(), name) {
            assert(views[i as int] == name@);
            return true;
        }
        i = i + 1;
    }
    false
}

proof fn lemma_key_lt_facts(a: (i64, Seq<char>), b: (i64, Seq<char>), c: (i64, Seq<char>))
    ensures
        key_lt(a, b) ==> !key_lt(b, a),
        !key_lt(a, a),
        key_lt(a, b) && key_lt(b, c) ==> key_lt(a, c),
        !key_lt(a, b) && !key_lt(b, a) ==> a == b,
{
    lemma_seq_lt_asymmetric(a.1, b.1);
    lemma_seq_lt_irreflexive(a.1);
    if a.0 == b.0 && b.0 == c.0 && seq_lt(a.1, b.1) && seq_lt(b.1, c.1) {
        lemma_seq_lt_transitive(a.1, b.1, c.1);
    }
    lemma_seq_lt_total(a.1, b.1);
}

/// No later element has a smaller key than an earlier one.
pub open spec fn is_sorted_order(order: Seq<usize>, keys: Seq<(i64, Seq<char>)>) -> bool {
    forall|i: int, j: int|
        0 <= i < j < order.len() ==> !key_lt(keys[order[j] as int], keys[order[i] as int])
}

proof fn lemma_insert_index_sorted(order: Seq<usize>, x: usize, keys: Seq<(i64, Seq<char>)>)
    requires
        is_sorted_order(order, keys),
    ensures
        is_sorted_order(insert_index(order, x, keys), keys),
        insert_index(order, x, keys).len() == order.len() + 1,
        forall|v: usize| #[trigger]
            insert_index(order, x, keys).contains(v) <==> (order.contains(v) || v == x),
    decreases order.len(),
{
    lemma_insert_index_perm(order, x, keys);
    if order.len() > 0 {
        let last = order.last();
        let d = order.drop_last();
        if key_lt(keys[x as int], keys[last as int]) {
            assert(is_sorted_order(d, keys));
            lemma_insert_index_sorted(d, x, keys);
            let r = insert_index(d, x, keys);
            assert forall|i: int, j: int| 0 <= i < j < r.push(last).len() implies !key_lt(
                keys[r.push(last)[j] as int],
                keys[r.push(last)[i] as int],
            ) by {
                if j == r.len() {
                    let v = r[i];
                    assert(r.contains(v));
                    if v == x {
                        lemma_key_lt_facts(keys[x as int], keys[last as int], keys[x as int]);
                    } else {
                        assert(d.contains(v));
                        let k = choose|k: int| 0 <= k < d.len() && d[k] == v;
                        assert(order[k] == v);
                        assert(!key_lt(keys[order[d.len() as int] as int], keys[order[k] as int]));
                    }
                }
            }
        } else {
            assert forall|i: int, j: int| 0 <= i < j < order.push(x).len() implies !key_lt(
                keys[order.push(x)[j] as int],
                keys[order.push(x)[i] as int],
            ) by {
                if j == order.len() {
                    let e = order[i];
                    if i < order.len() - 1 {
                        assert(!key_lt(keys[last as int], keys[e as int]));
                    }
                    lemma_key_lt_facts(keys[x as int], keys[e as int], keys[last as int]);
                    lemma_key_lt_facts(keys[e as int], keys[last as int], keys[x as int]);
                    lemma_key_lt_facts(keys[last as int], keys[e as int], keys[x as int]);
                    lemma_key_lt_facts(keys[x as int], keys[last as int], keys[e as int]);
                }
            }
        }
    }
}

/// The stable order is sorted by key.
pub proof fn lemma_stable_order_sorted(keys: Seq<(i64, Seq<char>)>, n: nat)
    ensures
        is_sorted_order(stable_order(keys, n), keys),
    decreases n,
{
    if n > 0 {
        lemma_stable_order_sorted(keys, (n - 1) as nat);
        lemma_insert_index_sorted(stable_order(keys, (n - 1) as nat), (n - 1) as usize, keys);
    }
}

/// The stable order lists each index once.
pub proof fn lemma_stable_order_no_duplicates(keys: Seq<(i64, Seq<char>)>, n: nat)
    requires
        n <= usize::MAX,
    ensures
        stable_order(keys, n).no_duplicates(),
    decreases n,
{
    if n > 0 {
        let prev = stable_order(keys, (n - 1) as nat);
        lemma_stable_order_no_duplicates(keys, (n - 1) as nat);
        lemma_stable_order_indices(keys, (n - 1) as nat);
        lemma_insert_index_no_duplicates(prev, (n - 1) as usize, keys);
    }
}

proof fn lemma_insert_index_no_duplicates(order: Seq<usize>, x: usize, keys: Seq<(i64, Seq<char>)>)
    requires
        order.no_duplicates(),
        !order.contains(x),
    ensures
        insert_index(order, x, keys).no_duplicates(),
    decreases order.len(),
{
    lemma_insert_index_perm(order, x, keys);
    if order.len() > 0 && key_lt(keys[x as int], keys[order.last() as int]) {
        let d = order.drop_last();
        assert(!d.contains(x)) by {
            if d.contains(x) {
                let k = choose|k: int| 0 <= k < d.len() && d[k] == x;
                assert(order[k] == x);
            }
        }
        lemma_insert_index_no_duplicates(d, x, keys);
        lemma_insert_index_perm(d, x, keys);
        let r = insert_index(d, x, keys);
        assert(!r.contains(order.last())) by {
            if r.contains(order.last()) {
                if d.contains(order.last()) {
                    let k = choose|k: int| 0 <= k < d.len() && d[k] == order.last();
                    assert(order[k] == order[order.len() - 1]);
                } else {
                    assert(order.contains(x)) by {
                        assert(order[order.len() - 1] == x);
                    }
                }
            }
        }
        assert forall|i: int, j: int|
            0 <= i < r.push(order.last()).len() && 0 <= j < r.push(order.last()).len() && i
                != j implies r.push(order.last())[i] != r.push(order.last())[j] by {
            if i == r.len() as int {
                assert(r.contains(r[j]));
            } else if j == r.len() as int {
                assert(r.contains(r[i]));
            }
        }
    } else if order.len() > 0 {
        assert forall|i: int, j: int|
            0 <= i < order.push(x).len() && 0 <= j < order.push(x).len() && i != j implies order.push(
            x,
        )[i] != order.push(x)[j] by {
            if i == order.len() as int {
                assert(order.contains(order[j]));
            } else if j == order.len() as int {
                assert(order.contains(order[i]));
            }
        }
    }
}

/// Views of strings.
pub open spec fn views(v: Seq<String>) -> Seq<Seq<char>> {
    v.map_values(|s: String| s@)
}

/// Strictly increasing in the order of `str`.
pub open spec fn strictly_sorted(v: Seq<Seq<char>>) -> bool {
    forall|i: int, j: int| 0 <= i < j < v.len() ==> seq_lt(#[trigger] v[i], #[trigger] v[j])
}

/// Sorts distinct strings into increasing order.
pub fn sort_distinct_strings(v: &Vec<String>) -> (r: Vec<String>)
    requires
        views(v@).no_duplicates(),
    ensures
        strictly_sorted(views(r@)),
        views(r@).to_set() == views(v@).to_set(),
        r@.len() == v@.len(),
{
    let mut keys: Vec<(i64, String)> = Vec::new();
    let mut i: usize = 0;
    while i < v.len()
        invariant
            i <= v.len(),
            keys@.len() == i,
            forall|k: int| 0 <= k < i ==> #[trigger] keys@[k].0 == 0 && keys@[k].1@ == v@[k]@,
        decreases v.len() - i,
    {
        keys.push((0, v[i].clone()));
        i = i + 1;
    }
    let order = stable_sort_order(&keys);
    let ghost kv = keys_view(keys@);
    proof {
        lemma_stable_order_indices(kv, v@.len());
        lemma_stable_order_sorted(kv, v@.len());
        lemma_stable_order_no_duplicates(kv, v@.len());
        assert forall|k: int| 0 <= k < v@.len() implies #[trigger] kv[k] == (0i64, v@[k]@) by {}
    }
    let mut r: Vec<String> = Vec::new();
    let mut k: usize = 0;
    while k < order.len()
        invariant
            order@ == stable_order(kv, v@.len()),
            order@.len() == v@.len(),
            forall|x: usize| #[trigger] order@.contains(x) <==> x < v@.len(),
            k <= order.len(),
            r@.len() == k,
            forall|j: int| 0 <= j < k ==> #[trigger] r@[j]@ == v@[order@[j] as int]@,
        decreases order.len() - k,
    {
        assert(order@.contains(order@[k as int]));
        r.push(v[order[k]].clone());
        k = k + 1;
    }
    proof {
        assert forall|i: int, j: int| 0 <= i < j < views(r@).len() implies seq_lt(
            #[trigger] views(r@)[i],
            #[trigger] views(r@)[j],
        ) by {
            let a = order@[i] as int;
            let b = order@[j] as int;
            assert(order@.contains(order@[i]));
            assert(order@.contains(order@[j]));
            assert(a != b);
            assert(!key_lt(kv[b], kv[a]));
            assert(kv[a] == (0i64, v@[a]@));
            assert(kv[b] == (0i64, v@[b]@));
            assert(views(v@)[a] != views(v@)[b]);
            lemma_seq_lt_total(v@[a]@, v@[b]@);
        }
        assert forall|x: Seq<char>| views(r@).contains(x) <==> views(v@).contains(x) by {
            if views(r@).contains(x) {
                let j = choose|j: int| 0 <= j < views(r@).len() && views(r@)[j] == x;
                assert(order@.contains(order@[j]));
                assert(views(v@)[order@[j] as int] == x);
            }
            if views(v@).contains(x) {
                let a = choose|a: int| 0 <= a < views(v@).len() && views(v@)[a] == x;
                assert(order@.contains(a as usize));
                let j = choose|j: int| 0 <= j < order@.len() && order@[j] == a as usize;
                assert(views(r@)[j] == x);
            }
        }
        assert(views(r@).to_set() =~= views(v@).to_set());
    }
    r
}

/// The position of `name` among `names`, if it is there.
pub fn find_name(names: &Vec<String>, name: &str) -> (r: Option<usize>)
    ensures
        match r {
            Some(g) => g < names@.len() && names@[g as int]@ == name@,
            None => !views(names@).contains(name@),
        },
{
    let mut i: usize = 0;
    while i < names.len()
        invariant
            i <= names.len(),
            forall|k: int| 0 <= k < i ==> views(names@)[k] != name@,
        decreases names.len() - i,
    {
        if str_eq(names[i].as_str(), name) {
            return Some(i);
        }
        i = i + 1;
    }
    None
}

} // verus!
