//! GraphQL enrichment of pull requests and issues: review state, review
//! requests, review authors, participants and mentions.

use vstd::prelude::*;

use crate::github::mentions::{collect_mentions_from_text, is_mentioned};
use crate::github::{FetchedStreamItem, GitHubError};
use crate::models::config::HostConfig;
use crate::models::stream_item::{ItemPerson, ItemReview, ItemType};
use crate::ordering::{
    contains_name, find_name, is_sorted_order, key_lt, keys_view, lemma_stable_order_indices,
    lemma_stable_order_no_duplicates, lemma_stable_order_sorted, sort_distinct_strings,
    stable_order, stable_sort_order, strictly_sorted, views,
};
use crate::text::{
    lemma_seq_lt_total, lower_seq, seq_lt, str_eq, to_ascii_lowercase,
};

verus! {

/// The fields asked of each issue and pull request.
pub const ITEM_ENRICHMENT_QUERY: &'static str = r#"
query ItemEnrichment($ids: [ID!]!) {
  nodes(ids: $ids) {
    ... on Issue {
      id
      body
      participants(first: 20) {
        nodes {
          login
          avatarUrl
        }
      }
      comments(first: 20) {
        nodes {
          author {
            ... on User {
              login
              avatarUrl
            }
          }
          body
        }
      }
    }
    ... on PullRequest {
      id
      body
      isDraft
      merged
      mergedAt
      reviewDecision
      reviewRequests(first: 20) {
        totalCount
        nodes {
          requestedReviewer {
            ... on User {
              login
              avatarUrl
            }
          }
        }
      }
      latestReviews(first: 20) {
        nodes {
          state
          body
          author {
            ... on User {
              login
              avatarUrl
            }
          }
        }
      }
      participants(first: 20) {
        nodes {
          login
          avatarUrl
        }
      }
      comments(first: 20) {
        nodes {
          author {
            ... on User {
              login
              avatarUrl
            }
          }
          body
        }
      }
    }
  }
}
"#;

/// Ids asked for per enrichment request.
pub const ITEM_ENRICHMENT_BATCH_SIZE: usize = 50;

/// The review state of a pull request as the list shows it.
#[derive(Clone, Copy, Debug, PartialEq, Eq, Structural)]
pub enum ReviewSignal {
    NoSignal,
    ReviewRequired,
    ChangesRequested,
    Approved,
    Unknown,
}

pub open spec fn review_signal_db_value(signal: ReviewSignal) -> Seq<char> {
    match signal {
        ReviewSignal::NoSignal => "none"@,
        ReviewSignal::ReviewRequired => "review_required"@,
        ReviewSignal::ChangesRequested => "changes_requested"@,
        ReviewSignal::Approved => "approved"@,
        ReviewSignal::Unknown => "unknown"@,
    }
}

impl ReviewSignal {
    pub fn as_db_value(&self) -> (r: &'static str)
        ensures
            r@ == review_signal_db_value(*self),
    {
        match self {
            ReviewSignal::NoSignal => "none",
            ReviewSignal::ReviewRequired => "review_required",
            ReviewSignal::ChangesRequested => "changes_requested",
            ReviewSignal::Approved => "approved",
            ReviewSignal::Unknown => "unknown",
        }
    }
}

// ---------------------------------------------------------------------------
// The answer of the enrichment query
// ---------------------------------------------------------------------------

#[derive(Clone, Debug, Default, PartialEq, Eq)]
pub struct UserRef {
    pub login: Option<String>,
    pub avatar_url: Option<String>,
}

#[derive(Clone, Debug, PartialEq, Eq)]
pub struct ReviewRequestNode {
    pub requested_reviewer: Option<UserRef>,
}

#[derive(Clone, Debug, Default, PartialEq, Eq)]
pub struct ReviewRequests {
    pub total_count: i64,
    pub nodes: Vec<ReviewRequestNode>,
}

#[derive(Clone, Debug, Default, PartialEq, Eq)]
pub struct ReviewNode {
    pub state: String,
    pub body: String,
    pub author: Option<UserRef>,
}

#[derive(Clone, Debug, Default, PartialEq, Eq)]
pub struct LatestReviews {
    pub nodes: Vec<ReviewNode>,
}

#[derive(Clone, Debug, Default, PartialEq, Eq)]
pub struct Participants {
    pub nodes: Vec<UserRef>,
}

#[derive(Clone, Debug, Default, PartialEq, Eq)]
pub struct CommentNode {
    pub author: Option<UserRef>,
    pub body: String,
}

#[derive(Clone, Debug, Default, PartialEq, Eq)]
pub struct Comments {
    pub nodes: Vec<CommentNode>,
}

/// An issue or pull request as the enrichment query describes it.
#[derive(Clone, Debug, Default, PartialEq, Eq)]
pub struct EnrichedNode {
    pub id: String,
    pub body: String,
    pub is_draft: Option<bool>,
    pub merged: Option<bool>,
    pub merged_at: Option<String>,
    pub review_decision: Option<String>,
    pub review_requests: ReviewRequests,
    pub latest_reviews: LatestReviews,
    pub participants: Participants,
    pub comments: Comments,
}

#[derive(Clone, Debug, PartialEq, Eq)]
pub struct GraphqlError {
    pub message: String,
}

#[derive(Clone, Debug, PartialEq, Eq)]
pub struct GraphqlData {
    pub nodes: Vec<Option<EnrichedNode>>,
}

#[derive(Clone, Debug, PartialEq, Eq)]
pub struct GraphqlResponse {
    pub data: Option<GraphqlData>,
    pub errors: Option<Vec<GraphqlError>>,
}

/// What enrichment learned of one item.
#[derive(Clone, Debug, PartialEq, Eq)]
pub struct ItemEnrichment {
    pub is_draft: Option<bool>,
    pub merged: Option<bool>,
    pub merged_at: Option<String>,
    pub review_status: Option<ReviewSignal>,
    pub review_requests: Vec<ItemPerson>,
    pub reviewers: Vec<ItemReview>,
    pub participants: Vec<ItemPerson>,
    pub mentions: Vec<String>,
}

// ---------------------------------------------------------------------------
// Review state
// ---------------------------------------------------------------------------

/// Only pull requests carry the fields a review state is read from.
pub open spec fn review_fields_present(node: EnrichedNode) -> bool {
    node.is_draft is Some || node.merged is Some || node.review_decision is Some
}

impl EnrichedNode {
    pub fn review_status_fields_present(&self) -> (b: bool)
        ensures
            b == review_fields_present(*self),
    {
        self.is_draft.is_some() || self.merged.is_some() || self.review_decision.is_some()
    }
}

pub open spec fn is_changes_requested_state(state: Seq<char>) -> bool {
    state == "CHANGES_REQUESTED"@ || state == "CHANGES_REQUESTED_EVENT"@
}

/// Changes requested, by the decision or by any latest review, wins; then
/// an approval; then a required review, by the decision or because reviews
/// are requested.
pub open spec fn review_signal_of(node: EnrichedNode) -> ReviewSignal {
    let decision = match node.review_decision {
        Some(d) => Some(d@),
        None => None,
    };
    if decision == Some("CHANGES_REQUESTED"@) || exists|k: int|
        0 <= k < node.latest_reviews.nodes@.len() && is_changes_requested_state(
            #[trigger] node.latest_reviews.nodes@[k].state@,
        ) {
        ReviewSignal::ChangesRequested
    } else if decision == Some("APPROVED"@) {
        ReviewSignal::Approved
    } else if decision == Some("REVIEW_REQUIRED"@) {
        ReviewSignal::ReviewRequired
    } else if node.review_requests.total_count > 0 {
        ReviewSignal::ReviewRequired
    } else {
        ReviewSignal::NoSignal
    }
}

/// Some latest review of `node` asks for changes.
pub open spec fn asks_for_changes(node: EnrichedNode) -> bool {
    exists|k: int|
        0 <= k < node.latest_reviews.nodes@.len() && (#[trigger] node.latest_reviews.nodes@[k].state@
            == "CHANGES_REQUESTED"@ || node.latest_reviews.nodes@[k].state@
            == "CHANGES_REQUESTED_EVENT"@)
}

/// The review signal of a pull request: changes requested when the
/// decision or any latest review says so; else approved or review required
/// as the decision says; else review required while reviews are requested;
/// else none.
pub proof fn lemma_review_signal(node: EnrichedNode)
    ensures
        (node.review_decision matches Some(d) && d@ == "CHANGES_REQUESTED"@) ==> review_signal_of(
            node,
        ) == ReviewSignal::ChangesRequested,
        asks_for_changes(node) ==> review_signal_of(node) == ReviewSignal::ChangesRequested,
        (!asks_for_changes(node) && (node.review_decision matches Some(d) && d@ == "APPROVED"@))
            ==> review_signal_of(node) == ReviewSignal::Approved,
        (!asks_for_changes(node) && (node.review_decision matches Some(d) && d@
            == "REVIEW_REQUIRED"@)) ==> review_signal_of(node) == ReviewSignal::ReviewRequired,
        (!asks_for_changes(node) && node.review_decision is None && node.review_requests.total_count
            > 0) ==> review_signal_of(node) == ReviewSignal::ReviewRequired,
        (!asks_for_changes(node) && node.review_decision is None && node.review_requests.total_count
            <= 0) ==> review_signal_of(node) == ReviewSignal::NoSignal,
{
    reveal_strlit("CHANGES_REQUESTED");
    reveal_strlit("APPROVED");
    reveal_strlit("REVIEW_REQUIRED");
    reveal_strlit("CHANGES_REQUESTED_EVENT");
    if asks_for_changes(node) {
        let k = choose|k: int|
            0 <= k < node.latest_reviews.nodes@.len() && (#[trigger] node.latest_reviews.nodes@[k].state@
                == "CHANGES_REQUESTED"@ || node.latest_reviews.nodes@[k].state@
                == "CHANGES_REQUESTED_EVENT"@);
        assert(is_changes_requested_state(node.latest_reviews.nodes@[k].state@));
    } else {
        assert forall|k: int| 0 <= k < node.latest_reviews.nodes@.len() implies !is_changes_requested_state(
            #[trigger] node.latest_reviews.nodes@[k].state@,
        ) by {
            if is_changes_requested_state(node.latest_reviews.nodes@[k].state@) {
                assert(node.latest_reviews.nodes@[k].state@ == "CHANGES_REQUESTED"@ || node.latest_reviews.nodes@[k].state@
                    == "CHANGES_REQUESTED_EVENT"@);
            }
        }
        assert("APPROVED"@.len() != "CHANGES_REQUESTED"@.len());
        assert("REVIEW_REQUIRED"@.len() != "CHANGES_REQUESTED"@.len());
        assert("REVIEW_REQUIRED"@.len() != "APPROVED"@.len());
    }
}

fn decision_is(node: &EnrichedNode, value: &str) -> (b: bool)
    ensures
        b == (node.review_decision matches Some(d) && d@ == value@),
{
    match &node.review_decision {
        Some(d) => str_eq(d.as_str(), value),
        None => false,
    }
}

pub fn derive_review_signal(node: &EnrichedNode) -> (r: ReviewSignal)
    ensures
        r == review_signal_of(*node),
{
    let reviews = &node.latest_reviews.nodes;
    let mut any_changes = false;
    let mut k: usize = 0;
    while k < reviews.len()
        invariant
            k <= reviews.len(),
            any_changes == exists|j: int|
                0 <= j < k && is_changes_requested_state(#[trigger] reviews@[j].state@),
        decreases reviews.len() - k,
    {
        let state = reviews[k].state.as_str();
        if str_eq(state, "CHANGES_REQUESTED") || str_eq(state, "CHANGES_REQUESTED_EVENT") {
            any_changes = true;
        }
        k = k + 1;
    }
    if decision_is(node, "CHANGES_REQUESTED") || any_changes {
        return ReviewSignal::ChangesRequested;
    }
    if decision_is(node, "APPROVED") {
        ReviewSignal::Approved
    } else if decision_is(node, "REVIEW_REQUIRED") {
        ReviewSignal::ReviewRequired
    } else if node.review_requests.total_count > 0 {
        ReviewSignal::ReviewRequired
    } else {
        ReviewSignal::NoSignal
    }
}

/// The review states the list shows; other states are dropped.
pub open spec fn normalized_review_state(state: Seq<char>) -> Option<Seq<char>> {
    if state == "APPROVED"@ {
        Some("approved"@)
    } else if is_changes_requested_state(state) {
        Some("changes_requested"@)
    } else if state == "COMMENTED"@ {
        Some("commented"@)
    } else {
        None
    }
}

pub fn normalize_review_state(state: &str) -> (r: Option<&'static str>)
    ensures
        match (r, normalized_review_state(state@)) {
            (Some(a), Some(b)) => a@ == b,
            (None, None) => true,
            _ => false,
        },
{
    if str_eq(state, "APPROVED") {
        Some("approved")
    } else if str_eq(state, "CHANGES_REQUESTED") || str_eq(state, "CHANGES_REQUESTED_EVENT") {
        Some("changes_requested")
    } else if str_eq(state, "COMMENTED") {
        Some("commented")
    } else {
        None
    }
}

// ---------------------------------------------------------------------------
// People
// ---------------------------------------------------------------------------

/// A user with a login is a person; one without (a deleted account, a
/// team) is dropped.
pub open spec fn person_of(user: UserRef) -> Option<ItemPerson> {
    match user.login {
        Some(login) => Some(ItemPerson { login, avatar_url: user.avatar_url }),
        None => None,
    }
}

pub fn user_to_person(user: &UserRef) -> (r: Option<ItemPerson>)
    ensures
        r == person_of(*user),
{
    match &user.login {
        Some(login) => Some(ItemPerson { login: login.clone(), avatar_url: user.avatar_url.clone() }),
        None => None,
    }
}

/// People are the same person when their logins agree up to ASCII case.
pub open spec fn person_key(p: ItemPerson) -> Seq<char> {
    lower_seq(p.login@)
}

/// The login of the first person in `s` with the given key.
pub open spec fn first_login(s: Seq<ItemPerson>, key: Seq<char>) -> Option<String>
    decreases s.len(),
{
    if s.len() == 0 {
        None
    } else {
        match first_login(s.drop_last(), key) {
            Some(l) => Some(l),
            None => if person_key(s.last()) == key {
                Some(s.last().login)
            } else {
                None
            },
        }
    }
}

/// The first avatar that a person in `s` with the given key has.
pub open spec fn first_avatar(s: Seq<ItemPerson>, key: Seq<char>) -> Option<String>
    decreases s.len(),
{
    if s.len() == 0 {
        None
    } else {
        match first_avatar(s.drop_last(), key) {
            Some(a) => Some(a),
            None => if person_key(s.last()) == key {
                s.last().avatar_url
            } else {
                None
            },
        }
    }
}

/// `out` holds each person of `people` once: keyed by lowercased login, in
/// increasing key order, with the login of the first occurrence and the
/// first avatar any occurrence has.
pub open spec fn is_deduped_people(out: Seq<ItemPerson>, people: Seq<ItemPerson>) -> bool {
    &&& strictly_sorted(out.map_values(|p: ItemPerson| person_key(p)))
    &&& forall|k: int|
        0 <= k < out.len() ==> first_login(people, person_key(#[trigger] out[k])) == Some(
            out[k].login,
        ) && out[k].avatar_url == first_avatar(people, person_key(out[k]))
    &&& forall|j: int|
        0 <= j < people.len() ==> exists|k: int|
            0 <= k < out.len() && person_key(#[trigger] out[k]) == person_key(#[trigger] people[j])
}

proof fn lemma_first_login_prefix(s: Seq<ItemPerson>, i: int, key: Seq<char>)
    requires
        0 <= i < s.len(),
    ensures
        first_login(s.take(i + 1), key) == match first_login(s.take(i), key) {
            Some(l) => Some(l),
            None => if person_key(s[i]) == key {
                Some(s[i].login)
            } else {
                None
            },
        },
        first_avatar(s.take(i + 1), key) == match first_avatar(s.take(i), key) {
            Some(a) => Some(a),
            None => if person_key(s[i]) == key {
                s[i].avatar_url
            } else {
                None
            },
        },
{
    assert(s.take(i + 1).drop_last() =~= s.take(i));
}

proof fn lemma_first_login_absent(s: Seq<ItemPerson>, key: Seq<char>)
    requires
        forall|j: int| 0 <= j < s.len() ==> person_key(#[trigger] s[j]) != key,
    ensures
        first_login(s, key) is None,
        first_avatar(s, key) is None,
    decreases s.len(),
{
    if s.len() > 0 {
        lemma_first_login_absent(s.drop_last(), key);
    }
}

/// One entry per person, by lowercased login, in increasing order.
pub fn dedupe_people(people: &Vec<ItemPerson>) -> (r: Vec<ItemPerson>)
    ensures
        is_deduped_people(r@, people@),
{
    let ghost s = people@;
    let mut groups: Vec<ItemPerson> = Vec::new();
    let mut group_keys: Vec<String> = Vec::new();
    let mut i: usize = 0;
    while i < people.len()
        invariant
            s == people@,
            i <= s.len(),
            groups@.len() == group_keys@.len(),
            views(group_keys@).no_duplicates(),
            forall|g: int|
                0 <= g < groups@.len() ==> #[trigger] group_keys@[g]@ == person_key(groups@[g])
                    && first_login(s.take(i as int), group_keys@[g]@) == Some(groups@[g].login)
                    && groups@[g].avatar_url == first_avatar(s.take(i as int), group_keys@[g]@),
            forall|j: int|
                0 <= j < i ==> views(group_keys@).contains(person_key(#[trigger] s[j])),
            forall|key: Seq<char>|
                !views(group_keys@).contains(key) ==> #[trigger] first_login(s.take(i as int), key)
                    is None && first_avatar(s.take(i as int), key) is None,
        decreases people.len() - i,
    {
        let person = &people[i];
        let key = to_ascii_lowercase(person.login.as_str());
        proof {
            assert forall|k: Seq<char>| true implies #[trigger] first_login(s.take(i + 1), k)
                == match first_login(s.take(i as int), k) {
                Some(l) => Some(l),
                None => if person_key(s[i as int]) == k {
                    Some(s[i as int].login)
                } else {
                    None
                },
            } && first_avatar(s.take(i + 1), k) == match first_avatar(s.take(i as int), k) {
                Some(a) => Some(a),
                None => if person_key(s[i as int]) == k {
                    s[i as int].avatar_url
                } else {
                    None
                },
            } by {
                lemma_first_login_prefix(s, i as int, k);
            }
        }
        let position = find_name(&group_keys, key.as_str());
        if let Some(g) = position {
            assert(views(group_keys@)[g as int] == key@);
            let ghost old_groups = groups@;
            if groups[g].avatar_url.is_none() {
                let updated = ItemPerson {
                    login: groups[g].login.clone(),
                    avatar_url: person.avatar_url.clone(),
                };
                groups.set(g, updated);
            }
            proof {
                assert forall|q: int| 0 <= q < groups@.len() implies #[trigger] group_keys@[q]@
                    == person_key(groups@[q]) && first_login(s.take(i + 1), group_keys@[q]@)
                    == Some(groups@[q].login) && groups@[q].avatar_url == first_avatar(
                    s.take(i + 1),
                    group_keys@[q]@,
                ) by {
                    assert(first_login(s.take(i + 1), group_keys@[q]@) == match first_login(
                        s.take(i as int),
                        group_keys@[q]@,
                    ) {
                        Some(l) => Some(l),
                        None => if person_key(s[i as int]) == group_keys@[q]@ {
                            Some(s[i as int].login)
                        } else {
                            None
                        },
                    });
                    if q != g {
                        assert(views(group_keys@)[q] != views(group_keys@)[g as int]);
                    }
                }
                assert forall|j: int| 0 <= j < i + 1 implies views(group_keys@).contains(
                    person_key(#[trigger] s[j]),
                ) by {
                    if j == i {
                        assert(views(group_keys@)[g as int] == person_key(s[j]));
                    }
                }
            }
        } else {
            proof {
                assert(!views(group_keys@).contains(key@));
            }
            let ghost old_keys = views(group_keys@);
            groups.push(ItemPerson { login: person.login.clone(), avatar_url: person.avatar_url.clone() });
            group_keys.push(key);
            proof {
                assert(views(group_keys@) =~= old_keys.push(person_key(s[i as int])));
                assert forall|a: int, b: int|
                    0 <= a < views(group_keys@).len() && 0 <= b < views(group_keys@).len() && a
                        != b implies views(group_keys@)[a] != views(group_keys@)[b] by {
                    if a == old_keys.len() as int {
                        assert(old_keys.contains(views(group_keys@)[b]));
                    } else if b == old_keys.len() as int {
                        assert(old_keys.contains(views(group_keys@)[a]));
                    }
                }
                assert forall|q: int| 0 <= q < groups@.len() implies #[trigger] group_keys@[q]@
                    == person_key(groups@[q]) && first_login(s.take(i + 1), group_keys@[q]@)
                    == Some(groups@[q].login) && groups@[q].avatar_url == first_avatar(
                    s.take(i + 1),
                    group_keys@[q]@,
                ) by {
                    if q < old_keys.len() {
                        assert(old_keys[q] == group_keys@[q]@);
                        assert(old_keys[q] != person_key(s[i as int]));
                    } else {
                        assert(!old_keys.contains(person_key(s[i as int])));
                    }
                }
                assert forall|j: int| 0 <= j < i + 1 implies views(group_keys@).contains(
                    person_key(#[trigger] s[j]),
                ) by {
                    if j == i {
                        assert(views(group_keys@)[old_keys.len() as int] == person_key(s[j]));
                    } else {
                        let q = choose|q: int| 0 <= q < old_keys.len() && old_keys[q] == person_key(s[j]);
                        assert(views(group_keys@)[q] == person_key(s[j]));
                    }
                }
                assert forall|k: Seq<char>| !views(group_keys@).contains(k) implies #[trigger] first_login(
                    s.take(i + 1),
                    k,
                ) is None && first_avatar(s.take(i + 1), k) is None by {
                    if old_keys.contains(k) {
                        let q = choose|q: int| 0 <= q < old_keys.len() && old_keys[q] == k;
                        assert(views(group_keys@)[q] == k);
                    }
                    assert(views(group_keys@)[old_keys.len() as int] == person_key(s[i as int]));
                }
            }
        }
        i = i + 1;
    }
    assert(s.take(s.len() as int) =~= s);
    // Order the groups by key.
    let mut keys: Vec<(i64, String)> = Vec::new();
    let mut j: usize = 0;
    while j < group_keys.len()
        invariant
            j <= group_keys@.len(),
            keys@.len() == j,
            forall|k: int| 0 <= k < j ==> #[trigger] keys@[k].0 == 0 && keys@[k].1@ == group_keys@[k]@,
        decreases group_keys.len() - j,
    {
        keys.push((0, group_keys[j].clone()));
        j = j + 1;
    }
    let order = stable_sort_order(&keys);
    let ghost kv = keys_view(keys@);
    let ghost n = group_keys@.len();
    proof {
        lemma_stable_order_indices(kv, n);
        lemma_stable_order_sorted(kv, n);
        lemma_stable_order_no_duplicates(kv, n);
        assert forall|k: int| 0 <= k < n implies #[trigger] kv[k] == (0i64, group_keys@[k]@) by {}
    }
    let mut r: Vec<ItemPerson> = Vec::new();
    let mut k: usize = 0;
    while k < order.len()
        invariant
            order@ == stable_order(kv, n),
            order@.len() == n,
            n == groups@.len(),
            forall|x: usize| #[trigger] order@.contains(x) <==> x < n,
            k <= order.len(),
            r@.len() == k,
            forall|q: int| 0 <= q < k ==> #[trigger] r@[q] == groups@[order@[q] as int],
        decreases order.len() - k,
    {
        assert(order@.contains(order@[k as int]));
        r.push(groups[order[k]].clone());
        k = k + 1;
    }
    proof {
        let rk = r@.map_values(|p: ItemPerson| person_key(p));
        assert forall|a: int, b: int| 0 <= a < b < rk.len() implies seq_lt(#[trigger] rk[a], #[trigger] rk[b]) by {
            let x = order@[a] as int;
            let y = order@[b] as int;
            assert(order@.contains(order@[a]));
            assert(order@.contains(order@[b]));
            assert(x != y);
            assert(!key_lt(kv[y], kv[x]));
            assert(views(group_keys@)[x] != views(group_keys@)[y]);
            lemma_seq_lt_total(group_keys@[x]@, group_keys@[y]@);
        }
        assert forall|q: int| 0 <= q < r@.len() implies first_login(s, person_key(#[trigger] r@[q]))
            == Some(r@[q].login) && r@[q].avatar_url == first_avatar(s, person_key(r@[q])) by {
            assert(order@.contains(order@[q]));
            let x = order@[q] as int;
            assert(group_keys@[x]@ == person_key(groups@[x]));
        }
        assert forall|jj: int| 0 <= jj < s.len() implies exists|q: int|
            0 <= q < r@.len() && person_key(#[trigger] r@[q]) == person_key(#[trigger] s[jj]) by {
            let g = choose|g: int| 0 <= g < n && views(group_keys@)[g] == person_key(s[jj]);
            assert(order@.contains(g as usize));
            let q = choose|q: int| 0 <= q < order@.len() && order@[q] == g as usize;
            assert(person_key(r@[q]) == person_key(s[jj]));
        }
    }
    r
}

// ---------------------------------------------------------------------------
// What a node says of an item
// ---------------------------------------------------------------------------

/// The values of the `Some` entries of `s`, in order.
pub open spec fn somes<T>(s: Seq<Option<T>>) -> Seq<T>
    decreases s.len(),
{
    if s.len() == 0 {
        seq![]
    } else {
        let rest = somes(s.drop_last());
        match s.last() {
            Some(x) => rest.push(x),
            None => rest,
        }
    }
}

pub proof fn lemma_somes_step<T>(s: Seq<Option<T>>, i: int)
    requires
        0 <= i < s.len(),
    ensures
        somes(s.take(i + 1)) == match s[i] {
            Some(x) => somes(s.take(i)).push(x),
            None => somes(s.take(i)),
        },
{
    assert(s.take(i + 1).drop_last() =~= s.take(i));
}

/// The person a review request names, if it names a user with a login.
pub open spec fn requested_person(n: ReviewRequestNode) -> Option<ItemPerson> {
    match n.requested_reviewer {
        Some(u) => person_of(u),
        None => None,
    }
}

pub open spec fn requested_people(node: EnrichedNode) -> Seq<ItemPerson> {
    somes(node.review_requests.nodes@.map_values(|n: ReviewRequestNode| requested_person(n)))
}

/// The people whose review is requested, once each, ordered by login.
pub fn review_requests(node: &EnrichedNode) -> (r: Vec<ItemPerson>)
    ensures
        is_deduped_people(r@, requested_people(*node)),
{
    let nodes = &node.review_requests.nodes;
    let ghost m = nodes@.map_values(|n: ReviewRequestNode| requested_person(n));
    let mut people: Vec<ItemPerson> = Vec::new();
    let mut i: usize = 0;
    while i < nodes.len()
        invariant
            i <= nodes@.len(),
            m == nodes@.map_values(|n: ReviewRequestNode| requested_person(n)),
            people@ == somes(m.take(i as int)),
        decreases nodes.len() - i,
    {
        proof {
            lemma_somes_step(m, i as int);
        }
        match &nodes[i].requested_reviewer {
            Some(reviewer) => match user_to_person(reviewer) {
                Some(p) => people.push(p),
                None => {},
            },
            None => {},
        }
        i = i + 1;
    }
    assert(m.take(nodes@.len() as int) =~= m);
    dedupe_people(&people)
}

/// A latest review is shown when its author has a login and its state is
/// one the list knows.
pub open spec fn review_kept(r: ReviewNode) -> bool {
    &&& r.author matches Some(a) && a.login is Some
    &&& normalized_review_state(r.state@) is Some
}

pub open spec fn kept_reviews(s: Seq<ReviewNode>) -> Seq<ReviewNode>
    decreases s.len(),
{
    if s.len() == 0 {
        seq![]
    } else {
        let rest = kept_reviews(s.drop_last());
        if review_kept(s.last()) {
            rest.push(s.last())
        } else {
            rest
        }
    }
}

proof fn lemma_kept_reviews_step(s: Seq<ReviewNode>, i: int)
    requires
        0 <= i < s.len(),
    ensures
        kept_reviews(s.take(i + 1)) == if review_kept(s[i]) {
            kept_reviews(s.take(i)).push(s[i])
        } else {
            kept_reviews(s.take(i))
        },
{
    assert(s.take(i + 1).drop_last() =~= s.take(i));
}

/// Reviews are ordered by their author's lowercased login.
pub open spec fn review_key(r: ReviewNode) -> Seq<char> {
    match r.author {
        Some(a) => match a.login {
            Some(l) => lower_seq(l@),
            None => seq![],
        },
        None => seq![],
    }
}

/// The stable order of the shown reviews by key.
pub open spec fn review_order(reviews: Seq<ReviewNode>) -> Seq<usize> {
    let kept = kept_reviews(reviews);
    stable_order(kept.map_values(|r: ReviewNode| (0i64, review_key(r))), kept.len())
}

/// `out` is what the list shows of the review `r`.
pub open spec fn is_review_of(out: ItemReview, r: ReviewNode) -> bool {
    &&& r.author matches Some(a) && a.login == Some(out.login) && out.avatar_url == a.avatar_url
    &&& normalized_review_state(r.state@) == Some(out.state@)
}

/// `out` holds the shown reviews of `reviews`, stably ordered by the
/// lowercased login of their author.
pub open spec fn is_reviewers_of(out: Seq<ItemReview>, reviews: Seq<ReviewNode>) -> bool {
    let kept = kept_reviews(reviews);
    let order = review_order(reviews);
    &&& out.len() == kept.len()
    &&& forall|k: int| 0 <= k < out.len() ==> is_review_of(#[trigger] out[k], kept[order[k] as int])
}

pub fn reviewers(node: &EnrichedNode) -> (r: Vec<ItemReview>)
    ensures
        is_reviewers_of(r@, node.latest_reviews.nodes@),
{
    let reviews = &node.latest_reviews.nodes;
    let ghost s = reviews@;
    let mut collected: Vec<ItemReview> = Vec::new();
    let mut keys: Vec<(i64, String)> = Vec::new();
    let mut i: usize = 0;
    while i < reviews.len()
        invariant
            s == reviews@,
            i <= s.len(),
            collected@.len() == kept_reviews(s.take(i as int)).len(),
            keys@.len() == collected@.len(),
            forall|k: int|
                0 <= k < collected@.len() ==> is_review_of(
                    #[trigger] collected@[k],
                    kept_reviews(s.take(i as int))[k],
                ) && keys@[k].0 == 0 && keys@[k].1@ == lower_seq(collected@[k].login@),
        decreases reviews.len() - i,
    {
        proof {
            lemma_kept_reviews_step(s, i as int);
        }
        let review = &reviews[i];
        match &review.author {
            Some(author) => match &author.login {
                Some(login) => match normalize_review_state(review.state.as_str()) {
                    Some(state) => {
                        collected.push(
                            ItemReview {
                                login: login.clone(),
                                avatar_url: author.avatar_url.clone(),
                                state: state.to_owned(),
                            },
                        );
                        keys.push((0, to_ascii_lowercase(login.as_str())));
                    },
                    None => {},
                },
                None => {},
            },
            None => {},
        }
        i = i + 1;
    }
    let ghost kept = kept_reviews(s);
    assert(s.take(s.len() as int) =~= s);
    let order = stable_sort_order(&keys);
    let ghost kv = keys_view(keys@);
    let ghost n = collected@.len();
    proof {
        assert forall|k: int| 0 <= k < n implies #[trigger] kv[k] == (0i64, review_key(kept[k])) by {
            assert(is_review_of(collected@[k], kept[k]));
        }
        assert(kv =~= kept.map_values(|r: ReviewNode| (0i64, review_key(r))));
        lemma_stable_order_indices(kv, n);
    }
    let mut r: Vec<ItemReview> = Vec::new();
    let mut k: usize = 0;
    while k < order.len()
        invariant
            order@ == stable_order(kv, n),
            order@.len() == n,
            n == collected@.len(),
            forall|x: usize| #[trigger] order@.contains(x) <==> x < n,
            k <= order.len(),
            r@.len() == k,
            forall|q: int| 0 <= q < k ==> #[trigger] r@[q] == collected@[order@[q] as int],
        decreases order.len() - k,
    {
        assert(order@.contains(order@[k as int]));
        r.push(collected[order[k]].clone());
        k = k + 1;
    }
    proof {
        assert forall|q: int| 0 <= q < r@.len() implies is_review_of(
            #[trigger] r@[q],
            kept[review_order(s)[q] as int],
        ) by {
            assert(order@.contains(order@[q]));
        }
    }
    r
}

/// A comment's author, as a person.
pub open spec fn comment_person(c: CommentNode) -> Option<ItemPerson> {
    match c.author {
        Some(u) => person_of(u),
        None => None,
    }
}

/// The author of a review, as a person.
pub open spec fn review_person(r: ItemReview) -> ItemPerson {
    ItemPerson { login: r.login, avatar_url: r.avatar_url }
}

/// Everyone who took part: the listed participants, the comment authors and
/// the review authors, in that order.
pub open spec fn participant_people(node: EnrichedNode, reviewers: Seq<ItemReview>) -> Seq<
    ItemPerson,
> {
    somes(node.participants.nodes@.map_values(|u: UserRef| person_of(u))) + somes(
        node.comments.nodes@.map_values(|c: CommentNode| comment_person(c)),
    ) + reviewers.map_values(|r: ItemReview| review_person(r))
}

pub fn participants(node: &EnrichedNode, reviewers: &Vec<ItemReview>) -> (r: Vec<ItemPerson>)
    ensures
        is_deduped_people(r@, participant_people(*node, reviewers@)),
{
    let users = &node.participants.nodes;
    let comments = &node.comments.nodes;
    let ghost m1 = users@.map_values(|u: UserRef| person_of(u));
    let ghost m2 = comments@.map_values(|c: CommentNode| comment_person(c));
    let ghost m3 = reviewers@.map_values(|r: ItemReview| review_person(r));
    let mut people: Vec<ItemPerson> = Vec::new();
    let mut i: usize = 0;
    while i < users.len()
        invariant
            i <= users@.len(),
            m1 == users@.map_values(|u: UserRef| person_of(u)),
            people@ == somes(m1.take(i as int)),
        decreases users.len() - i,
    {
        proof {
            lemma_somes_step(m1, i as int);
        }
        match user_to_person(&users[i]) {
            Some(p) => people.push(p),
            None => {},
        }
        i = i + 1;
    }
    assert(m1.take(users@.len() as int) =~= m1);
    let ghost first = somes(m1);
    let mut j: usize = 0;
    while j < comments.len()
        invariant
            j <= comments@.len(),
            m2 == comments@.map_values(|c: CommentNode| comment_person(c)),
            people@ == first + somes(m2.take(j as int)),
        decreases comments.len() - j,
    {
        proof {
            lemma_somes_step(m2, j as int);
        }
        match &comments[j].author {
            Some(author) => match user_to_person(author) {
                Some(p) => {
                    proof {
                        assert(first + somes(m2.take(j as int)).push(p) =~= (first + somes(
                            m2.take(j as int),
                        )).push(p));
                    }
                    people.push(p);
                },
                None => {},
            },
            None => {},
        }
        j = j + 1;
    }
    assert(m2.take(comments@.len() as int) =~= m2);
    let ghost second = first + somes(m2);
    let mut k: usize = 0;
    while k < reviewers.len()
        invariant
            k <= reviewers@.len(),
            m3 == reviewers@.map_values(|r: ItemReview| review_person(r)),
            people@ == second + m3.take(k as int),
        decreases reviewers.len() - k,
    {
        let review = &reviewers[k];
        people.push(ItemPerson { login: review.login.clone(), avatar_url: review.avatar_url.clone() });
        proof {
            assert(second + m3.take(k + 1) =~= (second + m3.take(k as int)).push(m3[k as int]));
        }
        k = k + 1;
    }
    assert(m3.take(reviewers@.len() as int) =~= m3);
    assert(people@ =~= participant_people(*node, reviewers@));
    dedupe_people(&people)
}

/// `m` is mentioned in the body, a comment or a latest review of `node`.
pub open spec fn is_node_mention(node: EnrichedNode, m: Seq<char>) -> bool {
    ||| is_mentioned(node.body@, m)
    ||| exists|k: int|
        0 <= k < node.comments.nodes@.len() && is_mentioned(
            #[trigger] node.comments.nodes@[k].body@,
            m,
        )
    ||| exists|k: int|
        0 <= k < node.latest_reviews.nodes@.len() && is_mentioned(
            #[trigger] node.latest_reviews.nodes@[k].body@,
            m,
        )
}

/// Everyone mentioned about the item, once each, in increasing order.
pub fn mentions(node: &EnrichedNode) -> (r: Vec<String>)
    ensures
        strictly_sorted(views(r@)),
        forall|m: Seq<char>| #[trigger] views(r@).contains(m) <==> is_node_mention(*node, m),
{
    let comments = &node.comments.nodes;
    let reviews = &node.latest_reviews.nodes;
    let mut found: Vec<String> = Vec::new();
    collect_mentions_from_text(node.body.as_str(), &mut found);
    let mut i: usize = 0;
    while i < comments.len()
        invariant
            i <= comments@.len(),
            views(found@).no_duplicates(),
            forall|m: Seq<char>|
                #[trigger] views(found@).contains(m) <==> (is_mentioned(node.body@, m) || exists|k: int|
                    0 <= k < i && is_mentioned(#[trigger] comments@[k].body@, m)),
        decreases comments.len() - i,
    {
        collect_mentions_from_text(comments[i].body.as_str(), &mut found);
        proof {
            assert forall|m: Seq<char>| #[trigger] views(found@).contains(m) <==> (is_mentioned(
                node.body@,
                m,
            ) || exists|k: int| 0 <= k < i + 1 && is_mentioned(#[trigger] comments@[k].body@, m)) by {
                if is_mentioned(comments@[i as int].body@, m) {
                    assert(0 <= i < i + 1);
                }
            }
        }
        i = i + 1;
    }
    let mut j: usize = 0;
    while j < reviews.len()
        invariant
            j <= reviews@.len(),
            views(found@).no_duplicates(),
            forall|m: Seq<char>|
                #[trigger] views(found@).contains(m) <==> (is_mentioned(node.body@, m) || (exists|k: int|
                    0 <= k < comments@.len() && is_mentioned(#[trigger] comments@[k].body@, m))
                    || exists|k: int| 0 <= k < j && is_mentioned(#[trigger] reviews@[k].body@, m)),
        decreases reviews.len() - j,
    {
        collect_mentions_from_text(reviews[j].body.as_str(), &mut found);
        proof {
            assert forall|m: Seq<char>| #[trigger] views(found@).contains(m) <==> (is_mentioned(
                node.body@,
                m,
            ) || (exists|k: int|
                0 <= k < comments@.len() && is_mentioned(#[trigger] comments@[k].body@, m))
                || exists|k: int| 0 <= k < j + 1 && is_mentioned(#[trigger] reviews@[k].body@, m)) by {
                if is_mentioned(reviews@[j as int].body@, m) {
                    assert(0 <= j < j + 1);
                }
            }
        }
        j = j + 1;
    }
    let r = sort_distinct_strings(&found);
    proof {
        assert forall|m: Seq<char>| #[trigger] views(r@).contains(m) <==> is_node_mention(*node, m) by {
            assert(views(r@).to_set().contains(m) == views(r@).contains(m));
            assert(views(found@).to_set().contains(m) == views(found@).contains(m));
        }
    }
    r
}

// ---------------------------------------------------------------------------
// The answer as a whole
// ---------------------------------------------------------------------------

/// `e` is what the enrichment of `node` says.
pub open spec fn is_enrichment_of(e: ItemEnrichment, node: EnrichedNode) -> bool {
    &&& e.is_draft == node.is_draft
    &&& e.merged == node.merged
    &&& e.merged_at == node.merged_at
    &&& e.review_status == if review_fields_present(node) {
        Some(review_signal_of(node))
    } else {
        None
    }
    &&& is_deduped_people(e.review_requests@, requested_people(node))
    &&& is_reviewers_of(e.reviewers@, node.latest_reviews.nodes@)
    &&& is_deduped_people(e.participants@, participant_people(node, e.reviewers@))
    &&& strictly_sorted(views(e.mentions@))
    &&& forall|m: Seq<char>| #[trigger] views(e.mentions@).contains(m) <==> is_node_mention(node, m)
}

/// `entry` is the enrichment of `node`, keyed by the node's id.
pub open spec fn is_entry_for(entry: (String, ItemEnrichment), node: EnrichedNode) -> bool {
    entry.0 == node.id && is_enrichment_of(entry.1, node)
}

pub fn enrichment_of(node: &EnrichedNode) -> (e: ItemEnrichment)
    ensures
        is_enrichment_of(e, *node),
{
    let review_status = if node.review_status_fields_present() {
        Some(derive_review_signal(node))
    } else {
        None
    };
    let review_requests = review_requests(node);
    let reviewers = reviewers(node);
    let participants = participants(node, &reviewers);
    let mentions = mentions(node);
    ItemEnrichment {
        is_draft: node.is_draft,
        merged: node.merged,
        merged_at: node.merged_at.clone(),
        review_status,
        review_requests,
        reviewers,
        participants,
        mentions,
    }
}

/// The messages of the errors, joined by `"; "`.
pub open spec fn joined_messages(errors: Seq<GraphqlError>) -> Seq<char>
    decreases errors.len(),
{
    if errors.len() == 0 {
        seq![]
    } else if errors.len() == 1 {
        errors[0].message@
    } else {
        joined_messages(errors.drop_last()) + "; "@ + errors.last().message@
    }
}

pub fn join_messages(errors: &Vec<GraphqlError>) -> (r: String)
    ensures
        r@ == joined_messages(errors@),
{
    let mut r = String::new();
    let mut i: usize = 0;
    while i < errors.len()
        invariant
            i <= errors@.len(),
            r@ == joined_messages(errors@.take(i as int)),
        decreases errors.len() - i,
    {
        assert(errors@.take(i + 1).drop_last() =~= errors@.take(i as int));
        if i > 0 {
            r.append("; ");
        } else {
            assert(errors@.take(1) =~= seq![errors@[0]]);
        }
        r.append(errors[i].message.as_str());
        i = i + 1;
    }
    assert(errors@.take(errors@.len() as int) =~= errors@);
    r
}

/// The nodes an answer describes; `null` entries (ids that name nothing
/// visible) are skipped.
pub open spec fn answered_nodes(response: GraphqlResponse) -> Seq<EnrichedNode> {
    match response.data {
        Some(data) => somes(data.nodes@),
        None => seq![],
    }
}

/// What an enrichment answer says: an error naming every message when the
/// answer reports errors, else the enrichment of each node, keyed by its
/// id, in the order of the answer.
pub fn parse_item_enrichment(host: &HostConfig, response: &GraphqlResponse) -> (r: Result<
    Vec<(String, ItemEnrichment)>,
    GitHubError,
>)
    ensures
        response.errors matches Some(errors) ==> (r matches Err(
            GitHubError::Parse { host: h, message: m },
        ) && h == host.name && m@ == joined_messages(errors@)),
        response.errors is None ==> (r matches Ok(found) && found@.len() == answered_nodes(
            *response,
        ).len() && (forall|k: int|
            0 <= k < found@.len() ==> is_entry_for(#[trigger] found@[k], answered_nodes(*response)[k]))),
{
    match &response.errors {
        Some(errors) => {
            let message = join_messages(errors);
            return Err(GitHubError::Parse { host: host.name.clone(), message });
        },
        None => {},
    }
    assert(response.errors is None);
    match &response.data {
        None => Ok(Vec::new()),
        Some(data) => Ok(enrichments_of_nodes(&data.nodes)),
    }
}

/// The enrichment of each node that is there, keyed by its id.
fn enrichments_of_nodes(nodes: &Vec<Option<EnrichedNode>>) -> (r: Vec<(String, ItemEnrichment)>)
    ensures
        r@.len() == somes(nodes@).len(),
        forall|k: int| 0 <= k < r@.len() ==> is_entry_for(#[trigger] r@[k], somes(nodes@)[k]),
{
    let mut out: Vec<(String, ItemEnrichment)> = Vec::new();
    let mut i: usize = 0;
    while i < nodes.len()
        invariant
            i <= nodes@.len(),
            out@.len() == somes(nodes@.take(i as int)).len(),
            forall|k: int|
                0 <= k < out@.len() ==> is_entry_for(#[trigger] out@[k], somes(nodes@.take(i as int))[k]),
        decreases nodes.len() - i,
    {
        proof {
            lemma_somes_step(nodes@, i as int);
        }
        match &nodes[i] {
            Some(node) => {
                let e = enrichment_of(node);
                out.push((node.id.clone(), e));
            },
            None => {},
        }
        i = i + 1;
    }
    assert(nodes@.take(i as int) =~= nodes@);
    out
}

// ---------------------------------------------------------------------------
// Applying what was learned
// ---------------------------------------------------------------------------

/// The last entry of `found` for `id`: later answers replace earlier ones.
pub open spec fn is_last_match(found: Seq<(String, ItemEnrichment)>, id: Seq<char>, k: int) -> bool {
    &&& 0 <= k < found.len()
    &&& found[k].0@ == id
    &&& forall|j: int| k < j < found.len() ==> (#[trigger] found[j]).0@ != id
}

pub open spec fn has_match(found: Seq<(String, ItemEnrichment)>, id: Seq<char>) -> bool {
    exists|k: int| 0 <= k < found.len() && (#[trigger] found[k]).0@ == id
}

pub fn find_enrichment(found: &Vec<(String, ItemEnrichment)>, id: &str) -> (r: Option<usize>)
    ensures
        match r {
            Some(k) => is_last_match(found@, id@, k as int),
            None => !has_match(found@, id@),
        },
{
    let mut i: usize = found.len();
    while i > 0
        invariant
            i <= found@.len(),
            forall|j: int| i <= j < found@.len() ==> (#[trigger] found@[j]).0@ != id@,
        decreases i,
    {
        i = i - 1;
        if str_eq(found[i].0.as_str(), id) {
            return Some(i);
        }
    }
    None
}

/// The fields enrichment leaves alone are equal in `a` and `b`.
pub open spec fn same_listing(a: FetchedStreamItem, b: FetchedStreamItem) -> bool {
    &&& a.node_id == b.node_id
    &&& a.repository_owner == b.repository_owner
    &&& a.repository_name == b.repository_name
    &&& a.number == b.number
    &&& a.item_type == b.item_type
    &&& a.title == b.title
    &&& a.author_login == b.author_login
    &&& a.author_avatar_url == b.author_avatar_url
    &&& a.html_url == b.html_url
    &&& a.api_url == b.api_url
    &&& a.state == b.state
    &&& a.comment_count == b.comment_count
    &&& a.created_at_github == b.created_at_github
    &&& a.updated_at_github == b.updated_at_github
    &&& a.closed_at_github == b.closed_at_github
    &&& a.labels@ == b.labels@
    &&& a.assignees@ == b.assignees@
}

/// The pull request fields are equal in `a` and `b`.
pub open spec fn same_review_fields(a: FetchedStreamItem, b: FetchedStreamItem) -> bool {
    &&& a.is_draft == b.is_draft
    &&& a.is_merged == b.is_merged
    &&& a.merged_at_github == b.merged_at_github
    &&& a.review_status == b.review_status
    &&& a.review_requests@ == b.review_requests@
    &&& a.reviewers@ == b.reviewers@
}

/// `after` is `before` with what `found` says of it applied: an item
/// without a node id is left alone; a pull request that got no answer has
/// an unknown review state; an answered item takes the participants and
/// mentions, a pull request also the review fields, and it is marked
/// enriched.
pub open spec fn enrichment_applied(
    before: FetchedStreamItem,
    after: FetchedStreamItem,
    found: Seq<(String, ItemEnrichment)>,
) -> bool {
    &&& same_listing(before, after)
    &&& match before.node_id {
        None => {
            &&& same_review_fields(before, after)
            &&& after.participants@ == before.participants@
            &&& after.mentions@ == before.mentions@
            &&& after.graphql_enriched == before.graphql_enriched
        },
        Some(id) => if !has_match(found, id@) {
            &&& after.participants@ == before.participants@
            &&& after.mentions@ == before.mentions@
            &&& after.graphql_enriched == before.graphql_enriched
            &&& if before.item_type == ItemType::PullRequest {
                &&& after.is_draft == before.is_draft
                &&& after.is_merged == before.is_merged
                &&& after.merged_at_github == before.merged_at_github
                &&& after.review_requests@ == before.review_requests@
                &&& after.reviewers@ == before.reviewers@
                &&& after.review_status matches Some(s) && s@ == review_signal_db_value(
                    ReviewSignal::Unknown,
                )
            } else {
                same_review_fields(before, after)
            }
        } else {
            exists|k: int|
                is_last_match(found, id@, k) && {
                    let e = (#[trigger] found[k]).1;
                    &&& after.participants@ == e.participants@
                    &&& after.mentions@ == e.mentions@
                    &&& after.graphql_enriched
                    &&& if before.item_type == ItemType::PullRequest {
                        &&& after.is_draft == e.is_draft
                        &&& after.is_merged == e.merged
                        &&& after.merged_at_github == e.merged_at
                        &&& after.review_requests@ == e.review_requests@
                        &&& after.reviewers@ == e.reviewers@
                        &&& match e.review_status {
                            Some(signal) => after.review_status matches Some(s) && s@
                                == review_signal_db_value(signal),
                            None => after.review_status is None,
                        }
                    } else {
                        same_review_fields(before, after)
                    }
                }
        },
    }
}

fn copy_people(v: &Vec<ItemPerson>) -> (r: Vec<ItemPerson>)
    ensures
        r@ == v@,
{
    let mut r: Vec<ItemPerson> = Vec::new();
    let mut i: usize = 0;
    while i < v.len()
        invariant
            i <= v@.len(),
            r@ == v@.take(i as int),
        decreases v.len() - i,
    {
        r.push(v[i].clone());
        assert(r@ =~= v@.take(i + 1));
        i = i + 1;
    }
    assert(v@.take(v@.len() as int) =~= v@);
    r
}

fn copy_reviews(v: &Vec<ItemReview>) -> (r: Vec<ItemReview>)
    ensures
        r@ == v@,
{
    let mut r: Vec<ItemReview> = Vec::new();
    let mut i: usize = 0;
    while i < v.len()
        invariant
            i <= v@.len(),
            r@ == v@.take(i as int),
        decreases v.len() - i,
    {
        r.push(v[i].clone());
        assert(r@ =~= v@.take(i + 1));
        i = i + 1;
    }
    assert(v@.take(v@.len() as int) =~= v@);
    r
}

fn copy_strings(v: &Vec<String>) -> (r: Vec<String>)
    ensures
        r@ == v@,
{
    let mut r: Vec<String> = Vec::new();
    let mut i: usize = 0;
    while i < v.len()
        invariant
            i <= v@.len(),
            r@ == v@.take(i as int),
        decreases v.len() - i,
    {
        r.push(v[i].clone());
        assert(r@ =~= v@.take(i + 1));
        i = i + 1;
    }
    assert(v@.take(v@.len() as int) =~= v@);
    r
}

/// Applies what `found` says of one item.
pub fn apply_enrichment(item: &mut FetchedStreamItem, found: &Vec<(String, ItemEnrichment)>)
    ensures
        enrichment_applied(*old(item), *final(item), found@),
{
    let position = match &item.node_id {
        None => return ,
        Some(id) => find_enrichment(found, id.as_str()),
    };
    let is_pull_request = match item.item_type {
        ItemType::PullRequest => true,
        _ => false,
    };
    match position {
        None => {
            if is_pull_request {
                item.review_status = Some(ReviewSignal::Unknown.as_db_value().to_owned());
            }
        },
        Some(k) => {
            let e = &found[k].1;
            if is_pull_request {
                item.is_draft = e.is_draft;
                item.is_merged = e.merged;
                item.merged_at_github = e.merged_at.clone();
                item.review_status = match e.review_status {
                    Some(signal) => Some(signal.as_db_value().to_owned()),
                    None => None,
                };
                item.review_requests = copy_people(&e.review_requests);
                item.reviewers = copy_reviews(&e.reviewers);
            }
            item.participants = copy_people(&e.participants);
            item.mentions = copy_strings(&e.mentions);
            item.graphql_enriched = true;
            assert(found@[k as int].1 == *e);
        },
    }
}

/// Applies what `found` says to every item.
pub fn apply_enrichments(items: &mut Vec<FetchedStreamItem>, found: &Vec<(String, ItemEnrichment)>)
    ensures
        final(items)@.len() == old(items)@.len(),
        forall|k: int|
            0 <= k < old(items)@.len() ==> enrichment_applied(
                #[trigger] old(items)@[k],
                final(items)@[k],
                found@,
            ),
{
    let ghost before = items@;
    let mut i: usize = 0;
    while i < items.len()
        invariant
            i <= items@.len(),
            items@.len() == before.len(),
            forall|k: int| 0 <= k < i ==> enrichment_applied(#[trigger] before[k], items@[k], found@),
            forall|k: int| i <= k < before.len() ==> #[trigger] items@[k] == before[k],
        decreases items.len() - i,
    {
        apply_enrichment(&mut items[i], found);
        i = i + 1;
    }
}

// ---------------------------------------------------------------------------
// Requests and their answers
// ---------------------------------------------------------------------------

/// `s` without repeats, each value where it first occurs.
pub open spec fn first_occurrences(s: Seq<Seq<char>>) -> Seq<Seq<char>>
    decreases s.len(),
{
    if s.len() == 0 {
        seq![]
    } else {
        let rest = first_occurrences(s.drop_last());
        if rest.contains(s.last()) {
            rest
        } else {
            rest.push(s.last())
        }
    }
}

/// The node ids of the items that have one, in order.
pub open spec fn node_ids(items: Seq<FetchedStreamItem>) -> Seq<Seq<char>> {
    somes(items.map_values(|it: FetchedStreamItem| it.node_id)).map_values(|s: String| s@)
}

/// The ids asked for: each node id once, in the order it first occurs.
pub open spec fn enrichment_ids(items: Seq<FetchedStreamItem>) -> Seq<Seq<char>> {
    first_occurrences(node_ids(items))
}

fn copy_range(v: &Vec<String>, from: usize, to: usize) -> (r: Vec<String>)
    requires
        from <= to <= v@.len(),
    ensures
        r@ == v@.subrange(from as int, to as int),
{
    let mut r: Vec<String> = Vec::new();
    let mut i: usize = from;
    while i < to
        invariant
            from <= i <= to,
            to <= v@.len(),
            r@ == v@.subrange(from as int, i as int),
        decreases to - i,
    {
        r.push(v[i].clone());
        assert(r@ =~= v@.subrange(from as int, i + 1));
        i = i + 1;
    }
    r
}

/// The ids to ask about, in requests of at most `ITEM_ENRICHMENT_BATCH_SIZE`
/// ids: every request but the last is full.
pub fn enrichment_batches(items: &Vec<FetchedStreamItem>) -> (batches: Vec<Vec<String>>)
    ensures
        ({
            let ids = enrichment_ids(items@);
            &&& batches@.len() * 50 >= ids.len()
            &&& batches@.len() > 0 ==> (batches@.len() - 1) * 50 < ids.len()
            &&& forall|b: int|
                0 <= b < batches@.len() ==> views((#[trigger] batches@[b])@) == ids.subrange(
                    50 * b,
                    if 50 * b + 50 <= ids.len() {
                        50 * b + 50
                    } else {
                        ids.len() as int
                    },
                )
        }),
{
    let ghost m = items@.map_values(|it: FetchedStreamItem| it.node_id);
    let mut ids: Vec<String> = Vec::new();
    let mut i: usize = 0;
    while i < items.len()
        invariant
            i <= items@.len(),
            m == items@.map_values(|it: FetchedStreamItem| it.node_id),
            views(ids@) == first_occurrences(views(somes(m.take(i as int)))),
        decreases items.len() - i,
    {
        proof {
            lemma_somes_step(m, i as int);
        }
        let ghost before = views(somes(m.take(i as int)));
        match &items[i].node_id {
            Some(id) => {
                proof {
                    assert(views(somes(m.take(i + 1))) =~= before.push(id@));
                    assert(before.push(id@).drop_last() =~= before);
                }
                if !contains_name(&ids, id.as_str()) {
                    ids.push(id.clone());
                    assert(views(ids@) =~= first_occurrences(before).push(id@));
                }
            },
            None => {},
        }
        i = i + 1;
    }
    assert(m.take(items@.len() as int) =~= m);
    let ghost all = enrichment_ids(items@);
    assert(views(ids@) == all);
    let n = ids.len();
    let mut batches: Vec<Vec<String>> = Vec::new();
    let mut start: usize = 0;
    while start < n
        invariant
            n == ids@.len(),
            views(ids@) == all,
            start <= n,
            start == if 50 * batches@.len() <= n {
                50 * batches@.len() as int
            } else {
                n as int
            },
            batches@.len() > 0 ==> (batches@.len() - 1) * 50 < n,
            forall|b: int|
                0 <= b < batches@.len() ==> views((#[trigger] batches@[b])@) == all.subrange(
                    50 * b,
                    if 50 * b + 50 <= all.len() {
                        50 * b + 50
                    } else {
                        all.len() as int
                    },
                ),
        decreases n - start,
    {
        let end = if n - start > ITEM_ENRICHMENT_BATCH_SIZE {
            start + ITEM_ENRICHMENT_BATCH_SIZE
        } else {
            n
        };
        let batch = copy_range(&ids, start, end);
        proof {
            assert(views(batch@) =~= all.subrange(start as int, end as int));
        }
        batches.push(batch);
        start = end;
    }
    batches
}

/// What the answers to the enrichment requests have given so far.
pub struct EnrichmentProgress {
    pub found: Vec<(String, ItemEnrichment)>,
    pub first_error: Option<GitHubError>,
}

impl EnrichmentProgress {
    pub fn new() -> (p: Self)
        ensures
            p.found@.len() == 0,
            p.first_error is None,
    {
        EnrichmentProgress { found: Vec::new(), first_error: None }
    }

    /// Takes in the answer to one request: what it found is kept, later
    /// answers after earlier ones; of the errors only the first is kept.
    pub fn record(&mut self, result: Result<Vec<(String, ItemEnrichment)>, GitHubError>)
        ensures
            match result {
                Ok(v) => final(self).found@ == old(self).found@ + v@ && final(self).first_error
                    == old(self).first_error,
                Err(e) => final(self).found@ == old(self).found@ && final(self).first_error == if old(
                    self,
                ).first_error is None {
                    Some(e)
                } else {
                    old(self).first_error
                },
            },
    {
        match result {
            Ok(v) => {
                let mut v = v;
                self.found.append(&mut v);
            },
            Err(e) => {
                if self.first_error.is_none() {
                    self.first_error = Some(e);
                }
            },
        }
    }

    /// Applies what was found to the items, and reports the first error if
    /// a request failed.
    pub fn finish(self, items: &mut Vec<FetchedStreamItem>) -> (r: Result<(), GitHubError>)
        ensures
            final(items)@.len() == old(items)@.len(),
            forall|k: int|
                0 <= k < old(items)@.len() ==> enrichment_applied(
                    #[trigger] old(items)@[k],
                    final(items)@[k],
                    self.found@,
                ),
            match self.first_error {
                Some(e) => r == Err::<(), GitHubError>(e),
                None => r is Ok,
            },
    {
        apply_enrichments(items, &self.found);
        match self.first_error {
            Some(e) => Err(e),
            None => Ok(()),
        }
    }
}

} // verus!
