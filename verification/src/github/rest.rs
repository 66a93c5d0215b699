//! The REST search API: endpoints, and what a search result becomes.

use vstd::prelude::*;

use crate::encoding::{url_encode, url_encoded};
use crate::github::{parse_error, GitHubError, StreamItemUpsert};
use crate::models::config::{rest_api_base_url_of, HostConfig, SortOrder};
use crate::models::stream_item::{ItemPerson, ItemType};
use crate::text::{
    concat2, decimal_seq, rsplit_once_str, split_once_char, split_once_char_spec, strip_start_char,
    trim_start_char, contains_seq, last_occurrence, u64_to_string,
};

verus! {

/// Results asked for per search request.
pub const SEARCH_PER_PAGE: u16 = 50;

/// The `sort` and `order` parameters of a search. GitHub search sorts by
/// update or creation time; the orders that only the local store knows
/// (read, closed, merged) search by update time.
pub open spec fn search_sort_of(sort: SortOrder) -> (Seq<char>, Seq<char>) {
    match sort {
        SortOrder::CreatedDesc => ("created"@, "desc"@),
        SortOrder::UpdatedAsc => ("updated"@, "asc"@),
        _ => ("updated"@, "desc"@),
    }
}

pub fn search_sort_query(sort: SortOrder) -> (r: (&'static str, &'static str))
    ensures
        (r.0@, r.1@) == search_sort_of(sort),
{
    match sort {
        SortOrder::CreatedDesc => ("created", "desc"),
        SortOrder::UpdatedDesc => ("updated", "desc"),
        SortOrder::UpdatedAsc => ("updated", "asc"),
        SortOrder::ReadDesc => ("updated", "desc"),
        SortOrder::ClosedDesc => ("updated", "desc"),
        SortOrder::MergedDesc => ("updated", "desc"),
    }
}

/// A REST URL: the host's base URL followed by `path` without its leading
/// slashes.
pub open spec fn api_url_of(host: HostConfig, path: Seq<char>) -> Seq<char> {
    rest_api_base_url_of(host) + strip_start_char(path, '/')
}

pub fn api_url(host: &HostConfig, path: &str) -> (r: String)
    ensures
        r@ == api_url_of(*host, path@),
{
    let base = host.rest_api_base_url();
    let path = trim_start_char(path, '/');
    concat2(base.as_str(), path.as_str())
}

/// The endpoint of a search for `query`, newest first by `sort`.
pub open spec fn search_endpoint_of(host: HostConfig, query: Seq<char>, sort: SortOrder) -> Seq<
    char,
> {
    api_url_of(host, "search/issues"@) + "?q="@ + url_encoded(query) + "&sort="@ + search_sort_of(
        sort,
    ).0 + "&order="@ + search_sort_of(sort).1 + "&per_page="@ + decimal_seq(
        SEARCH_PER_PAGE as nat,
    )
}

pub fn search_endpoint(host: &HostConfig, query: &str, sort: SortOrder) -> (r: String)
    ensures
        r@ == search_endpoint_of(*host, query@, sort),
{
    let (sort_key, order) = search_sort_query(sort);
    let mut r = api_url(host, "search/issues");
    r.append("?q=");
    let encoded = url_encode(query);
    r.append(encoded.as_str());
    r.append("&sort=");
    r.append(sort_key);
    r.append("&order=");
    r.append(order);
    r.append("&per_page=");
    let per_page = u64_to_string(SEARCH_PER_PAGE as u64);
    r.append(per_page.as_str());
    r
}

/// The endpoint that checks a token (`user`).
pub fn test_connection_endpoint(host: &HostConfig) -> (r: String)
    ensures
        r@ == api_url_of(*host, "user"@),
{
    api_url(host, "user")
}

/// The owner and name in a repository API URL: the two path segments after
/// the last `/repos/`, both non-empty.
pub open spec fn repository_of_url(url: Seq<char>) -> Option<(Seq<char>, Seq<char>)> {
    if !contains_seq(url, "/repos/"@) {
        None
    } else {
        let i = choose|i: int| last_occurrence(url, "/repos/"@, i);
        let suffix = url.skip(i + 7);
        match split_once_char_spec(suffix, '/') {
            None => None,
            Some(parts) => {
                let owner = parts.0;
                let name = match split_once_char_spec(parts.1, '/') {
                    Some(rest) => rest.0,
                    None => parts.1,
                };
                if owner.len() == 0 || name.len() == 0 {
                    None
                } else {
                    Some((owner, name))
                }
            },
        }
    }
}

proof fn lemma_last_occurrence_unique(s: Seq<char>, pat: Seq<char>, i: int, j: int)
    requires
        last_occurrence(s, pat, i),
        last_occurrence(s, pat, j),
    ensures
        i == j,
{
}

pub fn parse_repository_url(repository_url: &str) -> (r: Option<(String, String)>)
    ensures
        match (r, repository_of_url(repository_url@)) {
            (Some(p), Some(q)) => p.0@ == q.0 && p.1@ == q.1,
            (None, None) => true,
            _ => false,
        },
{
    proof {
        reveal_strlit("/repos/");
    }
    let (_, suffix) = match rsplit_once_str(repository_url, "/repos/") {
        Some(p) => p,
        None => {
            return None;
        },
    };
    proof {
        let i = choose|i: int| last_occurrence(repository_url@, "/repos/"@, i);
        let w = choose|w: int|
            last_occurrence(repository_url@, "/repos/"@, w) && suffix@ == repository_url@.skip(
                w + "/repos/"@.len(),
            );
        lemma_last_occurrence_unique(repository_url@, "/repos/"@, i, w);
    }
    let (owner, rest) = match split_once_char(suffix.as_str(), '/') {
        Some(p) => p,
        None => {
            return None;
        },
    };
    let name = match split_once_char(rest.as_str(), '/') {
        Some(p) => p.0,
        None => rest,
    };
    if owner.as_str().is_empty() || name.as_str().is_empty() {
        None
    } else {
        Some((owner, name))
    }
}

/// A user as the search API describes one.
#[derive(Clone, Debug, PartialEq, Eq)]
pub struct SearchUser {
    pub login: String,
    pub avatar_url: Option<String>,
}

#[derive(Clone, Debug, PartialEq, Eq)]
pub struct SearchLabel {
    pub name: String,
}

/// One result of an issue search. `is_pull_request` says whether the result
/// carried a `pull_request` object.
#[derive(Clone, Debug, PartialEq, Eq)]
pub struct SearchItem {
    pub url: String,
    pub repository_url: String,
    pub html_url: String,
    pub node_id: Option<String>,
    pub number: i64,
    pub title: String,
    pub user: Option<SearchUser>,
    pub labels: Vec<SearchLabel>,
    pub state: String,
    pub assignees: Vec<SearchUser>,
    pub comments: i64,
    pub created_at: String,
    pub updated_at: String,
    pub closed_at: Option<String>,
    pub draft: Option<bool>,
    pub is_pull_request: bool,
}

pub open spec fn labels_of(labels: Seq<SearchLabel>) -> Seq<String> {
    labels.map_values(|l: SearchLabel| l.name)
}

pub open spec fn people_of(users: Seq<SearchUser>) -> Seq<ItemPerson> {
    users.map_values(|u: SearchUser| ItemPerson { login: u.login, avatar_url: u.avatar_url })
}

/// What a search result becomes for `host_id`, given the repository owner
/// and name read from its URL. Pull requests get the review status
/// `unknown` until they are enriched.
pub open spec fn is_search_upsert(
    out: StreamItemUpsert,
    host_id: i64,
    item: SearchItem,
    owner: Seq<char>,
    name: Seq<char>,
) -> bool {
    &&& out.host_id == host_id
    &&& out.node_id == item.node_id
    &&& out.repository_owner@ == owner
    &&& out.repository_name@ == name
    &&& out.number == item.number
    &&& out.item_type == (if item.is_pull_request {
        ItemType::PullRequest
    } else {
        ItemType::Issue
    })
    &&& out.title == item.title
    &&& out.author_login == (match item.user {
        Some(u) => Some(u.login),
        None => None,
    })
    &&& out.author_avatar_url == (match item.user {
        Some(u) => u.avatar_url,
        None => None,
    })
    &&& out.html_url == item.html_url
    &&& out.api_url == Some(item.url)
    &&& out.state == item.state
    &&& out.is_draft == item.draft
    &&& out.is_merged is None
    &&& (if item.is_pull_request {
        out.review_status matches Some(s) && s@ == "unknown"@
    } else {
        out.review_status is None
    })
    &&& out.comment_count == item.comments
    &&& out.created_at_github == item.created_at
    &&& out.updated_at_github == item.updated_at
    &&& out.closed_at_github == item.closed_at
    &&& out.merged_at_github is None
    &&& out.labels@ == labels_of(item.labels@)
    &&& out.assignees@ == people_of(item.assignees@)
    &&& out.review_requests@.len() == 0
    &&& out.reviewers@.len() == 0
    &&& out.participants@.len() == 0
    &&& out.mentions@.len() == 0
    &&& !out.graphql_enriched
}

/// A search result is stored as it was found: its number, title, state,
/// page, comment count and kind, and its created, updated and closed time
/// stamps, are those of the result; nothing is merged yet.
pub proof fn lemma_search_upsert_keeps_result(
    out: StreamItemUpsert,
    host_id: i64,
    item: SearchItem,
    owner: Seq<char>,
    name: Seq<char>,
)
    requires
        is_search_upsert(out, host_id, item, owner, name),
    ensures
        out.host_id == host_id,
        out.number == item.number,
        out.title@ == item.title@,
        out.state@ == item.state@,
        out.html_url@ == item.html_url@,
        out.comment_count == item.comments,
        out.is_draft == item.draft,
        (out.item_type == ItemType::PullRequest) == item.is_pull_request,
        out.created_at_github@ == item.created_at@,
        out.updated_at_github@ == item.updated_at@,
        match (out.closed_at_github, item.closed_at) {
            (Some(a), Some(b)) => a@ == b@,
            (None, None) => true,
            _ => false,
        },
        out.merged_at_github is None,
        out.is_merged is None,
        match (out.author_login, item.user) {
            (Some(login), Some(user)) => login@ == user.login@,
            (None, None) => true,
            _ => false,
        },
        out.labels@.len() == item.labels@.len(),
        forall|k: int| 0 <= k < item.labels@.len() ==> out.labels@[k]@ == (#[trigger] item.labels@[k]).name@,
        out.assignees@.len() == item.assignees@.len(),
        forall|k: int|
            0 <= k < item.assignees@.len() ==> out.assignees@[k].login@ == (
            #[trigger] item.assignees@[k]).login@,
{
}

/// The message of a result whose repository URL names no repository.
pub open spec fn repository_url_message() -> Seq<char> {
    "search result repository_url did not include owner and repository"@
}

fn label_names(labels: Vec<SearchLabel>) -> (r: Vec<String>)
    ensures
        r@ == labels_of(labels@),
{
    let mut r: Vec<String> = Vec::new();
    let mut i: usize = 0;
    while i < labels.len()
        invariant
            i <= labels.len(),
            r@ == labels_of(labels@).take(i as int),
        decreases labels.len() - i,
    {
        r.push(labels[i].name.clone());
        assert(labels_of(labels@).take(i + 1) =~= labels_of(labels@).take(i as int).push(
            labels@[i as int].name,
        ));
        i = i + 1;
    }
    assert(labels_of(labels@).take(i as int) =~= labels_of(labels@));
    r
}

fn users_to_people(users: Vec<SearchUser>) -> (r: Vec<ItemPerson>)
    ensures
        r@ == people_of(users@),
{
    let mut r: Vec<ItemPerson> = Vec::new();
    let mut i: usize = 0;
    while i < users.len()
        invariant
            i <= users.len(),
            r@ == people_of(users@).take(i as int),
        decreases users.len() - i,
    {
        let u = &users[i];
        r.push(ItemPerson { login: u.login.clone(), avatar_url: u.avatar_url.clone() });
        assert(people_of(users@).take(i + 1) =~= people_of(users@).take(i as int).push(
            ItemPerson { login: users@[i as int].login, avatar_url: users@[i as int].avatar_url },
        ));
        i = i + 1;
    }
    assert(people_of(users@).take(i as int) =~= people_of(users@));
    r
}

/// Turns one search result into an item to store.
pub fn search_item_to_upsert(host: &HostConfig, host_id: i64, item: SearchItem) -> (r: Result<
    StreamItemUpsert,
    GitHubError,
>)
    ensures
        match (r, repository_of_url(item.repository_url@)) {
            (Ok(out), Some(p)) => is_search_upsert(out, host_id, item, p.0, p.1),
            (Err(e), None) => e matches GitHubError::Parse { host: h, message: m } && h
                == host.name && m@ == repository_url_message(),
            _ => false,
        },
{
    let (repository_owner, repository_name) = match parse_repository_url(
        item.repository_url.as_str(),
    ) {
        Some(p) => p,
        None => {
            return Err(
                parse_error(
                    host,
                    "search result repository_url did not include owner and repository",
                ),
            );
        },
    };
    let is_pull_request = item.is_pull_request;
    let item_type = if is_pull_request {
        ItemType::PullRequest
    } else {
        ItemType::Issue
    };
    let review_status = if is_pull_request {
        Some("unknown".to_owned())
    } else {
        None
    };
    let (author_login, author_avatar_url) = match item.user {
        Some(user) => (Some(user.login), user.avatar_url),
        None => (None, None),
    };
    Ok(
        StreamItemUpsert {
            host_id,
            node_id: item.node_id,
            repository_owner,
            repository_name,
            number: item.number,
            item_type,
            title: item.title,
            author_login,
            author_avatar_url,
            html_url: item.html_url,
            api_url: Some(item.url),
            state: item.state,
            is_draft: item.draft,
            is_merged: None,
            review_status,
            comment_count: item.comments,
            created_at_github: item.created_at,
            updated_at_github: item.updated_at,
            closed_at_github: item.closed_at,
            merged_at_github: None,
            labels: label_names(item.labels),
            assignees: users_to_people(item.assignees),
            review_requests: Vec::new(),
            reviewers: Vec::new(),
            participants: Vec::new(),
            mentions: Vec::new(),
            graphql_enriched: false,
        },
    )
}

/// Every result of a search becomes an item; the first result whose
/// repository URL names no repository fails the whole response.
pub fn search_items_to_upserts(host: &HostConfig, host_id: i64, items: Vec<SearchItem>) -> (r: Result<
    Vec<StreamItemUpsert>,
    GitHubError,
>)
    ensures
        match r {
            Ok(out) => out@.len() == items@.len() && forall|k: int|
                0 <= k < items@.len() ==> (repository_of_url(#[trigger] items@[k].repository_url@) matches Some(p)
                    && is_search_upsert(out@[k], host_id, items@[k], p.0, p.1)),
            Err(e) => exists|k: int|
                0 <= k < items@.len() && repository_of_url(#[trigger] items@[k].repository_url@)
                    is None && (forall|j: int|
                    0 <= j < k ==> repository_of_url(items@[j].repository_url@) is Some) && (e matches GitHubError::Parse {
                    host: h,
                    message: m,
                } && h == host.name && m@ == repository_url_message()),
        },
{
    let ghost all = items@;
    let total = items.len();
    assert(all.len() == total);
    let mut rest = items;
    let mut out: Vec<StreamItemUpsert> = Vec::new();
    let mut i: usize = 0;
    while rest.len() > 0
        invariant
            i <= all.len(),
            rest@ == all.skip(i as int),
            all == items@,
            i + rest@.len() == all.len(),
            all.len() <= usize::MAX,
            out@.len() == i,
            forall|k: int|
                0 <= k < i ==> (repository_of_url(#[trigger] all[k].repository_url@) matches Some(p)
                    && is_search_upsert(out@[k], host_id, all[k], p.0, p.1)),
        decreases rest.len(),
    {
        let item = rest.remove(0);
        assert(item == all[i as int]);
        assert(rest@ =~= all.skip(i + 1));
        match search_item_to_upsert(host, host_id, item) {
            Ok(u) => out.push(u),
            Err(e) => {
                assert(repository_of_url(items@[i as int].repository_url@) is None);
                assert forall|j: int| 0 <= j < i implies repository_of_url(
                    items@[j].repository_url@,
                ) is Some by {
                    assert(repository_of_url(all[j].repository_url@) matches Some(p));
                }
                return Err(e);
            },
        }
        i = i + 1;
    }
    Ok(out)
}

} // verus!
