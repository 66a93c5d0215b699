//! Discussions found by a GraphQL search.

use vstd::prelude::*;

use crate::github::graphql::{join_messages, joined_messages, lemma_somes_step, somes, GraphqlError};
use crate::github::{GitHubError, StreamItemUpsert};
use crate::models::config::HostConfig;
use crate::models::stream_item::ItemType;
use crate::text::{concat2, split_once_char, split_once_char_spec, trim, trim_seq};

verus! {

/// The most discussions one search returns.
pub const SEARCH_LIMIT: usize = 50;

pub const DISCUSSION_SEARCH_QUERY: &'static str = r#"
query DiscussionSearch($query: String!, $first: Int!) {
  search(query: $query, type: DISCUSSION, first: $first) {
    nodes {
      ... on Discussion {
        id
        number
        title
        url
        createdAt
        updatedAt
        repository {
          nameWithOwner
        }
        author {
          login
          avatarUrl
        }
        comments {
          totalCount
        }
      }
    }
  }
}
"#;

/// The search text: the query, trimmed, most recently updated first.
pub open spec fn discussion_search_text(query: Seq<char>) -> Seq<char> {
    trim_seq(query) + " sort:updated-desc"@
}

pub fn discussion_search_query(query: &str) -> (r: String)
    ensures
        r@ == discussion_search_text(query@),
{
    let trimmed = trim(query);
    concat2(trimmed.as_str(), " sort:updated-desc")
}

#[derive(Clone, Debug, PartialEq, Eq)]
pub struct DiscussionAuthor {
    pub login: String,
    pub avatar_url: Option<String>,
}

/// A discussion as the search describes it.
#[derive(Clone, Debug, PartialEq, Eq)]
pub struct DiscussionNode {
    pub id: String,
    pub number: i64,
    pub title: String,
    pub url: String,
    pub created_at: String,
    pub updated_at: String,
    pub repository_name_with_owner: String,
    pub author: Option<DiscussionAuthor>,
    pub comment_count: i64,
}

#[derive(Clone, Debug, PartialEq, Eq)]
pub struct DiscussionResponse {
    pub nodes: Option<Vec<Option<DiscussionNode>>>,
    pub errors: Option<Vec<GraphqlError>>,
}

pub open spec fn discussion_repository_message() -> Seq<char> {
    "discussion repository name did not include owner and repository"@
}

/// What a discussion becomes for `host_id`, given its repository owner and
/// name: an open item, already enriched, with nothing but what the search
/// returned.
pub open spec fn is_discussion_upsert(
    out: StreamItemUpsert,
    host_id: i64,
    d: DiscussionNode,
    owner: Seq<char>,
    name: Seq<char>,
) -> bool {
    &&& out.host_id == host_id
    &&& out.node_id == Some(d.id)
    &&& out.repository_owner@ == owner
    &&& out.repository_name@ == name
    &&& out.number == d.number
    &&& out.item_type == ItemType::Discussion
    &&& out.title == d.title
    &&& out.author_login == (match d.author {
        Some(a) => Some(a.login),
        None => None,
    })
    &&& out.author_avatar_url == (match d.author {
        Some(a) => a.avatar_url,
        None => None,
    })
    &&& out.html_url == d.url
    &&& out.api_url is None
    &&& out.state@ == "open"@
    &&& out.is_draft is None
    &&& out.is_merged is None
    &&& out.review_status is None
    &&& out.comment_count == d.comment_count
    &&& out.created_at_github == d.created_at
    &&& out.updated_at_github == d.updated_at
    &&& out.closed_at_github is None
    &&& out.merged_at_github is None
    &&& out.labels@.len() == 0
    &&& out.assignees@.len() == 0
    &&& out.review_requests@.len() == 0
    &&& out.reviewers@.len() == 0
    &&& out.participants@.len() == 0
    &&& out.mentions@.len() == 0
    &&& out.graphql_enriched
}

/// `out` is what `d` becomes.
pub open spec fn is_discussion_upsert_of(out: StreamItemUpsert, host_id: i64, d: DiscussionNode) -> bool {
    split_once_char_spec(d.repository_name_with_owner@, '/') matches Some(p) && is_discussion_upsert(
        out,
        host_id,
        d,
        p.0,
        p.1,
    )
}

/// A discussion is stored open, as a discussion of the repository it names:
/// owner and name joined by the first slash give back `owner/name`; its
/// number, title, comment count and time stamps are its own, and it has no
/// closing time.
pub proof fn lemma_discussion_upsert_keeps_node(out: StreamItemUpsert, host_id: i64, d: DiscussionNode)
    requires
        is_discussion_upsert_of(out, host_id, d),
    ensures
        out.repository_owner@ + seq!['/'] + out.repository_name@ == d.repository_name_with_owner@,
        !out.repository_owner@.contains('/'),
        out.item_type == ItemType::Discussion,
        out.state@ == "open"@,
        out.host_id == host_id,
        out.number == d.number,
        out.title@ == d.title@,
        out.comment_count == d.comment_count,
        out.created_at_github@ == d.created_at@,
        out.updated_at_github@ == d.updated_at@,
        out.closed_at_github is None,
        out.merged_at_github is None,
{
    let whole = d.repository_name_with_owner@;
    whole.index_of_first_ensures('/');
    let i = whole.index_of_first('/')->0;
    assert(whole.take(i) + seq!['/'] + whole.skip(i + 1) =~= whole);
    assert(!whole.take(i).contains('/')) by {
        if whole.take(i).contains('/') {
            let k = choose|k: int| 0 <= k < whole.take(i).len() && whole.take(i)[k] == '/';
            assert(whole[k] == '/');
        }
    }
}

pub fn discussion_to_upsert(host: &HostConfig, host_id: i64, discussion: &DiscussionNode) -> (r: Result<
    StreamItemUpsert,
    GitHubError,
>)
    ensures
        match r {
            Ok(out) => is_discussion_upsert_of(out, host_id, *discussion),
            Err(e) => split_once_char_spec(discussion.repository_name_with_owner@, '/') is None
                && (e matches GitHubError::Parse { host: h, message: m } && h == host.name && m@
                == discussion_repository_message()),
        },
{
    let (repository_owner, repository_name) = match split_once_char(
        discussion.repository_name_with_owner.as_str(),
        '/',
    ) {
        Some(p) => p,
        None => {
            return Err(
                GitHubError::Parse {
                    host: host.name.clone(),
                    message: "discussion repository name did not include owner and repository".to_owned(),
                },
            );
        },
    };
    let (author_login, author_avatar_url) = match &discussion.author {
        Some(a) => (Some(a.login.clone()), a.avatar_url.clone()),
        None => (None, None),
    };
    Ok(
        StreamItemUpsert {
            host_id,
            node_id: Some(discussion.id.clone()),
            repository_owner,
            repository_name,
            number: discussion.number,
            item_type: ItemType::Discussion,
            title: discussion.title.clone(),
            author_login,
            author_avatar_url,
            html_url: discussion.url.clone(),
            api_url: None,
            state: "open".to_owned(),
            is_draft: None,
            is_merged: None,
            review_status: None,
            comment_count: discussion.comment_count,
            created_at_github: discussion.created_at.clone(),
            updated_at_github: discussion.updated_at.clone(),
            closed_at_github: None,
            merged_at_github: None,
            labels: Vec::new(),
            assignees: Vec::new(),
            review_requests: Vec::new(),
            reviewers: Vec::new(),
            participants: Vec::new(),
            mentions: Vec::new(),
            graphql_enriched: true,
        },
    )
}

/// The discussions an answer lists; `null` entries are skipped.
pub open spec fn listed_discussions(response: DiscussionResponse) -> Seq<DiscussionNode> {
    match response.nodes {
        Some(nodes) => somes(nodes@),
        None => seq![],
    }
}

/// What a discussion search answer says: an error naming every message
/// when it reports errors; else every discussion that is there becomes an
/// item, and the first whose repository is not named `owner/name` fails
/// the whole answer.
pub fn parse_search_response(host: &HostConfig, host_id: i64, response: &DiscussionResponse) -> (r: Result<
    Vec<StreamItemUpsert>,
    GitHubError,
>)
    ensures
        response.errors matches Some(errors) ==> (r matches Err(
            GitHubError::Parse { host: h, message: m },
        ) && h == host.name && m@ == joined_messages(errors@)),
        response.errors is None ==> match r {
            Ok(out) => out@.len() == listed_discussions(*response).len() && forall|k: int|
                0 <= k < out@.len() ==> is_discussion_upsert_of(
                    #[trigger] out@[k],
                    host_id,
                    listed_discussions(*response)[k],
                ),
            Err(e) => (exists|k: int|
                0 <= k < listed_discussions(*response).len() && split_once_char_spec(
                    (#[trigger] listed_discussions(*response)[k]).repository_name_with_owner@,
                    '/',
                ) is None) && (e matches GitHubError::Parse { host: h, message: m } && h
                == host.name && m@ == discussion_repository_message()),
        },
{
    match &response.errors {
        Some(errors) => {
            let message = join_messages(errors);
            return Err(GitHubError::Parse { host: host.name.clone(), message });
        },
        None => {},
    }
    let nodes = match &response.nodes {
        Some(nodes) => nodes,
        None => return Ok(Vec::new()),
    };
    let mut out: Vec<StreamItemUpsert> = Vec::new();
    let mut i: usize = 0;
    while i < nodes.len()
        invariant
            i <= nodes@.len(),
            response.errors is None,
            response.nodes == Some(*nodes),
            out@.len() == somes(nodes@.take(i as int)).len(),
            forall|k: int|
                0 <= k < out@.len() ==> is_discussion_upsert_of(
                    #[trigger] out@[k],
                    host_id,
                    somes(nodes@.take(i as int))[k],
                ),
        decreases nodes.len() - i,
    {
        proof {
            lemma_somes_step(nodes@, i as int);
        }
        match &nodes[i] {
            Some(d) => match discussion_to_upsert(host, host_id, d) {
                Ok(u) => out.push(u),
                Err(e) => {
                    proof {
                        let found = somes(nodes@);
                        lemma_somes_prefix(nodes@, i + 1);
                        let k = somes(nodes@.take(i as int)).len() as int;
                        assert(found[k] == *d);
                        assert(listed_discussions(*response) == found);
                    }
                    return Err(e);
                },
            },
            None => {},
        }
        i = i + 1;
    }
    assert(nodes@.take(nodes@.len() as int) =~= nodes@);
    Ok(out)
}

/// The values of a prefix come first among the values of the whole.
proof fn lemma_somes_prefix<T>(s: Seq<Option<T>>, n: int)
    requires
        0 <= n <= s.len(),
    ensures
        somes(s.take(n)).len() <= somes(s).len(),
        forall|k: int| 0 <= k < somes(s.take(n)).len() ==> #[trigger] somes(s)[k] == somes(s.take(n))[k],
    decreases s.len() - n,
{
    if n < s.len() {
        lemma_somes_prefix(s, n + 1);
        lemma_somes_step(s, n);
    } else {
        assert(s.take(n) =~= s);
    }
}

} // verus!
