//! Items fetched for a host, made ready to be stored.

use vstd::prelude::*;

use crate::github::{FetchedStreamItem, StreamItemUpsert};

verus! {

/// `out` is `item` stored for `host_id`, marked enriched or not.
pub open spec fn is_upsert_of(
    out: StreamItemUpsert,
    host_id: i64,
    item: FetchedStreamItem,
    graphql_enriched: bool,
) -> bool {
    &&& out.host_id == host_id
    &&& out.node_id == item.node_id
    &&& out.repository_owner == item.repository_owner
    &&& out.repository_name == item.repository_name
    &&& out.number == item.number
    &&& out.item_type == item.item_type
    &&& out.title == item.title
    &&& out.author_login == item.author_login
    &&& out.author_avatar_url == item.author_avatar_url
    &&& out.html_url == item.html_url
    &&& out.api_url == item.api_url
    &&& out.state == item.state
    &&& out.is_draft == item.is_draft
    &&& out.is_merged == item.is_merged
    &&& out.review_status == item.review_status
    &&& out.comment_count == item.comment_count
    &&& out.created_at_github == item.created_at_github
    &&& out.updated_at_github == item.updated_at_github
    &&& out.closed_at_github == item.closed_at_github
    &&& out.merged_at_github == item.merged_at_github
    &&& out.labels == item.labels
    &&& out.assignees == item.assignees
    &&& out.review_requests == item.review_requests
    &&& out.reviewers == item.reviewers
    &&& out.participants == item.participants
    &&& out.mentions == item.mentions
    &&& out.graphql_enriched == graphql_enriched
}

pub fn into_upsert(host_id: i64, item: FetchedStreamItem, graphql_enriched: bool) -> (r: StreamItemUpsert)
    ensures
        is_upsert_of(r, host_id, item, graphql_enriched),
{
    StreamItemUpsert {
        host_id,
        node_id: item.node_id,
        repository_owner: item.repository_owner,
        repository_name: item.repository_name,
        number: item.number,
        item_type: item.item_type,
        title: item.title,
        author_login: item.author_login,
        author_avatar_url: item.author_avatar_url,
        html_url: item.html_url,
        api_url: item.api_url,
        state: item.state,
        is_draft: item.is_draft,
        is_merged: item.is_merged,
        review_status: item.review_status,
        comment_count: item.comment_count,
        created_at_github: item.created_at_github,
        updated_at_github: item.updated_at_github,
        closed_at_github: item.closed_at_github,
        merged_at_github: item.merged_at_github,
        labels: item.labels,
        assignees: item.assignees,
        review_requests: item.review_requests,
        reviewers: item.reviewers,
        participants: item.participants,
        mentions: item.mentions,
        graphql_enriched,
    }
}

} // verus!
