//! Saved queries, the sources they search and their filter streams.

use vstd::prelude::*;

use crate::text::str_eq;

verus! {

#[derive(Debug, PartialEq, Eq)]
pub struct SavedQuery {
    pub id: i64,
    pub name: String,
    pub query: String,
    pub source: StreamSource,
    pub enabled: bool,
    pub position: i64,
    pub unread_count: i64,
    pub filter_streams: Vec<FilterStream>,
}

/// Two saved queries hold the same values (their filter streams compared
/// by contents).
pub open spec fn same_saved_query(a: SavedQuery, b: SavedQuery) -> bool {
    &&& a.id == b.id
    &&& a.name == b.name
    &&& a.query == b.query
    &&& a.source == b.source
    &&& a.enabled == b.enabled
    &&& a.position == b.position
    &&& a.unread_count == b.unread_count
    &&& a.filter_streams@ == b.filter_streams@
}

impl Clone for SavedQuery {
    fn clone(&self) -> (r: Self)
        ensures
            same_saved_query(r, *self),
    {
        let mut filter_streams: Vec<FilterStream> = Vec::new();
        let mut i: usize = 0;
        while i < self.filter_streams.len()
            invariant
                i <= self.filter_streams.len(),
                filter_streams@ == self.filter_streams@.take(i as int),
            decreases self.filter_streams.len() - i,
        {
            filter_streams.push(self.filter_streams[i].clone());
            assert(self.filter_streams@.take(i + 1) =~= self.filter_streams@.take(i as int).push(
                self.filter_streams@[i as int],
            ));
            i = i + 1;
        }
        assert(self.filter_streams@.take(i as int) =~= self.filter_streams@);
        let r = SavedQuery {
            id: self.id,
            name: self.name.clone(),
            query: self.query.clone(),
            source: self.source,
            enabled: self.enabled,
            position: self.position,
            unread_count: self.unread_count,
            filter_streams,
        };
        r
    }
}

#[derive(Clone, Copy, Debug, PartialEq, Eq, Structural)]
pub enum StreamSource {
    IssueOrPullRequest,
    Discussion,
    ProjectV2,
}

impl Default for StreamSource {
    fn default() -> (r: Self)
        ensures
            r == StreamSource::IssueOrPullRequest,
    {
        StreamSource::IssueOrPullRequest
    }
}

pub open spec fn stream_source_label(source: StreamSource) -> Seq<char> {
    match source {
        StreamSource::IssueOrPullRequest => "Issues and pull requests"@,
        StreamSource::Discussion => "Discussions"@,
        StreamSource::ProjectV2 => "Project items"@,
    }
}

pub open spec fn stream_source_db_value(source: StreamSource) -> Seq<char> {
    match source {
        StreamSource::IssueOrPullRequest => "issue_or_pull_request"@,
        StreamSource::Discussion => "discussion"@,
        StreamSource::ProjectV2 => "project_v2"@,
    }
}

/// Reads a stored source name; anything unknown is an issue and pull
/// request search.
pub open spec fn stream_source_from_db_value(value: Seq<char>) -> StreamSource {
    if value == "discussion"@ {
        StreamSource::Discussion
    } else if value == "project_v2"@ {
        StreamSource::ProjectV2
    } else {
        StreamSource::IssueOrPullRequest
    }
}

impl StreamSource {
    pub fn label(self) -> (r: &'static str)
        ensures
            r@ == stream_source_label(self),
    {
        match self {
            StreamSource::IssueOrPullRequest => "Issues and pull requests",
            StreamSource::Discussion => "Discussions",
            StreamSource::ProjectV2 => "Project items",
        }
    }

    pub fn as_db_value(self) -> (r: &'static str)
        ensures
            r@ == stream_source_db_value(self),
    {
        match self {
            StreamSource::IssueOrPullRequest => "issue_or_pull_request",
            StreamSource::Discussion => "discussion",
            StreamSource::ProjectV2 => "project_v2",
        }
    }

    pub fn from_db_value(value: &str) -> (r: Self)
        ensures
            r == stream_source_from_db_value(value@),
    {
        if str_eq(value, "discussion") {
            StreamSource::Discussion
        } else if str_eq(value, "project_v2") {
            StreamSource::ProjectV2
        } else {
            StreamSource::IssueOrPullRequest
        }
    }
}

#[derive(Debug, PartialEq, Eq)]
pub struct FilterStream {
    pub id: i64,
    pub saved_query_id: i64,
    pub name: String,
    pub filter_query: String,
    pub enabled: bool,
    pub position: i64,
    pub unread_count: i64,
}

impl Clone for FilterStream {
    fn clone(&self) -> (r: Self)
        ensures
            r == *self,
    {
        FilterStream {
            id: self.id,
            saved_query_id: self.saved_query_id,
            name: self.name.clone(),
            filter_query: self.filter_query.clone(),
            enabled: self.enabled,
            position: self.position,
            unread_count: self.unread_count,
        }
    }
}

} // verus!
