//! Talking to GitHub: the requests that are made and what is made of the
//! answers. The HTTP exchange itself happens around this module.

pub mod client;
pub mod discussion;
pub mod graphql;
pub mod legacy;
pub mod mentions;
pub mod project;
pub mod rest;

use vstd::prelude::*;

use crate::models::config::HostConfig;
use crate::models::stream_item::{ItemPerson, ItemReview, ItemType};
use crate::text::{concat2, concat3, decimal_seq, u64_to_string};

verus! {

/// An item as a search or a project listing returns it, before it is stored.
#[derive(Clone, Debug, Eq, PartialEq)]
pub struct FetchedStreamItem {
    pub node_id: Option<String>,
    pub repository_owner: String,
    pub repository_name: String,
    pub number: i64,
    pub item_type: ItemType,
    pub title: String,
    pub author_login: Option<String>,
    pub author_avatar_url: Option<String>,
    pub html_url: String,
    pub api_url: Option<String>,
    pub state: String,
    pub is_draft: Option<bool>,
    pub is_merged: Option<bool>,
    pub review_status: Option<String>,
    pub comment_count: i64,
    pub created_at_github: String,
    pub updated_at_github: String,
    pub closed_at_github: Option<String>,
    pub merged_at_github: Option<String>,
    pub labels: Vec<String>,
    pub assignees: Vec<ItemPerson>,
    pub review_requests: Vec<ItemPerson>,
    pub reviewers: Vec<ItemReview>,
    pub participants: Vec<ItemPerson>,
    pub mentions: Vec<String>,
    pub graphql_enriched: bool,
}

/// An item ready to be stored for a host.
#[derive(Clone, Debug, Eq, PartialEq)]
pub struct StreamItemUpsert {
    pub host_id: i64,
    pub node_id: Option<String>,
    pub repository_owner: String,
    pub repository_name: String,
    pub number: i64,
    pub item_type: ItemType,
    pub title: String,
    pub author_login: Option<String>,
    pub author_avatar_url: Option<String>,
    pub html_url: String,
    pub api_url: Option<String>,
    pub state: String,
    pub is_draft: Option<bool>,
    pub is_merged: Option<bool>,
    pub review_status: Option<String>,
    pub comment_count: i64,
    pub created_at_github: String,
    pub updated_at_github: String,
    pub closed_at_github: Option<String>,
    pub merged_at_github: Option<String>,
    pub labels: Vec<String>,
    pub assignees: Vec<ItemPerson>,
    pub review_requests: Vec<ItemPerson>,
    pub reviewers: Vec<ItemReview>,
    pub participants: Vec<ItemPerson>,
    pub mentions: Vec<String>,
    pub graphql_enriched: bool,
}

/// Why a GitHub request did not give a usable answer.
#[derive(Debug)]
pub enum GitHubError {
    Authentication { host: String },
    Api { host: String, status: u16 },
    Network { host: String, message: String },
    Parse { host: String, message: String },
    NotImplemented,
}

pub open spec fn github_error_message(e: GitHubError) -> Seq<char> {
    match e {
        GitHubError::Authentication { host } => "authentication failed for "@ + host@,
        GitHubError::Api { host, status } => "GitHub API returned HTTP "@ + decimal_seq(
            status as nat,
        ) + " for "@ + host@,
        GitHubError::Network { host, message } => "network connection failed for "@ + host@
            + ": "@ + message@,
        GitHubError::Parse { host, message } => "GitHub API response could not be parsed for "@
            + host@ + ": "@ + message@,
        GitHubError::NotImplemented => "GitHub API execution is not implemented yet"@,
    }
}

impl GitHubError {
    /// The text that `Display` shows for this error.
    pub fn message(&self) -> (r: String)
        ensures
            r@ == github_error_message(*self),
    {
        match self {
            GitHubError::Authentication { host } => concat2(
                "authentication failed for ",
                host.as_str(),
            ),
            GitHubError::Api { host, status } => {
                let number = u64_to_string(*status as u64);
                let mut r = concat3("GitHub API returned HTTP ", number.as_str(), " for ");
                r.append(host.as_str());
                r
            },
            GitHubError::Network { host, message } => {
                let mut r = concat3("network connection failed for ", host.as_str(), ": ");
                r.append(message.as_str());
                r
            },
            GitHubError::Parse { host, message } => {
                let mut r = concat3(
                    "GitHub API response could not be parsed for ",
                    host.as_str(),
                    ": ",
                );
                r.append(message.as_str());
                r
            },
            GitHubError::NotImplemented => "GitHub API execution is not implemented yet".to_owned(),
        }
    }
}

/// A parse error for `host` with the given message.
pub fn parse_error(host: &HostConfig, message: &str) -> (e: GitHubError)
    ensures
        e matches GitHubError::Parse { host: h, message: m } && h == host.name && m@ == message@,
{
    GitHubError::Parse { host: host.name.clone(), message: message.to_owned() }
}

/// The GitHub host a set of requests is made to.
pub struct GitHubService {
    host: HostConfig,
}

impl GitHubService {
    pub closed spec fn host_spec(&self) -> HostConfig {
        self.host
    }

    pub fn new(host: HostConfig) -> (s: Self)
        ensures
            s.host_spec() == host,
    {
        GitHubService { host }
    }

    pub fn host(&self) -> (h: &HostConfig)
        ensures
            *h == self.host_spec(),
    {
        &self.host
    }
}

} // verus!
