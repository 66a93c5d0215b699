//! Items of a stream: issues, pull requests and discussions.

use vstd::prelude::*;

use crate::text::concat3;

verus! {

#[derive(Clone, Debug, Hash, PartialEq, Eq, Structural)]
pub enum ItemType {
    Issue,
    PullRequest,
    Discussion,
}

pub open spec fn item_type_label(item_type: ItemType) -> Seq<char> {
    match item_type {
        ItemType::Issue => "Issue"@,
        ItemType::PullRequest => "Pull request"@,
        ItemType::Discussion => "Discussion"@,
    }
}

impl ItemType {
    pub fn label(&self) -> (r: &'static str)
        ensures
            r@ == item_type_label(*self),
    {
        match self {
            ItemType::Issue => "Issue",
            ItemType::PullRequest => "Pull request",
            ItemType::Discussion => "Discussion",
        }
    }
}

#[derive(Debug, Default, PartialEq, Eq)]
pub struct ItemPerson {
    pub login: String,
    pub avatar_url: Option<String>,
}

impl Clone for ItemPerson {
    fn clone(&self) -> (r: Self)
        ensures
            r == *self,
    {
        ItemPerson { login: self.login.clone(), avatar_url: self.avatar_url.clone() }
    }
}

#[derive(Debug, Default, PartialEq, Eq)]
pub struct ItemReview {
    pub login: String,
    pub avatar_url: Option<String>,
    pub state: String,
}

impl Clone for ItemReview {
    fn clone(&self) -> (r: Self)
        ensures
            r == *self,
    {
        ItemReview {
            login: self.login.clone(),
            avatar_url: self.avatar_url.clone(),
            state: self.state.clone(),
        }
    }
}

#[derive(Clone, Debug, PartialEq, Eq)]
pub struct StreamItem {
    pub id: i64,
    pub repository_owner: String,
    pub repository_name: String,
    pub number: i64,
    pub item_type: ItemType,
    pub title: String,
    pub author_login: Option<String>,
    pub author_avatar_url: Option<String>,
    pub html_url: String,
    pub state: String,
    pub is_draft: Option<bool>,
    pub is_merged: Option<bool>,
    pub review_status: Option<String>,
    pub comment_count: i64,
    pub created_at_github: String,
    pub updated_at_github: String,
    pub closed_at_github: Option<String>,
    pub merged_at_github: Option<String>,
    pub read_at: Option<String>,
    pub labels: Vec<String>,
    pub assignees: Vec<ItemPerson>,
    pub review_requests: Vec<ItemPerson>,
    pub reviewers: Vec<ItemReview>,
    pub is_unread: bool,
    pub is_bookmarked: bool,
    pub is_archived: bool,
}

impl StreamItem {
    /// `owner/name`.
    pub fn repository_full_name(&self) -> (r: String)
        ensures
            r@ == self.repository_owner@ + "/"@ + self.repository_name@,
    {
        concat3(self.repository_owner.as_str(), "/", self.repository_name.as_str())
    }
}

} // verus!
