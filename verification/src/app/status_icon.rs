//! The icon that shows the state of an issue or pull request.

use vstd::prelude::*;

use crate::models::stream_item::{ItemType, StreamItem};
use crate::text::{eq_ignore_ascii_case, lower_seq};

verus! {

#[derive(Clone, Copy, Debug, PartialEq, Eq, Structural)]
pub enum StatusIcon {
    IssueOpen,
    IssueClosed,
    PullRequestOpen,
    PullRequestClosed,
    PullRequestDraft,
    PullRequestMerged,
}

/// The state says closed, in any ASCII case.
pub open spec fn is_closed_state(state: Seq<char>) -> bool {
    lower_seq(state) == "closed"@
}

/// The icon of an item: a merged pull request shows as merged before a
/// draft, a draft before a closed one; discussions show as issues.
pub open spec fn status_icon_of(item: StreamItem) -> StatusIcon {
    match item.item_type {
        ItemType::PullRequest => if item.is_merged == Some(true) {
            StatusIcon::PullRequestMerged
        } else if item.is_draft == Some(true) {
            StatusIcon::PullRequestDraft
        } else if is_closed_state(item.state@) {
            StatusIcon::PullRequestClosed
        } else {
            StatusIcon::PullRequestOpen
        },
        _ => if is_closed_state(item.state@) {
            StatusIcon::IssueClosed
        } else {
            StatusIcon::IssueOpen
        },
    }
}

/// A pull request shows merged when merged, else as a draft when a draft,
/// else closed or open as its state says (in any case); issues and
/// discussions show closed or open as their state says.
pub proof fn lemma_status_icon(item: StreamItem)
    ensures
        (item.item_type == ItemType::PullRequest && item.is_merged == Some(true)) ==> status_icon_of(
            item,
        ) == StatusIcon::PullRequestMerged,
        (item.item_type == ItemType::PullRequest && item.is_merged != Some(true) && item.is_draft
            == Some(true)) ==> status_icon_of(item) == StatusIcon::PullRequestDraft,
        (item.item_type == ItemType::PullRequest && item.is_merged != Some(true) && item.is_draft
            != Some(true) && (item.state@ == "closed"@ || item.state@ == "CLOSED"@)) ==> status_icon_of(
            item,
        ) == StatusIcon::PullRequestClosed,
        (item.item_type == ItemType::PullRequest && item.is_merged != Some(true) && item.is_draft
            != Some(true) && item.state@ == "open"@) ==> status_icon_of(item)
            == StatusIcon::PullRequestOpen,
        (item.item_type != ItemType::PullRequest && (item.state@ == "closed"@ || item.state@
            == "CLOSED"@)) ==> status_icon_of(item) == StatusIcon::IssueClosed,
        (item.item_type != ItemType::PullRequest && item.state@ == "open"@) ==> status_icon_of(item)
            == StatusIcon::IssueOpen,
{
    reveal_strlit("closed");
    reveal_strlit("CLOSED");
    reveal_strlit("open");
    assert(lower_seq("closed"@) =~= "closed"@);
    assert(lower_seq("CLOSED"@) =~= "closed"@);
    assert(lower_seq("open"@) =~= "open"@);
    assert("open"@.len() != "closed"@.len());
}

pub open spec fn status_icon_label(icon: StatusIcon) -> Seq<char> {
    match icon {
        StatusIcon::IssueOpen => "Issue open"@,
        StatusIcon::IssueClosed => "Issue closed"@,
        StatusIcon::PullRequestOpen => "Pull request open"@,
        StatusIcon::PullRequestClosed => "Pull request closed"@,
        StatusIcon::PullRequestDraft => "Pull request draft"@,
        StatusIcon::PullRequestMerged => "Pull request merged"@,
    }
}

impl StatusIcon {
    pub fn for_item(item: &StreamItem) -> (r: Self)
        ensures
            r == status_icon_of(*item),
    {
        let closed = eq_ignore_ascii_case(item.state.as_str(), "closed");
        proof {
            reveal_strlit("closed");
            assert(lower_seq("closed"@) =~= "closed"@);
        }
        match item.item_type {
            ItemType::PullRequest => {
                if item.is_merged == Some(true) {
                    StatusIcon::PullRequestMerged
                } else if item.is_draft == Some(true) {
                    StatusIcon::PullRequestDraft
                } else if closed {
                    StatusIcon::PullRequestClosed
                } else {
                    StatusIcon::PullRequestOpen
                }
            },
            _ => {
                if closed {
                    StatusIcon::IssueClosed
                } else {
                    StatusIcon::IssueOpen
                }
            },
        }
    }

    pub fn label(self) -> (r: &'static str)
        ensures
            r@ == status_icon_label(self),
    {
        match self {
            StatusIcon::IssueOpen => "Issue open",
            StatusIcon::IssueClosed => "Issue closed",
            StatusIcon::PullRequestOpen => "Pull request open",
            StatusIcon::PullRequestClosed => "Pull request closed",
            StatusIcon::PullRequestDraft => "Pull request draft",
            StatusIcon::PullRequestMerged => "Pull request merged",
        }
    }
}

} // verus!
