//! What the left pane can select, and the filters and counts of a view.

use vstd::prelude::*;

verus! {

#[derive(Clone, Copy, Debug, PartialEq, Eq, Structural)]
pub enum StreamFilter {
    Open,
    Unread,
    Bookmarked,
}

pub open spec fn stream_filter_label(filter: StreamFilter) -> Seq<char> {
    match filter {
        StreamFilter::Open => "Open"@,
        StreamFilter::Unread => "Unread"@,
        StreamFilter::Bookmarked => "Bookmarked"@,
    }
}

impl StreamFilter {
    pub fn label(self) -> (r: &'static str)
        ensures
            r@ == stream_filter_label(self),
    {
        match self {
            StreamFilter::Open => "Open",
            StreamFilter::Unread => "Unread",
            StreamFilter::Bookmarked => "Bookmarked",
        }
    }
}

#[derive(Clone, Copy, Debug, PartialEq, Eq, Structural)]
pub enum LibraryView {
    Inbox,
    Bookmark,
    Archived,
}

pub open spec fn library_view_label(view: LibraryView) -> Seq<char> {
    match view {
        LibraryView::Inbox => "Inbox"@,
        LibraryView::Bookmark => "Bookmark"@,
        LibraryView::Archived => "Archived"@,
    }
}

impl LibraryView {
    pub fn label(self) -> (r: &'static str)
        ensures
            r@ == library_view_label(self),
    {
        match self {
            LibraryView::Inbox => "Inbox",
            LibraryView::Bookmark => "Bookmark",
            LibraryView::Archived => "Archived",
        }
    }
}

#[derive(Clone, Copy, Debug, PartialEq, Eq, Structural)]
pub enum Selection {
    Library(LibraryView),
    SavedQuery(i64),
    FilterStream(i64),
}

#[derive(Clone, Debug, PartialEq, Eq)]
pub struct LibraryCounts {
    pub inbox_unread_count: i64,
    pub bookmark_unread_count: i64,
    pub archived_unread_count: i64,
}

impl Default for LibraryCounts {
    fn default() -> (r: Self)
        ensures
            r.inbox_unread_count == 0,
            r.bookmark_unread_count == 0,
            r.archived_unread_count == 0,
    {
        LibraryCounts { inbox_unread_count: 0, bookmark_unread_count: 0, archived_unread_count: 0 }
    }
}

impl LibraryCounts {
    pub fn unread_count(&self, library: LibraryView) -> (r: i64)
        ensures
            r == match library {
                LibraryView::Inbox => self.inbox_unread_count,
                LibraryView::Bookmark => self.bookmark_unread_count,
                LibraryView::Archived => self.archived_unread_count,
            },
    {
        match library {
            LibraryView::Inbox => self.inbox_unread_count,
            LibraryView::Bookmark => self.bookmark_unread_count,
            LibraryView::Archived => self.archived_unread_count,
        }
    }
}

} // verus!
