//! The data model: host and UI configuration, saved queries, stream items
//! and the views of the library.

pub mod config;
pub mod saved_query;
pub mod stream_item;
pub mod view;

pub use config::{
    AppConfig, AuthConfig, FontSize, HostConfig, HostKind, RefreshConfig, Scheme, SortOrder, Theme,
    UiConfig,
};
pub use saved_query::{FilterStream, SavedQuery, StreamSource};
pub use stream_item::{ItemPerson, ItemReview, ItemType, StreamItem};
pub use view::{LibraryCounts, LibraryView, Selection, StreamFilter};
