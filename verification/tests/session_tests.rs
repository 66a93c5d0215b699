//! The application's decisions, with the database's answers written out
//! where the application would have asked the database.

use ghtl::app::manager::SavedQueryManagerState;
use ghtl::app::session::{
    changed_config, poll_action, AppMode, ConfigChange, GhStreamApp, PollAction, Runtime,
    ViewFollowUp,
};
use ghtl::app::stream::StreamState;
use ghtl::app::view::sort_view_items;
use ghtl::models::config::{AppConfig, SortOrder};
use ghtl::models::saved_query::{SavedQuery, StreamSource};
use ghtl::models::stream_item::{ItemPerson, ItemType, StreamItem};
use ghtl::app::session::ReadScope;
use ghtl::models::view::{LibraryCounts, LibraryView, Selection, StreamFilter};

const QUERY_ID: i64 = 1;
const ITEM_ID: i64 = 42;

fn sample_item_with_number(id: i64, number: i64, title: &str, updated_at_github: &str) -> StreamItem {
    StreamItem {
        id,
        repository_owner: "owner".to_owned(),
        repository_name: "repo".to_owned(),
        number,
        item_type: ItemType::PullRequest,
        title: title.to_owned(),
        author_login: Some("author".to_owned()),
        author_avatar_url: Some("https://avatars.githubusercontent.com/u/1?v=4".to_owned()),
        html_url: format!("https://github.example.test/owner/repo/pull/{number}"),
        state: "open".to_owned(),
        is_draft: Some(false),
        is_merged: Some(false),
        review_status: Some("review_required".to_owned()),
        comment_count: 3,
        created_at_github: "2026-05-22T00:00:00+00:00".to_owned(),
        updated_at_github: updated_at_github.to_owned(),
        closed_at_github: None,
        merged_at_github: None,
        read_at: None,
        labels: vec!["bug".to_owned()],
        assignees: vec![ItemPerson {
            login: "dev".to_owned(),
            avatar_url: Some("https://avatars.githubusercontent.com/u/2?v=4".to_owned()),
        }],
        review_requests: Vec::new(),
        reviewers: Vec::new(),
        is_unread: true,
        is_bookmarked: false,
        is_archived: false,
    }
}

fn query(id: i64, name: &str) -> SavedQuery {
    SavedQuery {
        id,
        name: name.to_owned(),
        query: "is:open".to_owned(),
        source: StreamSource::IssueOrPullRequest,
        enabled: true,
        position: id,
        unread_count: 1,
        filter_streams: Vec::new(),
    }
}

/// The application in its main window on the saved query "Inbox", which
/// matches one item.
fn app_with_one_item() -> (GhStreamApp, i64) {
    let runtime = Runtime {
        config: AppConfig::default_with_pat("ghp_test".to_owned()),
        host_id: 1,
        library_counts: LibraryCounts::default(),
        saved_queries: vec![query(QUERY_ID, "Inbox")],
        items: vec![sample_item_with_number(ITEM_ID, 42, "Title", "2026-05-23T00:00:00+00:00")],
    };
    let mut stream = StreamState::new(SavedQueryManagerState::new(String::new()));
    stream.selection = Selection::SavedQuery(QUERY_ID);
    (GhStreamApp::start(Ok(Ok(runtime)), stream), ITEM_ID)
}

fn items(app: &GhStreamApp) -> &Vec<StreamItem> {
    let AppMode::Main(runtime) = &app.mode else {
        panic!("app should be in main mode");
    };
    &runtime.items
}

fn saved_queries(app: &GhStreamApp) -> &Vec<SavedQuery> {
    let AppMode::Main(runtime) = &app.mode else {
        panic!("app should be in main mode");
    };
    &runtime.saved_queries
}

fn assert_items_len(app: &GhStreamApp, expected: usize) {
    assert_eq!(items(app).len(), expected);
}

#[test]
fn item_action_updates_storage_and_reloads_current_view() {
    let (mut app, item_id) = app_with_one_item();
    let mut item = items(&app)[0].clone();
    let mut inbox = saved_queries(&app)[0].clone();

    // Marked read: the database now holds the item read and no unread count.
    app.item_state_updated(Ok(()));
    item.is_unread = false;
    item.read_at = Some("2026-05-24T00:00:00+00:00".to_owned());
    inbox.unread_count = 0;
    app.view_reloaded(Ok(vec![item.clone()]));
    app.queries_reloaded(Ok((LibraryCounts::default(), vec![inbox.clone()])));
    assert_eq!(items(&app).len(), 1);
    assert!(!items(&app)[0].is_unread);
    assert_eq!(saved_queries(&app)[0].unread_count, 0);

    app.item_state_updated(Ok(()));
    item.is_bookmarked = true;
    app.view_reloaded(Ok(vec![item.clone()]));
    assert!(items(&app)[0].is_bookmarked);

    // Archived items leave the saved query's view.
    app.item_state_updated(Ok(()));
    item.is_archived = true;
    app.view_reloaded(Ok(Vec::new()));
    assert!(items(&app).is_empty());

    app.stream.select(Selection::Library(LibraryView::Archived));
    assert!(app.stream.reset_item_list_scroll);
    app.view_reloaded(Ok(vec![item.clone()]));
    assert_eq!(items(&app).len(), 1);
    assert!(items(&app)[0].is_archived);
    assert_eq!(items(&app)[0].id, item_id);

    app.item_state_updated(Ok(()));
    app.view_reloaded(Ok(Vec::new()));
    assert!(items(&app).is_empty());
    assert_eq!(app.status, "Item state updated.");
}

#[test]
fn filter_state_drives_db_backed_item_reload() {
    let (mut app, _) = app_with_one_item();
    let mut item = items(&app)[0].clone();

    app.stream.filter = Some(StreamFilter::Unread);
    app.view_reloaded(Ok(vec![item.clone()]));
    assert_items_len(&app, 1);

    // Once read, the item no longer passes the unread filter.
    app.item_state_updated(Ok(()));
    item.is_unread = false;
    app.view_reloaded(Ok(Vec::new()));
    assert_items_len(&app, 0);

    app.stream.filter = None;
    app.view_reloaded(Ok(vec![item]));
    assert_items_len(&app, 1);
}

#[test]
fn mark_saved_query_read_updates_counts_and_current_view() {
    let (mut app, _) = app_with_one_item();
    let Selection::SavedQuery(query_id) = app.stream.selection else {
        panic!("app should select saved query");
    };
    assert_eq!(query_id, QUERY_ID);
    let mut inbox = saved_queries(&app)[0].clone();

    app.stream.filter = Some(StreamFilter::Unread);
    assert_items_len(&app, 1);

    assert!(app.marked_read(ReadScope::SavedQuery, Ok(1)));
    inbox.unread_count = 0;
    app.queries_reloaded(Ok((LibraryCounts::default(), vec![inbox])));
    app.view_reloaded(Ok(Vec::new()));

    assert_eq!(saved_queries(&app)[0].unread_count, 0);
    assert!(items(&app).is_empty());
    assert_eq!(app.status, "Marked 1 items as read.");
}

#[test]
fn changing_saved_query_requests_item_list_scroll_reset() {
    let (mut app, _) = app_with_one_item();
    let current_selection = app.stream.selection;
    let other_query_id = 2;

    app.stream.select(current_selection);
    assert!(!app.stream.reset_item_list_scroll);

    app.stream.select(Selection::SavedQuery(other_query_id));
    assert!(app.stream.reset_item_list_scroll);
}

#[test]
fn query_creation_and_selected_query_deletion_request_item_list_scroll_reset() {
    let (mut app, _) = app_with_one_item();
    let new_query_id = 2;

    assert!(!app.query_form_rejected("New", "is:issue"));
    assert!(app.query_added(Ok(new_query_id), Ok(())));
    assert!(app.stream.reset_item_list_scroll);
    let Selection::SavedQuery(selected) = app.stream.selection else {
        panic!("new query should be selected");
    };
    assert_eq!(selected, new_query_id);

    app.stream.reset_item_list_scroll = false;
    app.query_deleted(selected, Ok(()));
    assert!(app.stream.reset_item_list_scroll);
    assert_eq!(app.stream.selection, Selection::Library(LibraryView::Inbox));
}

#[test]
fn changed_item_outside_current_view_does_not_reload_visible_items() {
    let (mut app, item_id) = app_with_one_item();
    let other_item_id = 99;

    // The changed item is not in the selected saved query, so the database
    // returns none of it for the current selection.
    let follow_up = app.changed_items_loaded(&vec![other_item_id], Ok(Vec::new()));

    assert_eq!(follow_up, ViewFollowUp::Nothing);
    assert_eq!(items(&app).len(), 1);
    assert_eq!(items(&app)[0].id, item_id);
}

#[test]
fn changed_item_that_enters_current_view_triggers_reload() {
    let (mut app, item_id) = app_with_one_item();
    let inserted_item_id = 100;
    let fresh = sample_item_with_number(inserted_item_id, 100, "Fresh item", "2026-05-24T00:00:00+00:00");

    let follow_up = app.changed_items_loaded(&vec![inserted_item_id], Ok(vec![fresh.clone()]));
    assert_eq!(follow_up, ViewFollowUp::ReloadView);

    // The view as the database returns it, newest first.
    let current = items(&app)[0].clone();
    app.view_reloaded(Ok(vec![fresh, current]));

    assert_eq!(items(&app).len(), 2);
    assert_eq!(items(&app)[0].title, "Fresh item");
    assert!(items(&app).iter().any(|item| item.id == item_id));
}

#[test]
fn refused_forms_and_failures_are_reported() {
    let (mut app, _) = app_with_one_item();

    assert!(app.query_form_rejected("  ", "is:open"));
    assert_eq!(app.status, "Saved query name and query must not be empty.");
    assert!(!app.query_added(Ok(5), Err("locked".to_owned())));
    assert_eq!(app.status, "Could not disable saved query: locked");
    assert!(app.query_added(Err("full".to_owned()), Ok(())));
    assert_eq!(app.status, "Could not create saved query: full");
    app.query_moved(true, Ok(false));
    assert_eq!(app.status, "Saved query is already at the top.");
    assert!(!app.marked_read(ReadScope::Library, Ok(0)));
    assert_eq!(app.status, "No unread items to mark read.");
    assert!(app.marked_read(ReadScope::SavedQuery, Ok(1)));
    assert_eq!(app.status, "Marked 1 items as read.");
    app.item_opened(Err("busy".to_owned()), Err("no browser".to_owned()));
    assert_eq!(
        app.status,
        "Could not open browser: no browser; could not mark item read: busy"
    );
    assert_eq!(app.transfer_path("   ", true), None);
    assert_eq!(app.status, "Saved query export path must not be empty.");
    assert!(!app.import_host_matches("ghes|https|ghe.example.test|/api/v3/"));
    assert_eq!(
        app.status,
        "Could not import saved queries: saved query file host does not match the current host."
    );
    assert!(app.import_host_matches("github|https|api.github.com|/"));
}

#[test]
fn setup_opens_from_and_returns_to_the_main_window() {
    let (mut app, _) = app_with_one_item();

    app.open_setup_settings();
    assert!(matches!(app.mode, AppMode::Setup { previous_runtime: Some(_) }));
    assert_eq!(app.setup.hostname, "api.github.com");
    assert_eq!(app.status, "Editing host settings.");

    assert!(app.cancel_setup());
    assert!(matches!(app.mode, AppMode::Main(_)));
    assert_eq!(app.status, "Host settings unchanged.");
}

#[test]
fn preview_urls_for_each_source() {
    let (mut app, _) = app_with_one_item();

    assert_eq!(
        app.preview_url(" is:pr ", StreamSource::IssueOrPullRequest).as_deref(),
        Some("https://github.com/search?q=is%3Apr&type=issues")
    );
    assert_eq!(
        app.preview_url("org:aws number:244", StreamSource::ProjectV2).as_deref(),
        Some("https://github.com/orgs/aws/projects/244")
    );
    assert_eq!(app.preview_url("node:PVT_1", StreamSource::ProjectV2), None);
    assert_eq!(
        app.status,
        "Could not preview project: GitHub API response could not be parsed for GitHub.com: project node IDs cannot be previewed as a GitHub project URL"
    );
    assert_eq!(app.preview_url("   ", StreamSource::Discussion), None);
    assert_eq!(app.status, "Saved query must not be empty.");
}

#[test]
fn polling_interval_change_updates_runtime_and_yaml_config() {
    let (mut app, _) = app_with_one_item();
    let change = ConfigChange::PollingInterval(90);
    let AppMode::Main(runtime) = &app.mode else {
        panic!("app should be in main mode");
    };
    // The configuration that is written to the file, and then taken in.
    let written = changed_config(&runtime.config, change);
    assert!(app.config_change_saved(change, written.clone(), Ok(())));

    let AppMode::Main(runtime) = &app.mode else {
        panic!("app should be in main mode");
    };
    assert_eq!(runtime.config.refresh.polling_interval_seconds, 90);
    assert_eq!(written.refresh.polling_interval_seconds, 90);
    assert_eq!(app.status, "Polling interval saved.");
}

#[test]
fn polls_start_the_clock_then_wait_for_the_interval() {
    assert_eq!(poll_action(None, 60), PollAction::StartClock);
    assert_eq!(poll_action(Some(59), 60), PollAction::Wait);
    assert_eq!(poll_action(Some(60), 60), PollAction::Refresh);
    assert_eq!(poll_action(Some(0), 0), PollAction::Refresh);
}

#[test]
fn toolbar_sort_controls_selected_saved_query_view() {
    let (mut app, _) = app_with_one_item();
    let Selection::SavedQuery(query_id) = app.stream.selection else {
        panic!("app should select saved query");
    };
    assert_eq!(query_id, QUERY_ID);
    let fresh = sample_item_with_number(100, 100, "Fresh item", "2026-05-24T00:00:00+00:00");

    let change = ConfigChange::DefaultSort(SortOrder::UpdatedAsc);
    let AppMode::Main(runtime) = &app.mode else {
        panic!("app should be in main mode");
    };
    let written = changed_config(&runtime.config, change);
    assert!(app.config_change_saved(change, written, Ok(())));

    // The view is loaded again in the chosen order.
    let AppMode::Main(runtime) = &app.mode else {
        panic!("app should be in main mode");
    };
    let sort = runtime.config.ui.default_sort;
    assert_eq!(sort, SortOrder::UpdatedAsc);
    let current = items(&app)[0].clone();
    app.view_reloaded(Ok(sort_view_items(vec![fresh, current], sort)));

    let AppMode::Main(runtime) = &app.mode else {
        panic!("app should be in main mode");
    };
    assert_eq!(runtime.items[0].title, "Title");
    assert_eq!(runtime.items[1].title, "Fresh item");
}
