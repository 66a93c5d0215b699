use ghtl::app::manager::{can_move_selected_query, EditKind, SavedQueryManagerState};
use ghtl::app::people::{is_reviewed_login, pending_review_requests, reviewed_logins};
use ghtl::app::refresh::{refresh_scope, refresh_status, summarize_refresh, RefreshStats};

use ghtl::app::session::{AppMode, GhStreamApp, Runtime, ViewFollowUp};
use ghtl::app::status::{replace_status, StatusLevel, STATUS_HISTORY_LIMIT};
use ghtl::app::status_icon::StatusIcon;
use ghtl::app::setup::{save_setup, test_setup, SetupState};
use ghtl::app::stream::{normalize_local_filter, StreamState};
use ghtl::app::view::{compare_items, patch_current_items, sort_view_items};
use ghtl::config::ConfigError;
use ghtl::models::config::{AppConfig, HostKind, SortOrder};
use ghtl::models::saved_query::{FilterStream, SavedQuery, StreamSource};
use ghtl::models::stream_item::{ItemPerson, ItemReview, ItemType, StreamItem};
use ghtl::models::view::{LibraryCounts, LibraryView, Selection};
use ghtl::{HelloWorldApp, APP_TITLE};

fn sample_item(item_type: ItemType) -> StreamItem {
    StreamItem {
        id: 1,
        repository_owner: "owner".to_owned(),
        repository_name: "repo".to_owned(),
        number: 7,
        item_type,
        title: "Example".to_owned(),
        author_login: Some("octo".to_owned()),
        author_avatar_url: Some("https://avatars.githubusercontent.com/u/1?v=4".to_owned()),
        html_url: "https://github.example.test/owner/repo/issues/7".to_owned(),
        state: "open".to_owned(),
        is_draft: Some(false),
        is_merged: Some(false),
        review_status: None,
        comment_count: 0,
        created_at_github: "2026-05-22T00:00:00Z".to_owned(),
        updated_at_github: "2026-05-23T00:00:00Z".to_owned(),
        closed_at_github: None,
        merged_at_github: None,
        read_at: None,
        labels: Vec::new(),
        assignees: Vec::new(),
        review_requests: Vec::new(),
        reviewers: Vec::new(),
        is_unread: true,
        is_bookmarked: false,
        is_archived: false,
    }
}

#[test]
fn status_icon_maps_issue_states() {
    let mut item = sample_item(ItemType::Issue);
    assert_eq!(StatusIcon::for_item(&item), StatusIcon::IssueOpen);

    item.state = "closed".to_owned();
    assert_eq!(StatusIcon::for_item(&item), StatusIcon::IssueClosed);
}

#[test]
fn status_icon_maps_pull_request_states() {
    let mut item = sample_item(ItemType::PullRequest);
    assert_eq!(StatusIcon::for_item(&item), StatusIcon::PullRequestOpen);

    item.is_draft = Some(true);
    assert_eq!(StatusIcon::for_item(&item), StatusIcon::PullRequestDraft);

    item.is_draft = Some(false);
    item.state = "closed".to_owned();
    assert_eq!(StatusIcon::for_item(&item), StatusIcon::PullRequestClosed);

    item.is_merged = Some(true);
    assert_eq!(StatusIcon::for_item(&item), StatusIcon::PullRequestMerged);
}

#[test]
fn status_icon_labels_and_case() {
    let mut item = sample_item(ItemType::Issue);
    item.state = "CLOSED".to_owned();
    assert_eq!(StatusIcon::for_item(&item).label(), "Issue closed");
    assert_eq!(StatusIcon::PullRequestDraft.label(), "Pull request draft");
}

#[test]
fn refresh_status_reports_processed_and_changed_counts() {
    assert_eq!(
        refresh_status("Polling refresh", 51, 1, 0),
        "Polling refresh: processed 51 items; 1 changed."
    );
}

#[test]
fn refresh_status_reports_failures_with_processed_and_changed_counts() {
    assert_eq!(
        refresh_status("Polling refresh", 51, 1, 2),
        "Polling refresh: processed 51 items; 1 changed; 2 query refreshes failed."
    );
}

#[test]
fn refresh_results_add_up() {
    let results = vec![
        Ok(RefreshStats {
            processed_count: 10,
            changed_count: 2,
            changed_item_ids: vec![5, 3],
        }),
        Err("network".to_owned()),
        Ok(RefreshStats {
            processed_count: 4,
            changed_count: 1,
            changed_item_ids: vec![3, 9],
        }),
    ];

    let outcome = summarize_refresh("Manual refresh".to_owned(), &results);

    assert_eq!(outcome.processed_count, 14);
    assert_eq!(outcome.changed_count, 3);
    assert_eq!(outcome.failed_count, 1);
    assert_eq!(outcome.changed_item_ids, vec![3, 5, 9]);
}

fn saved_query(id: i64, name: &str, enabled: bool, streams: Vec<FilterStream>) -> SavedQuery {
    SavedQuery {
        id,
        name: name.to_owned(),
        query: "is:pr".to_owned(),
        source: StreamSource::IssueOrPullRequest,
        enabled,
        position: id,
        unread_count: 0,
        filter_streams: streams,
    }
}

fn filter_stream(id: i64, saved_query_id: i64) -> FilterStream {
    FilterStream {
        id,
        saved_query_id,
        name: format!("Stream {id}"),
        filter_query: "is:open".to_owned(),
        enabled: true,
        position: 0,
        unread_count: 0,
    }
}

#[test]
fn refresh_scope_follows_the_selection() {
    let queries = vec![
        saved_query(1, "One", true, Vec::new()),
        saved_query(2, "Two", true, vec![filter_stream(20, 2)]),
    ];

    assert_eq!(refresh_scope(Selection::Library(LibraryView::Inbox), &queries).len(), 2);
    assert_eq!(refresh_scope(Selection::SavedQuery(2), &queries)[0].name, "Two");
    assert_eq!(refresh_scope(Selection::FilterStream(20), &queries)[0].id, 2);
    assert!(refresh_scope(Selection::SavedQuery(3), &queries).is_empty());
}

fn runtime(items: Vec<StreamItem>, saved_queries: Vec<SavedQuery>) -> Runtime {
    Runtime {
        config: AppConfig::default_with_pat("token".to_owned()),
        host_id: 1,
        library_counts: LibraryCounts::default(),
        saved_queries,
        items,
    }
}

fn main_app(items: Vec<StreamItem>, saved_queries: Vec<SavedQuery>) -> GhStreamApp {
    GhStreamApp::start(
        Ok(Ok(runtime(items, saved_queries))),
        StreamState::new(SavedQueryManagerState::new("saved-queries.yml".to_owned())),
    )
}

#[test]
fn status_history_keeps_recent_messages() {
    let mut app = main_app(vec![sample_item(ItemType::Issue)], Vec::new());

    for index in 0..=STATUS_HISTORY_LIMIT {
        replace_status(
            &mut app.status,
            &mut app.status_history,
            format!("Status {index}"),
        );
    }

    assert_eq!(app.status, format!("Status {STATUS_HISTORY_LIMIT}"));
    assert_eq!(app.status_history.len(), STATUS_HISTORY_LIMIT);
    assert_eq!(app.status_history.first().unwrap().message, "Status 1");
    assert_eq!(
        app.status_history.last().unwrap().message,
        format!("Status {STATUS_HISTORY_LIMIT}")
    );
}

#[test]
fn starting_without_configuration_asks_for_setup() {
    let stream = StreamState::new(SavedQueryManagerState::new(String::new()));
    let app = GhStreamApp::start(
        Err(ConfigError::Read {
            message: "not found".to_owned(),
            not_found: true,
        }),
        stream,
    );

    assert!(matches!(app.mode, AppMode::Setup { previous_runtime: None }));
    assert_eq!(app.status, "First-run setup required. No config.yml exists yet.");

    let stream = StreamState::new(SavedQueryManagerState::new(String::new()));
    let app = GhStreamApp::start(Ok(Err("locked".to_owned())), stream);
    assert_eq!(app.status, "Database initialization failed: locked");
}

#[test]
fn deleting_the_selected_query_selects_the_inbox() {
    let mut app = main_app(
        Vec::new(),
        vec![saved_query(1, "One", true, vec![filter_stream(10, 1)])],
    );
    app.stream.select(Selection::FilterStream(10));
    app.stream.reset_item_list_scroll = false;

    app.query_deleted(1, Ok(()));

    assert_eq!(app.stream.selection, Selection::Library(LibraryView::Inbox));
    assert!(app.stream.reset_item_list_scroll);
    assert_eq!(app.status, "Saved query deleted.");

    app.stream.select(Selection::FilterStream(10));
    app.filter_stream_deleted(10, Ok(()));
    assert_eq!(app.stream.selection, Selection::SavedQuery(1));
    assert_eq!(app.status_history.last().unwrap().level, StatusLevel::Info);
}

#[test]
fn imports_select_the_first_query_and_report_the_count() {
    let mut app = main_app(Vec::new(), vec![saved_query(4, "Four", true, Vec::new())]);

    app.queries_imported("/tmp/queries.yml", 1, &vec![4]);

    assert_eq!(app.stream.selection, Selection::SavedQuery(4));
    assert!(app.stream.saved_query_manager.open);
    assert_eq!(app.stream.saved_query_manager.edit_name, "Four");
    assert_eq!(
        app.status,
        "Imported 1 saved query from /tmp/queries.yml. Refresh to rebuild matches."
    );

    app.queries_imported("/tmp/queries.yml", 2, &Vec::new());
    assert_eq!(app.stream.selection, Selection::Library(LibraryView::Inbox));
    assert_eq!(
        app.status,
        "Imported 2 saved queries from /tmp/queries.yml. Refresh to rebuild matches."
    );
}

#[test]
fn refreshes_start_once_and_report_when_done() {
    let mut app = main_app(Vec::new(), Vec::new());

    assert!(!app.start_refresh("Manual refresh", 0));
    assert_eq!(app.status, "Manual refresh: no saved queries to refresh.");
    assert!(app.start_refresh("Manual refresh", 2));
    assert_eq!(app.status, "Manual refresh: refreshing...");
    assert!(!app.start_refresh("Polling refresh", 2));

    let outcome = summarize_refresh("Manual refresh".to_owned(), &vec![Ok(RefreshStats {
        processed_count: 3,
        changed_count: 1,
        changed_item_ids: vec![1],
    })]);
    assert_eq!(app.finish_refresh(&outcome), (true, true));
    assert!(!app.refresh_in_progress);
    assert_eq!(app.status, "Manual refresh: processed 3 items; 1 changed.");
}

fn dated_item(id: i64, updated: &str) -> StreamItem {
    let mut item = sample_item(ItemType::Issue);
    item.id = id;
    item.updated_at_github = updated.to_owned();
    item
}

#[test]
fn views_are_newest_first() {
    let items = vec![
        dated_item(1, "2026-05-22T00:00:00Z"),
        dated_item(2, "2026-05-24T00:00:00Z"),
        dated_item(3, "2026-05-23T23:00:00-02:00"),
    ];

    let sorted = sort_view_items(items, SortOrder::UpdatedDesc);

    assert_eq!(sorted.iter().map(|i| i.id).collect::<Vec<_>>(), vec![3, 2, 1]);
    assert_eq!(
        compare_items(&sorted[0], &sorted[1], SortOrder::UpdatedDesc),
        std::cmp::Ordering::Less
    );
}

#[test]
fn changed_items_are_patched_into_the_view() {
    let mut items = vec![
        dated_item(1, "2026-05-22T00:00:00Z"),
        dated_item(2, "2026-05-21T00:00:00Z"),
    ];
    let fresh = dated_item(2, "2026-05-25T00:00:00Z");

    patch_current_items(&mut items, vec![fresh], SortOrder::UpdatedDesc);

    assert_eq!(items[0].id, 2);
    assert_eq!(items[0].updated_at_github, "2026-05-25T00:00:00Z");

    let mut app = main_app(
        vec![dated_item(1, "2026-05-22T00:00:00Z")],
        Vec::new(),
    );
    let follow_up = app.changed_items_loaded(&vec![99], Ok(vec![dated_item(99, "2026-05-24T00:00:00Z")]));
    assert_eq!(follow_up, ViewFollowUp::ReloadView);
    let follow_up = app.changed_items_loaded(&vec![1], Ok(vec![dated_item(1, "2026-05-26T00:00:00Z")]));
    assert_eq!(follow_up, ViewFollowUp::Nothing);
    if let AppMode::Main(runtime) = &app.mode {
        assert_eq!(runtime.items[0].updated_at_github, "2026-05-26T00:00:00Z");
    } else {
        panic!("app should be in main mode");
    }
}

#[test]
fn saved_queries_move_within_their_group() {
    let queries = vec![
        saved_query(1, "One", true, Vec::new()),
        saved_query(2, "Two", false, Vec::new()),
        saved_query(3, "Three", true, Vec::new()),
    ];
    let mut state = SavedQueryManagerState::new(String::new());
    ghtl::app::manager::load_query_draft(&mut state, &queries[2]);

    assert!(can_move_selected_query(&queries, &state, true));
    assert!(!can_move_selected_query(&queries, &state, false));
    ghtl::app::manager::load_query_draft(&mut state, &queries[1]);
    assert!(!can_move_selected_query(&queries, &state, true));
    assert!(!can_move_selected_query(&queries, &state, false));
}

#[test]
fn formats_relative_times() {
    fn ago(secs: i64) -> String {
        let dt = chrono::Utc::now() - chrono::Duration::seconds(secs);
        ghtl::app::relative_time::format(&dt.to_rfc3339())
    }

    assert_eq!(ago(30), "just now");
    assert_eq!(ago(90), "1 min ago");
    assert_eq!(ago(7200), "2 hours ago");
    assert_eq!(ago(86_400 * 3), "3 days ago");
    assert_eq!(ago(86_400 * 60), "2 months ago");
    assert_eq!(ago(86_400 * 400), "1 years ago");
}

#[test]
fn falls_back_for_invalid_input() {
    assert_eq!(ghtl::app::relative_time::format("not-a-date"), "not-a-date");
}

#[test]
fn app_title_is_hello_world() {
    assert_eq!(APP_TITLE, "Hello World");
}

#[test]
fn app_can_be_constructed() {
    let _app = HelloWorldApp;
}

#[test]
fn setup_form_checks_and_saves_the_host() {
    let mut state = SetupState::default();
    state.pat = "ghp_token".to_owned();
    test_setup(&mut state);
    assert_eq!(
        state.validation_message,
        "Configuration is valid. REST: https://api.github.com/ GraphQL: https://api.github.com/graphql"
    );

    state.kind = HostKind::Ghes;
    state.hostname = " ghe.example.test ".to_owned();
    state.rest_api_base_path = "api/v3".to_owned();
    test_setup(&mut state);
    assert_eq!(
        state.validation_message,
        "Configuration is valid. REST: https://ghe.example.test/api/v3/ GraphQL: https://ghe.example.test/api/graphql"
    );
    let saved = save_setup(&mut state).expect("valid setup");
    assert_eq!(saved.host.hostname, "ghe.example.test");
    assert_eq!(saved.host.rest_api_base_path, "/api/v3/");
    assert_eq!(saved.auth.pat, "ghp_token");

    state.pat = "   ".to_owned();
    assert!(save_setup(&mut state).is_none());
    assert_eq!(
        state.validation_message,
        "configuration is invalid: auth.pat must not be empty"
    );
}

#[test]
fn local_filter_input_collects_distinct_terms() {
    let mut stream = StreamState::new(SavedQueryManagerState::new(String::new()));
    stream.add_local_filter_input_term("is:unread");
    assert_eq!(stream.local_filter_input, "is:unread");
    stream.local_filter_input = " is:unread  ".to_owned();
    stream.add_local_filter_input_term("is:unread");
    assert_eq!(stream.local_filter_input, " is:unread  ");
    stream.add_local_filter_input_term("label:bug");
    assert_eq!(stream.local_filter_input, "is:unread label:bug");

    assert_eq!(normalize_local_filter(Some("  bug ".to_owned())).as_deref(), Some("bug"));
    assert_eq!(normalize_local_filter(Some("   ".to_owned())), None);
    assert_eq!(normalize_local_filter(None), None);
    stream.apply_local_filter(Some("bug".to_owned()));
    assert_eq!(stream.local_filter.as_deref(), Some("bug"));
    assert_eq!(stream.local_filter_input, "bug");
    stream.apply_local_filter(None);
    assert_eq!(stream.local_filter_input, "");
}

fn person(login: &str) -> ItemPerson {
    ItemPerson {
        login: login.to_owned(),
        avatar_url: None,
    }
}

fn review(login: &str, state: &str) -> ItemReview {
    ItemReview {
        login: login.to_owned(),
        avatar_url: None,
        state: state.to_owned(),
    }
}

#[test]
fn requested_people_who_reviewed_are_not_shown_as_pending() {
    let reviewers = vec![review("alice", "approved"), review("carol", "commented")];
    let requests = vec![person("alice"), person("bob")];

    let reviewed = reviewed_logins(&reviewers, &requests).expect("both lists are present");
    assert_eq!(reviewed, vec!["alice".to_owned(), "carol".to_owned()]);
    assert!(is_reviewed_login(Some(&reviewed), "alice"));
    assert!(!is_reviewed_login(Some(&reviewed), "bob"));
    assert!(!is_reviewed_login(None, "alice"));
    assert_eq!(reviewed_logins(&reviewers, &Vec::new()), None);
    assert_eq!(reviewed_logins(&Vec::new(), &requests), None);

    assert_eq!(pending_review_requests(&reviewers, &requests), vec![person("bob")]);
    assert_eq!(pending_review_requests(&Vec::new(), &requests), requests);
}

#[test]
fn the_manager_opens_on_what_is_selected() {
    let queries = vec![
        saved_query(1, "One", true, Vec::new()),
        saved_query(2, "Two", false, vec![filter_stream(20, 2)]),
    ];

    // The selected saved query.
    let mut app = main_app(Vec::new(), queries.clone());
    app.stream.selection = Selection::SavedQuery(2);
    app.stream.saved_query_manager.transfer_open = true;
    app.open_saved_query_manager();
    let manager = &app.stream.saved_query_manager;
    assert!(manager.open);
    assert!(!manager.transfer_open);
    assert_eq!(manager.edit_kind, EditKind::SavedQuery);
    assert_eq!(manager.edit_saved_query_id, Some(2));
    assert_eq!(manager.edit_filter_stream_id, None);
    assert_eq!(manager.edit_name, "Two");
    assert_eq!(manager.edit_text, "is:pr");
    assert!(!manager.edit_enabled);
    assert_eq!(app.stream.selection, Selection::SavedQuery(2));

    // The selected filter stream, with its saved query.
    let mut app = main_app(Vec::new(), queries.clone());
    app.stream.selection = Selection::FilterStream(20);
    app.open_saved_query_manager();
    let manager = &app.stream.saved_query_manager;
    assert_eq!(manager.edit_kind, EditKind::FilterStream);
    assert_eq!(manager.edit_saved_query_id, Some(2));
    assert_eq!(manager.edit_filter_stream_id, Some(20));
    assert_eq!(manager.edit_name, "Stream 20");
    assert_eq!(manager.edit_text, "is:open");

    // Nothing selected: the first saved query while the form is empty,
    // and the form as it is otherwise.
    let mut app = main_app(Vec::new(), queries);
    app.open_saved_query_manager();
    assert_eq!(app.stream.saved_query_manager.edit_saved_query_id, Some(1));
    app.stream.saved_query_manager.edit_name = "Draft".to_owned();
    app.stream.saved_query_manager.edit_saved_query_id = None;
    app.open_saved_query_manager();
    assert_eq!(app.stream.saved_query_manager.edit_name, "Draft");
    assert_eq!(app.stream.saved_query_manager.edit_saved_query_id, None);
}
