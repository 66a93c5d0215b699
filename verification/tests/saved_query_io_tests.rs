use ghtl::models::config::AppConfig;
use ghtl::models::saved_query::{FilterStream, SavedQuery, StreamSource};
use ghtl::saved_query_io::{
    saved_query_document, validate_document, SavedFilterStreamDocumentEntry, SavedQueryDocument,
    SavedQueryDocumentEntry, SavedQueryIoError,
};

fn stream(name: &str, filter_query: &str, enabled: bool, position: i64) -> SavedFilterStreamDocumentEntry {
    SavedFilterStreamDocumentEntry {
        name: name.to_owned(),
        filter_query: filter_query.to_owned(),
        enabled,
        position,
    }
}

fn entry(
    name: &str,
    query: &str,
    enabled: bool,
    position: i64,
    filter_streams: Vec<SavedFilterStreamDocumentEntry>,
) -> SavedQueryDocumentEntry {
    SavedQueryDocumentEntry {
        name: name.to_owned(),
        query: query.to_owned(),
        enabled,
        position,
        filter_streams,
    }
}

fn document(rest_api_base_path: &str, queries: Vec<SavedQueryDocumentEntry>) -> SavedQueryDocument {
    let mut host = AppConfig::default_with_pat("token".to_owned()).host;
    host.rest_api_base_path = rest_api_base_path.to_owned();
    SavedQueryDocument {
        version: 1,
        host,
        queries,
    }
}

#[test]
fn read_saved_queries_normalizes_host_and_positions() {
    let doc = document(
        "api",
        vec![
            entry(
                " Review requested ",
                " is:pr review-requested:@me ",
                true,
                3,
                vec![
                    stream(" Assigned to me ", " assignee:@me ", true, 4),
                    stream("Team mentions", " mentions:my-org ", false, 2),
                ],
            ),
            entry("Mine", "is:pr author:@me", false, 1, Vec::new()),
        ],
    );

    let imported = validate_document(doc).expect("document should validate");

    let mut expected_host = AppConfig::default_with_pat("token".to_owned()).host;
    expected_host.rest_api_base_path = "/api/".to_owned();
    assert_eq!(imported.host, expected_host);
    assert_eq!(imported.queries[0].name, "Mine");
    assert_eq!(imported.queries[0].position, 0);
    assert_eq!(imported.queries[1].name, "Review requested");
    assert_eq!(imported.queries[1].query, "is:pr review-requested:@me");
    assert_eq!(imported.queries[1].position, 1);
    assert_eq!(imported.queries[1].filter_streams[0].name, "Team mentions");
    assert_eq!(imported.queries[1].filter_streams[0].position, 0);
    assert_eq!(imported.queries[1].filter_streams[1].name, "Assigned to me");
    assert_eq!(
        imported.queries[1].filter_streams[1].filter_query,
        "assignee:@me"
    );
    assert_eq!(imported.queries[1].filter_streams[1].position, 1);
}

#[test]
fn read_saved_queries_rejects_duplicate_names() {
    let doc = document(
        "/",
        vec![
            entry("Mine", "is:pr", true, 0, Vec::new()),
            entry(" Mine ", "is:issue", true, 1, Vec::new()),
        ],
    );

    let err = validate_document(doc).expect_err("duplicate names must fail");

    assert!(err.message().contains("duplicate saved query name"));
}

#[test]
fn read_saved_queries_rejects_duplicate_filter_stream_names() {
    let doc = document(
        "/",
        vec![entry(
            "Mine",
            "is:pr",
            true,
            0,
            vec![
                stream("Assigned", "assignee:@me", true, 0),
                stream(" Assigned ", "mentions:@me", true, 1),
            ],
        )],
    );

    let err = validate_document(doc).expect_err("duplicate filter stream names must fail");

    assert!(err
        .message()
        .contains("duplicate filter stream name in saved query"));
}

#[test]
fn rejects_other_versions_and_empty_fields() {
    let mut doc = document("/", Vec::new());
    doc.version = 2;
    match validate_document(doc) {
        Err(SavedQueryIoError::Validation(message)) => {
            assert_eq!(message, "unsupported saved query file version 2")
        }
        other => panic!("unexpected {other:?}"),
    }
    let doc = document("/", vec![entry("Mine", "   ", true, 0, Vec::new())]);
    assert!(validate_document(doc).is_err());
}

#[test]
fn exported_queries_import_back() {
    let host = AppConfig::default_with_pat("token".to_owned()).host;
    let queries = vec![
        SavedQuery {
            id: 7,
            name: "Review requested".to_owned(),
            query: "is:pr review-requested:@me".to_owned(),
            source: StreamSource::IssueOrPullRequest,
            enabled: true,
            position: 1,
            unread_count: 3,
            filter_streams: vec![FilterStream {
                id: 9,
                saved_query_id: 7,
                name: "Assigned".to_owned(),
                filter_query: "assignee:@me".to_owned(),
                enabled: false,
                position: 0,
                unread_count: 1,
            }],
        },
        SavedQuery {
            id: 8,
            name: "Mine".to_owned(),
            query: "is:pr author:@me".to_owned(),
            source: StreamSource::IssueOrPullRequest,
            enabled: false,
            position: 0,
            unread_count: 0,
            filter_streams: Vec::new(),
        },
    ];

    let doc = saved_query_document(&host, &queries);
    assert_eq!(doc.version, 1);
    let imported = validate_document(doc).expect("exported document imports");

    assert_eq!(imported.host, host);
    assert_eq!(imported.queries.len(), 2);
    assert_eq!(imported.queries[0].name, "Mine");
    assert_eq!(imported.queries[1].name, "Review requested");
    assert_eq!(imported.queries[1].filter_streams[0].name, "Assigned");
    assert!(!imported.queries[1].filter_streams[0].enabled);
}
