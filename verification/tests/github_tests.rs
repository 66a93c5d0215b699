use ghtl::github::client::sanitize_error_message;
use ghtl::github::discussion::{
    discussion_search_query, parse_search_response, DiscussionAuthor, DiscussionNode,
    DiscussionResponse,
};
use ghtl::github::graphql::{
    derive_review_signal, enrichment_batches, parse_item_enrichment, Comments, CommentNode,
    EnrichedNode, EnrichmentProgress, GraphqlData, GraphqlError, GraphqlResponse, LatestReviews,
    Participants, ReviewNode, ReviewRequestNode, ReviewRequests, ReviewSignal, UserRef,
};
use ghtl::github::mentions::collect_mentions_from_text;
use ghtl::github::project::{
    latest_timestamp, normalize_state, parse_project_items_response, parse_project_locator,
    parse_project_url, project_preview_url, project_url, Project, ProjectData, ProjectItem, ProjectItemContent, ProjectItems,
    ProjectLabel, ProjectLocator, ProjectOwner, ProjectRequest, ProjectResponse, ProjectScan,
    ProjectUser, PROJECT_BY_ORG_QUERY, PROJECT_ITEMS_FRAGMENT,
};
use ghtl::github::rest::{api_url, search_sort_query, search_items_to_upserts, SearchItem, SearchLabel, SearchUser};
use ghtl::github::{FetchedStreamItem, GitHubError};
use ghtl::models::config::{AppConfig, HostKind, SortOrder};
use ghtl::models::stream_item::{ItemPerson, ItemReview, ItemType};

fn s(text: &str) -> String {
    text.to_owned()
}

fn pull_request_node(
    review_decision: Option<&str>,
    review_request_count: i64,
    review_states: Vec<&str>,
) -> EnrichedNode {
    EnrichedNode {
        id: s("PR_kwDO"),
        body: String::new(),
        is_draft: Some(false),
        merged: Some(false),
        merged_at: None,
        review_decision: review_decision.map(|d| d.to_owned()),
        review_requests: ReviewRequests {
            total_count: review_request_count,
            nodes: Vec::new(),
        },
        latest_reviews: LatestReviews {
            nodes: review_states
                .into_iter()
                .map(|state| ReviewNode {
                    state: state.to_owned(),
                    body: String::new(),
                    author: None,
                })
                .collect(),
        },
        participants: Participants::default(),
        comments: Comments::default(),
    }
}

#[test]
fn sanitized_errors_do_not_include_pat() {
    assert_eq!(
        sanitize_error_message("failed with ghp_secret", "ghp_secret"),
        "failed with <redacted>"
    );
}

#[test]
fn derives_changes_requested_from_review_decision() {
    let node = pull_request_node(Some("CHANGES_REQUESTED"), 0, Vec::new());

    assert_eq!(derive_review_signal(&node), ReviewSignal::ChangesRequested);
}

#[test]
fn derives_review_required_from_review_requests() {
    let node = pull_request_node(None, 1, Vec::new());

    assert_eq!(derive_review_signal(&node), ReviewSignal::ReviewRequired);
}

#[test]
fn derives_changes_requested_from_a_latest_review() {
    let node = pull_request_node(Some("APPROVED"), 0, vec!["COMMENTED", "CHANGES_REQUESTED_EVENT"]);

    assert_eq!(derive_review_signal(&node), ReviewSignal::ChangesRequested);
}

#[test]
fn derives_no_signal_without_decision_or_requests() {
    let node = pull_request_node(None, 0, vec!["COMMENTED"]);

    assert_eq!(derive_review_signal(&node), ReviewSignal::NoSignal);
    assert_eq!(ReviewSignal::NoSignal.as_db_value(), "none");
    assert_eq!(ReviewSignal::ReviewRequired.as_db_value(), "review_required");
}

fn enrichment_response() -> GraphqlResponse {
    let user = |login: &str, n: u32| UserRef {
        login: Some(login.to_owned()),
        avatar_url: Some(format!("https://avatars.githubusercontent.com/u/{n}?v=4")),
    };
    GraphqlResponse {
        data: Some(GraphqlData {
            nodes: vec![Some(EnrichedNode {
                id: s("PR_kwDO"),
                body: s("Ping @octo and @release-team."),
                is_draft: Some(true),
                merged: Some(false),
                merged_at: None,
                review_decision: Some(s("REVIEW_REQUIRED")),
                review_requests: ReviewRequests {
                    total_count: 2,
                    nodes: vec![ReviewRequestNode {
                        requested_reviewer: Some(user("octo", 1)),
                    }],
                },
                latest_reviews: LatestReviews {
                    nodes: vec![ReviewNode {
                        state: s("COMMENTED"),
                        body: s("Looks good to me @review-ally"),
                        author: Some(user("writer", 2)),
                    }],
                },
                participants: Participants {
                    nodes: vec![user("participant", 3)],
                },
                comments: Comments {
                    nodes: vec![CommentNode {
                        body: s("Following up with @comment-ally"),
                        author: Some(user("commenter", 4)),
                    }],
                },
            })],
        }),
        errors: None,
    }
}

#[test]
fn parses_graphql_enrichment() {
    let config = AppConfig::default_with_pat(s("token"));

    let enrichments =
        parse_item_enrichment(&config.host, &enrichment_response()).expect("graphql response");
    let enrichment = &enrichments
        .iter()
        .find(|(id, _)| id == "PR_kwDO")
        .expect("enrichment")
        .1;

    assert_eq!(enrichment.is_draft, Some(true));
    assert_eq!(enrichment.merged, Some(false));
    assert_eq!(enrichment.review_status, Some(ReviewSignal::ReviewRequired));
    assert_eq!(
        enrichment.review_requests,
        vec![ItemPerson {
            login: s("octo"),
            avatar_url: Some(s("https://avatars.githubusercontent.com/u/1?v=4"))
        }]
    );
    assert_eq!(
        enrichment.reviewers,
        vec![ItemReview {
            login: s("writer"),
            avatar_url: Some(s("https://avatars.githubusercontent.com/u/2?v=4")),
            state: s("commented")
        }]
    );
    assert_eq!(
        enrichment.participants,
        vec![
            ItemPerson {
                login: s("commenter"),
                avatar_url: Some(s("https://avatars.githubusercontent.com/u/4?v=4"))
            },
            ItemPerson {
                login: s("participant"),
                avatar_url: Some(s("https://avatars.githubusercontent.com/u/3?v=4"))
            },
            ItemPerson {
                login: s("writer"),
                avatar_url: Some(s("https://avatars.githubusercontent.com/u/2?v=4"))
            }
        ]
    );
    assert_eq!(
        enrichment.mentions,
        vec![s("comment-ally"), s("octo"), s("release-team"), s("review-ally")]
    );
}

#[test]
fn enrichment_errors_are_joined() {
    let config = AppConfig::default_with_pat(s("token"));
    let response = GraphqlResponse {
        data: None,
        errors: Some(vec![
            GraphqlError { message: s("first") },
            GraphqlError { message: s("second") },
        ]),
    };

    match parse_item_enrichment(&config.host, &response) {
        Err(GitHubError::Parse { host, message }) => {
            assert_eq!(host, "GitHub.com");
            assert_eq!(message, "first; second");
        }
        other => panic!("unexpected {other:?}"),
    }
}

#[test]
fn participants_are_deduplicated_ignoring_case() {
    let mut response = enrichment_response();
    if let Some(data) = response.data.as_mut() {
        if let Some(node) = data.nodes[0].as_mut() {
            node.participants.nodes.push(UserRef {
                login: Some(s("Writer")),
                avatar_url: None,
            });
        }
    }
    let config = AppConfig::default_with_pat(s("token"));
    let enrichments = parse_item_enrichment(&config.host, &response).expect("graphql response");
    let logins = enrichments[0]
        .1
        .participants
        .iter()
        .map(|p| p.login.clone())
        .collect::<Vec<_>>();

    assert_eq!(logins, vec![s("commenter"), s("participant"), s("Writer")]);
    assert_eq!(
        enrichments[0].1.participants[2].avatar_url.as_deref(),
        Some("https://avatars.githubusercontent.com/u/2?v=4")
    );
}

#[test]
fn extracts_mentions_from_plain_text() {
    let mut mentions = Vec::new();

    collect_mentions_from_text(
        "Thanks @octo-team, cc @dev-1. Skip email@example.com and trailing @dash-.",
        &mut mentions,
    );

    mentions.sort();
    assert_eq!(mentions, vec!["dev-1".to_owned(), "octo-team".to_owned()]);
}

#[test]
fn mentions_are_lowercased_and_kept_once() {
    let mut mentions = Vec::new();

    collect_mentions_from_text("@Octo and @octo, then (@OCTO)", &mut mentions);

    assert_eq!(mentions, vec![s("octo")]);
}

fn fetched(node_id: Option<&str>, item_type: ItemType) -> FetchedStreamItem {
    FetchedStreamItem {
        node_id: node_id.map(|id| id.to_owned()),
        repository_owner: s("acme"),
        repository_name: s("project"),
        number: 1,
        item_type,
        title: s("Title"),
        author_login: None,
        author_avatar_url: None,
        html_url: s("https://github.com/acme/project/pull/1"),
        api_url: None,
        state: s("open"),
        is_draft: None,
        is_merged: None,
        review_status: Some(s("unknown")),
        comment_count: 0,
        created_at_github: s("2026-05-22T00:00:00Z"),
        updated_at_github: s("2026-05-23T00:00:00Z"),
        closed_at_github: None,
        merged_at_github: None,
        labels: Vec::new(),
        assignees: Vec::new(),
        review_requests: Vec::new(),
        reviewers: Vec::new(),
        participants: Vec::new(),
        mentions: Vec::new(),
        graphql_enriched: false,
    }
}

#[test]
fn enrichment_batches_hold_each_id_once_in_requests_of_fifty() {
    let mut items = Vec::new();
    for index in 0..120 {
        items.push(fetched(Some(&format!("ID_{index}")), ItemType::Issue));
    }
    items.push(fetched(Some("ID_3"), ItemType::Issue));
    items.push(fetched(None, ItemType::Issue));

    let batches = enrichment_batches(&items);

    assert_eq!(batches.len(), 3);
    assert_eq!(batches[0].len(), 50);
    assert_eq!(batches[1].len(), 50);
    assert_eq!(batches[2].len(), 20);
    assert_eq!(batches[0][0], "ID_0");
    assert_eq!(batches[2][19], "ID_119");
}

#[test]
fn enrichment_is_applied_to_answered_items_only() {
    let config = AppConfig::default_with_pat(s("token"));
    let found = parse_item_enrichment(&config.host, &enrichment_response()).expect("answer");
    let mut progress = EnrichmentProgress::new();
    progress.record(Ok(found));
    progress.record(Err(GitHubError::NotImplemented));
    progress.record(Err(GitHubError::Authentication { host: s("later") }));
    let mut items = vec![
        fetched(Some("PR_kwDO"), ItemType::PullRequest),
        fetched(Some("PR_missing"), ItemType::PullRequest),
        fetched(None, ItemType::PullRequest),
    ];
    items[1].review_status = None;
    items[2].review_status = None;

    let result = progress.finish(&mut items);

    assert!(matches!(result, Err(GitHubError::NotImplemented)));
    assert!(items[0].graphql_enriched);
    assert_eq!(items[0].is_draft, Some(true));
    assert_eq!(items[0].review_status.as_deref(), Some("review_required"));
    assert_eq!(items[0].mentions.len(), 4);
    assert_eq!(items[1].review_status.as_deref(), Some("unknown"));
    assert!(!items[1].graphql_enriched);
    assert_eq!(items[2].review_status, None);
}

#[test]
fn parses_org_project_locator() {
    let config = AppConfig::default_with_pat(s("token"));

    assert_eq!(
        parse_project_locator(&config.host, "org:acme number:7").expect("locator"),
        ProjectLocator::Organization {
            owner: s("acme"),
            number: 7
        }
    );
}

#[test]
fn parses_org_project_url_for_locator_and_preview() {
    let config = AppConfig::default_with_pat(s("token"));

    assert_eq!(
        parse_project_locator(&config.host, "https://github.com/orgs/aws/projects/244")
            .expect("locator"),
        ProjectLocator::Organization {
            owner: s("aws"),
            number: 244
        }
    );
    assert_eq!(
        project_preview_url(&config.host, "org:aws number:244").expect("preview url"),
        "https://github.com/orgs/aws/projects/244"
    );
}

#[test]
fn project_urls_parse_back_to_their_locators() {
    let mut config = AppConfig::default_with_pat(s("token"));
    let user = ProjectLocator::User {
        owner: s("octo"),
        number: -3,
    };
    let url = project_url(&config.host, &user).expect("user project url");
    assert_eq!(url, "https://github.com/users/octo/projects/-3");
    assert_eq!(parse_project_url(&url), Some(user));

    config.host.kind = HostKind::Ghes;
    config.host.hostname = s("ghe.example.test");
    let org = ProjectLocator::Organization {
        owner: s("acme-inc"),
        number: 0,
    };
    let url = project_url(&config.host, &org).expect("org project url");
    assert_eq!(url, "https://ghe.example.test/orgs/acme-inc/projects/0");
    assert_eq!(parse_project_url(&url), Some(org));

    // An owner with a slash in it is not one path segment.
    let nested = ProjectLocator::Organization {
        owner: s("a/b"),
        number: 1,
    };
    let url = project_url(&config.host, &nested).expect("nested project url");
    assert_eq!(url, "https://ghe.example.test/orgs/a/b/projects/1");
    assert_eq!(parse_project_url(&url), None);
}

#[test]
fn project_locators_of_every_kind() {
    let config = AppConfig::default_with_pat(s("token"));

    assert_eq!(
        parse_project_locator(&config.host, "  PVT_kwDOABC  ").expect("node id"),
        ProjectLocator::NodeId(s("PVT_kwDOABC"))
    );
    assert_eq!(
        parse_project_locator(&config.host, "node:PVT_1").expect("node"),
        ProjectLocator::NodeId(s("PVT_1"))
    );
    assert_eq!(
        parse_project_locator(&config.host, "user:octo number:3").expect("user"),
        ProjectLocator::User {
            owner: s("octo"),
            number: 3
        }
    );
    assert_eq!(
        parse_project_locator(&config.host, "http://ghe.test//users/octo/projects/12/views/1")
            .expect("url"),
        ProjectLocator::User {
            owner: s("octo"),
            number: 12
        }
    );
    for bad in ["", "org:acme", "org:acme number:0", "org:acme user:octo number:2", "a b"] {
        match parse_project_locator(&config.host, bad) {
            Err(GitHubError::Parse { message, .. }) => assert_eq!(
                message,
                "project query must be one of: node:PROJECT_ID, org:OWNER number:N, user:OWNER number:N"
            ),
            other => panic!("{bad:?} gave {other:?}"),
        }
    }
    match project_preview_url(&config.host, "node:PVT_1") {
        Err(GitHubError::Parse { message, .. }) => assert_eq!(
            message,
            "project node IDs cannot be previewed as a GitHub project URL"
        ),
        other => panic!("unexpected {other:?}"),
    }
}

fn project_content(typename: &str, state: &str, repository: &str) -> ProjectItemContent {
    ProjectItemContent {
        typename: s(typename),
        id: s("I_1"),
        number: 10,
        title: s("Track project work"),
        url: s("https://github.com/acme/project/issues/10"),
        state: s(state),
        is_draft: None,
        merged: None,
        merged_at: None,
        created_at: s("2026-05-22T00:00:00Z"),
        updated_at: s("2026-05-23T00:00:00Z"),
        closed_at: None,
        comment_count: 2,
        repository_name_with_owner: s(repository),
        author: Some(ProjectUser {
            login: s("octo"),
            avatar_url: None,
        }),
        labels: vec![Some(ProjectLabel { name: s("project") })],
        assignees: vec![Some(ProjectUser {
            login: s("dev"),
            avatar_url: Some(s("https://avatars.githubusercontent.com/u/2?v=4")),
        })],
    }
}

#[test]
fn parses_project_items_into_issue_and_pull_request_stream_items() {
    let config = AppConfig::default_with_pat(s("token"));
    let mut pull_request = project_content("PullRequest", "MERGED", "acme/project");
    pull_request.id = s("PR_1");
    pull_request.number = 11;
    pull_request.is_draft = Some(false);
    pull_request.merged = Some(true);
    pull_request.merged_at = Some(s("2026-05-25T00:00:00Z"));
    pull_request.closed_at = Some(s("2026-05-25T00:00:00Z"));
    pull_request.comment_count = 4;
    pull_request.author = None;
    pull_request.labels = Vec::new();
    pull_request.assignees = Vec::new();
    let response = ProjectResponse {
        data: Some(ProjectData {
            node: None,
            organization: Some(ProjectOwner {
                project_v2: Some(Project {
                    items: Some(ProjectItems {
                        has_next_page: false,
                        end_cursor: None,
                        nodes: vec![
                            Some(ProjectItem {
                                is_archived: false,
                                updated_at: s("2026-05-24T00:00:00Z"),
                                content: Some(project_content("Issue", "OPEN", "acme/project")),
                            }),
                            Some(ProjectItem {
                                is_archived: false,
                                updated_at: s("2026-05-25T00:00:00Z"),
                                content: Some(pull_request),
                            }),
                            Some(ProjectItem {
                                is_archived: false,
                                updated_at: s("2026-05-25T00:00:00Z"),
                                content: None,
                            }),
                        ],
                    }),
                }),
            }),
            user: None,
        }),
        errors: None,
    };

    let page = parse_project_items_response(
        &config.host,
        &ProjectLocator::Organization {
            owner: s("acme"),
            number: 7,
        },
        response,
    )
    .expect("project items");

    assert_eq!(page.items.len(), 2);
    assert_eq!(page.items[0].item_type, ItemType::Issue);
    assert_eq!(page.items[0].updated_at_github, "2026-05-24T00:00:00+00:00");
    assert_eq!(page.items[0].labels, vec!["project".to_owned()]);
    assert_eq!(page.items[0].assignees[0].login, "dev");
    assert_eq!(page.items[1].item_type, ItemType::PullRequest);
    assert_eq!(page.items[1].state, "closed");
    assert_eq!(page.items[1].is_merged, Some(true));
}

#[test]
fn project_items_with_unnamed_repository_fail_the_page() {
    let config = AppConfig::default_with_pat(s("token"));
    let response = ProjectResponse {
        data: Some(ProjectData {
            node: Some(Project {
                items: Some(ProjectItems {
                    has_next_page: true,
                    end_cursor: Some(s("c")),
                    nodes: vec![Some(ProjectItem {
                        is_archived: false,
                        updated_at: s("2026-05-24T00:00:00Z"),
                        content: Some(project_content("Issue", "OPEN", "no-owner")),
                    })],
                }),
            }),
            organization: None,
            user: None,
        }),
        errors: None,
    };

    match parse_project_items_response(&config.host, &ProjectLocator::NodeId(s("P")), response) {
        Err(GitHubError::Parse { message, .. }) => assert_eq!(
            message,
            "project item repository name did not include owner and repository"
        ),
        other => panic!("unexpected {other:?}"),
    }
}

#[test]
fn latest_timestamp_compares_instants() {
    assert_eq!(
        latest_timestamp("2026-05-23T00:00:00Z", "2026-05-24T02:00:00+02:00"),
        "2026-05-24T00:00:00+00:00"
    );
    assert_eq!(
        latest_timestamp("2026-05-25T00:00:00Z", "2026-05-24T00:00:00Z"),
        "2026-05-25T00:00:00+00:00"
    );
    assert_eq!(latest_timestamp("b", "a"), "b");
    assert_eq!(latest_timestamp("not a date", "2026-05-24T00:00:00Z"), "not a date");
    assert_eq!(normalize_state("MERGED"), "closed");
    assert_eq!(normalize_state("OPEN"), "open");
}

#[test]
fn project_requests_and_paging() {
    let request = ProjectRequest::new(
        &ProjectLocator::Organization {
            owner: s("acme"),
            number: 7,
        },
        100,
        &Some(s("cursor")),
    );
    assert_eq!(
        request.query,
        format!("{PROJECT_BY_ORG_QUERY}\n{PROJECT_ITEMS_FRAGMENT}")
    );
    assert_eq!(request.variables.owner.as_deref(), Some("acme"));
    assert_eq!(request.variables.number, Some(7));
    assert_eq!(request.variables.project_id, None);
    assert_eq!(request.variables.after.as_deref(), Some("cursor"));

    let mut scan = ProjectScan::new();
    assert_eq!(scan.next_page_size(), Some(100));
    for _ in 0..4 {
        scan.record_page(ghtl::github::project::ProjectItemsPage {
            items: (0..100).map(|_| fetched(Some("X"), ItemType::Issue)).collect(),
            has_next_page: true,
            end_cursor: Some(s("next")),
        });
    }
    scan.record_page(ghtl::github::project::ProjectItemsPage {
        items: (0..60).map(|_| fetched(Some("X"), ItemType::Issue)).collect(),
        has_next_page: true,
        end_cursor: Some(s("next")),
    });
    assert_eq!(scan.next_page_size(), Some(40));
    scan.record_page(ghtl::github::project::ProjectItemsPage {
        items: Vec::new(),
        has_next_page: false,
        end_cursor: None,
    });
    assert_eq!(scan.next_page_size(), None);
}

#[test]
fn api_url_uses_normalized_rest_base_path() {
    let mut config = AppConfig::default_with_pat(s("token"));
    config.host.kind = HostKind::Ghes;
    config.host.hostname = s("ghe.example.test");
    config.host.rest_api_base_path = s("/api/v3/");

    assert_eq!(
        api_url(&config.host, "/user"),
        "https://ghe.example.test/api/v3/user"
    );
}

#[test]
fn parses_search_response_into_stream_items() {
    let config = AppConfig::default_with_pat(s("token"));
    let items = vec![SearchItem {
        url: s("https://api.github.com/repos/acme/project/issues/7"),
        repository_url: s("https://api.github.com/repos/acme/project"),
        html_url: s("https://github.com/acme/project/pull/7"),
        node_id: Some(s("PR_kwDO")),
        number: 7,
        title: s("Improve stream"),
        user: Some(SearchUser {
            login: s("octo"),
            avatar_url: Some(s("https://avatars.githubusercontent.com/u/1?v=4")),
        }),
        labels: vec![SearchLabel { name: s("enhancement") }],
        state: s("open"),
        assignees: vec![SearchUser {
            login: s("dev"),
            avatar_url: Some(s("https://avatars.githubusercontent.com/u/2?v=4")),
        }],
        comments: 5,
        created_at: s("2026-05-22T00:00:00Z"),
        updated_at: s("2026-05-23T00:00:00Z"),
        closed_at: None,
        draft: Some(false),
        is_pull_request: true,
    }];

    let items = search_items_to_upserts(&config.host, 10, items).expect("search response");

    assert_eq!(items.len(), 1);
    assert_eq!(items[0].repository_owner, "acme");
    assert_eq!(items[0].repository_name, "project");
    assert_eq!(items[0].item_type, ItemType::PullRequest);
    assert_eq!(items[0].review_status.as_deref(), Some("unknown"));
    assert_eq!(
        items[0].author_avatar_url.as_deref(),
        Some("https://avatars.githubusercontent.com/u/1?v=4")
    );
    assert_eq!(items[0].labels, vec!["enhancement"]);
    assert_eq!(
        items[0].assignees,
        vec![ItemPerson {
            login: s("dev"),
            avatar_url: Some(s("https://avatars.githubusercontent.com/u/2?v=4"))
        }]
    );
}

#[test]
fn parses_discussion_search_into_stream_items() {
    let config = AppConfig::default_with_pat(s("token"));
    let response = DiscussionResponse {
        nodes: Some(vec![Some(DiscussionNode {
            id: s("D_kwDO"),
            number: 12,
            title: s("Release feedback"),
            url: s("https://github.com/acme/project/discussions/12"),
            created_at: s("2026-05-22T00:00:00Z"),
            updated_at: s("2026-05-23T00:00:00Z"),
            repository_name_with_owner: s("acme/project"),
            author: Some(DiscussionAuthor {
                login: s("octo"),
                avatar_url: None,
            }),
            comment_count: 3,
        })]),
        errors: None,
    };

    let items = parse_search_response(&config.host, 10, &response).expect("discussion result");

    assert_eq!(items.len(), 1);
    assert_eq!(items[0].item_type, ItemType::Discussion);
    assert_eq!(items[0].repository_owner, "acme");
    assert_eq!(items[0].comment_count, 3);
}

#[test]
fn discussion_search_text_sorts_by_update() {
    assert_eq!(
        discussion_search_query("  repo:acme/project  "),
        "repo:acme/project sort:updated-desc"
    );
}

#[test]
fn search_sort_follows_the_default_sort() {
    assert_eq!(search_sort_query(SortOrder::UpdatedDesc), ("updated", "desc"));
    assert_eq!(search_sort_query(SortOrder::UpdatedAsc), ("updated", "asc"));
    assert_eq!(search_sort_query(SortOrder::CreatedDesc), ("created", "desc"));
    assert_eq!(search_sort_query(SortOrder::ReadDesc), ("updated", "desc"));
}
