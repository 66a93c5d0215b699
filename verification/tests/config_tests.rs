use ghtl::config::{redact_pat, validate_config, ConfigError};
use ghtl::models::config::{AppConfig, HostConfig, HostKind, Scheme, SortOrder};
use ghtl::models::saved_query::StreamSource;

#[test]
fn normalizes_rest_base_path() {
    let mut config = AppConfig::default_with_pat("token".to_owned());
    config.host.kind = HostKind::Ghes;
    config.host.hostname = "ghe.example.test".to_owned();
    config.host.rest_api_base_path = "api/v3".to_owned();

    let normalized = validate_config(config).expect("config should be valid");

    assert_eq!(normalized.host.rest_api_base_path, "/api/v3/");
    assert_eq!(
        normalized.host.fingerprint(),
        "ghes|https|ghe.example.test|/api/v3/"
    );
}

#[test]
fn rejects_patless_config() {
    let err = validate_config(AppConfig::default_with_pat(" ".to_owned()))
        .expect_err("missing PAT must be rejected");

    assert!(err.message().contains("auth.pat"));
}

#[test]
fn validation_errors_name_the_rule() {
    let mut config = AppConfig::default_with_pat("token".to_owned());
    config.host.hostname = "https://ghe.example.test".to_owned();
    match validate_config(config) {
        Err(ConfigError::Validation(message)) => assert_eq!(
            message,
            "host.hostname must be a hostname without scheme, path, query, fragment, username, password, or port"
        ),
        other => panic!("unexpected {other:?}"),
    }

    let mut config = AppConfig::default_with_pat("token".to_owned());
    config.ui.accent_color = "#12345G".to_owned();
    match validate_config(config) {
        Err(ConfigError::Validation(message)) => {
            assert_eq!(message, "ui.accent_color must be a #RRGGBB hex color")
        }
        other => panic!("unexpected {other:?}"),
    }

    let mut config = AppConfig::default_with_pat("token".to_owned());
    config.refresh.polling_interval_seconds = 14;
    match validate_config(config) {
        Err(ConfigError::Validation(message)) => assert_eq!(
            message,
            "refresh.polling_interval_seconds must be between 15 and 3600"
        ),
        other => panic!("unexpected {other:?}"),
    }
}

#[test]
fn validation_is_idempotent_on_an_example() {
    let mut config = AppConfig::default_with_pat("  token  ".to_owned());
    config.host.name = "  GHES  ".to_owned();
    config.host.kind = HostKind::Ghes;
    config.host.hostname = " ghe.example.test ".to_owned();
    config.host.rest_api_base_path = "//api//".to_owned();

    let once = validate_config(config).expect("valid");
    let twice = validate_config(once.clone()).expect("still valid");

    assert_eq!(once, twice);
    assert_eq!(once.auth.pat, "token");
    assert_eq!(once.host.name, "GHES");
}

#[test]
fn config_error_messages() {
    let error = ConfigError::Read {
        message: "missing".to_owned(),
        not_found: true,
    };
    assert_eq!(error.message(), "configuration file could not be read: missing");
    assert_eq!(
        ConfigError::Parse("bad".to_owned()).message(),
        "configuration file is not valid YAML: bad"
    );
    assert_eq!(redact_pat(""), "<empty>");
    assert_eq!(redact_pat("ghp_x"), "<redacted>");
}

#[test]
fn models_github_search_url_uses_public_web_host() {
    let host = HostConfig::github_default();

    assert_eq!(
        host.search_url("is:pr review-requested:@me"),
        "https://github.com/search?q=is%3Apr%20review-requested%3A%40me&type=issues"
    );
}

#[test]
fn models_ghes_search_url_uses_configured_host() {
    let host = HostConfig {
        name: "GHES".to_owned(),
        scheme: Scheme::Https,
        hostname: "ghe.example.test".to_owned(),
        rest_api_base_path: "/api/v3/".to_owned(),
        kind: HostKind::Ghes,
    };

    assert_eq!(
        host.search_url(" repo:acme/api is:issue "),
        "https://ghe.example.test/search?q=repo%3Aacme%2Fapi%20is%3Aissue&type=issues"
    );
}

#[test]
fn models_discussion_preview_url_selects_discussion_search() {
    let host = HostConfig::github_default();

    assert_eq!(
        host.search_url_for(StreamSource::Discussion, "repo:acme/project feedback"),
        "https://github.com/search?q=repo%3Aacme%2Fproject%20feedback&type=discussions"
    );
}

#[test]
fn config_github_search_url_uses_public_web_host() {
    let host = HostConfig::github_default();

    assert_eq!(
        host.search_url("is:pr review-requested:@me"),
        "https://github.com/search?q=is%3Apr%20review-requested%3A%40me&type=issues"
    );
}

#[test]
fn config_ghes_search_url_uses_configured_host() {
    let host = HostConfig {
        name: "GHES".to_owned(),
        scheme: Scheme::Https,
        hostname: "ghe.example.test".to_owned(),
        rest_api_base_path: "/api/v3/".to_owned(),
        kind: HostKind::Ghes,
    };

    assert_eq!(
        host.search_url(" repo:acme/api is:issue "),
        "https://ghe.example.test/search?q=repo%3Aacme%2Fapi%20is%3Aissue&type=issues"
    );
}

#[test]
fn config_discussion_preview_url_selects_discussion_search() {
    let host = HostConfig::github_default();

    assert_eq!(
        host.search_url_for(StreamSource::Discussion, "repo:acme/project feedback"),
        "https://github.com/search?q=repo%3Aacme%2Fproject%20feedback&type=discussions"
    );
}

#[test]
fn host_urls_and_names() {
    let host = HostConfig::github_default();
    assert_eq!(host.rest_api_base_url(), "https://api.github.com/");
    assert_eq!(host.graphql_url(), "https://api.github.com/graphql");
    assert_eq!(host.fingerprint(), "github|https|api.github.com|/");
    assert_eq!(SortOrder::from_db_value("created_desc"), Some(SortOrder::CreatedDesc));
    assert_eq!(SortOrder::from_db_value("nope"), None);
    assert_eq!(SortOrder::from_db_value("updated_asc"), Some(SortOrder::UpdatedAsc));
    assert_eq!(SortOrder::from_db_value("comments_asc"), Some(SortOrder::UpdatedDesc));
    assert_eq!("updated_asc".parse::<SortOrder>(), Ok(SortOrder::UpdatedAsc));
    assert_eq!("sideways".parse::<SortOrder>(), Err(()));
    assert_eq!(SortOrder::UpdatedAsc.as_db_value(), "updated_asc");
    assert_eq!(SortOrder::UpdatedDesc.as_db_value(), "updated_desc");
}
