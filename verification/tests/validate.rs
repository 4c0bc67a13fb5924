use lattice::api::{
    healthz, map_webhook, normalize_list_query, require_auth, CreateWebhookInput, ListQuery,
    UpdateWebhookInput,
};
use lattice::webhooks::settings::{
    changed_webhook_settings, encode_string_list, ensure_webhook_deleted, new_webhook_settings,
    require_some_change,
};
use lattice::config::{assert_non_zero_u32, assert_non_zero_usize, Config, RateLimitConfig};
use lattice::error::{AppError, StoreFailure};
use lattice::models::WebhookRecord;
use lattice::validate::{
    normalize_optional_secret, normalize_webhook_events, normalize_webhook_platform,
    normalize_webhook_url, normalized_labels, parse_webhook_events, validate_priority,
    validate_review_state, validate_spec_section, validate_status,
};

fn bad_request(result: Result<impl Sized, AppError>) -> String {
    match result {
        Err(AppError::BadRequest(message)) => message,
        _ => panic!("expected a bad request"),
    }
}

fn config_with_token(token: Option<&str>) -> Config {
    Config {
        port: 7400,
        db_url: "sqlite://./lattice.db".to_string(),
        token: token.map(|value| value.to_string()),
        log_level: "info".to_string(),
        storage_dir: std::path::PathBuf::from("./storage"),
        max_file_size: 10 * 1024 * 1024,
        rate_limits: RateLimitConfig::default(),
    }
}

#[test]
fn default_tunables_match_the_documented_values() {
    let settings = RateLimitConfig::default();
    assert_eq!((settings.read_per_min, settings.read_burst), (240, 60));
    assert_eq!((settings.write_per_min, settings.write_burst), (120, 30));
    assert_eq!((settings.attachment_per_min, settings.attachment_burst), (30, 10));
    assert_eq!((settings.webhook_test_per_min, settings.webhook_test_burst), (20, 5));
    assert_eq!((settings.mcp_per_min, settings.mcp_burst), (80, 20));
    assert_eq!((settings.sse_connect_per_min, settings.sse_connect_burst), (40, 10));
    assert_eq!(settings.sse_max_per_identity, 10);
    assert_eq!(settings.sse_max_global, 400);
    assert_eq!(settings.max_request_body_bytes, 12 * 1024 * 1024);
    assert_eq!(settings.first_zero_key(), None);
}

#[test]
fn zero_tunable_is_named() {
    let settings = RateLimitConfig {
        mcp_burst: 0,
        sse_max_global: 0,
        ..RateLimitConfig::default()
    };
    assert_eq!(settings.first_zero_key(), Some("LATTICE_RATE_LIMIT_MCP_BURST"));
    let settings = RateLimitConfig {
        max_request_body_bytes: 0,
        ..RateLimitConfig::default()
    };
    assert_eq!(settings.first_zero_key(), Some("LATTICE_MAX_REQUEST_BODY_BYTES"));
    let settings = RateLimitConfig {
        read_per_min: 0,
        read_burst: 0,
        ..RateLimitConfig::default()
    };
    assert_eq!(settings.first_zero_key(), Some("LATTICE_RATE_LIMIT_READ_PER_MIN"));
    assert_eq!(RateLimitConfig::default().first_zero_key(), None);
}

#[test]
fn configuration_with_positive_tunables_is_accepted() {
    let config = config_with_token(None);
    assert_eq!(config.rate_limits.first_zero_key(), None);
    config.validate();
    assert_non_zero_u32("LATTICE_RATE_LIMIT_READ_BURST", 1);
    assert_non_zero_usize("LATTICE_MAX_REQUEST_BODY_BYTES", usize::MAX);
}

#[test]
fn auth_is_enabled_by_a_token_that_is_not_blank() {
    assert!(!config_with_token(None).auth_enabled());
    assert!(!config_with_token(Some("")).auth_enabled());
    assert!(!config_with_token(Some(" \t\n")).auth_enabled());
    assert!(config_with_token(Some(" x ")).auth_enabled());
    assert!(config_with_token(Some("x")).startup_warnings().is_empty());
    assert_eq!(
        config_with_token(None).startup_warnings(),
        vec![
            "LATTICE_TOKEN is unset, auth is disabled and all requests are allowed",
            "no-auth mode enabled, rate limiting identity falls back to forwarded client IP headers",
        ]
    );
}

#[test]
fn requests_authenticate_with_the_configured_token() {
    assert!(require_auth(None, None).is_ok());
    assert!(require_auth(Some("  "), None).is_ok());
    assert!(require_auth(Some("tok"), Some("Bearer tok")).is_ok());
    assert!(require_auth(Some("tok"), Some("bearer   tok  ")).is_ok());
    assert!(matches!(
        require_auth(Some("tok"), Some("Bearer other")),
        Err(AppError::Unauthorized)
    ));
    assert!(matches!(require_auth(Some("tok"), None), Err(AppError::Unauthorized)));
    assert!(matches!(
        require_auth(Some("tok"), Some("Basic tok")),
        Err(AppError::Unauthorized)
    ));
    assert!(matches!(
        require_auth(Some(" tok "), Some("Bearer tok")),
        Err(AppError::Unauthorized)
    ));
}

#[test]
fn errors_map_to_status_and_code() {
    let response = AppError::BadRequest("why".to_string()).into_response();
    assert_eq!((response.status, response.error.as_str(), response.message.as_str()), (400, "bad_request", "why"));
    let response = AppError::Unauthorized.into_response();
    assert_eq!(
        (response.status, response.error.as_str(), response.message.as_str()),
        (401, "unauthorized", "missing or invalid bearer token")
    );
    let response = AppError::NotFound("gone".to_string()).into_response();
    assert_eq!((response.status, response.error.as_str(), response.message.as_str()), (404, "not_found", "gone"));
    let response = AppError::Conflict("twice".to_string()).into_response();
    assert_eq!((response.status, response.error.as_str(), response.message.as_str()), (409, "conflict", "twice"));
    let response = AppError::Internal.into_response();
    assert_eq!(
        (response.status, response.error.as_str(), response.message.as_str()),
        (500, "internal", "unexpected error")
    );
    assert_eq!(AppError::BadRequest("why".to_string()).message(), "bad request: why");
    assert_eq!(AppError::Unauthorized.message(), "unauthorized");
    assert_eq!(AppError::NotFound("gone".to_string()).message(), "not found: gone");
    assert_eq!(AppError::Conflict("twice".to_string()).message(), "conflict: twice");
    assert_eq!(AppError::Internal.message(), "internal server error");
}

#[test]
fn store_failures_become_errors() {
    match StoreFailure::RowNotFound.into_app_error() {
        AppError::NotFound(message) => assert_eq!(message, "record not found"),
        _ => panic!("a missing row is not found"),
    }
    let unique = StoreFailure::Database {
        message: "UNIQUE constraint failed".to_string(),
        unique_violation: true,
    };
    match unique.into_app_error() {
        AppError::Conflict(message) => assert_eq!(message, "UNIQUE constraint failed"),
        _ => panic!("a unique violation is a conflict"),
    }
    let other = StoreFailure::Database {
        message: "disk full".to_string(),
        unique_violation: false,
    };
    assert!(matches!(other.into_app_error(), AppError::Internal));
    assert!(matches!(StoreFailure::Other.into_app_error(), AppError::Internal));
}

#[test]
fn list_query_has_defaults_and_bounds() {
    assert_eq!(normalize_list_query(None, None).ok(), Some((50, 0)));
    assert_eq!(normalize_list_query(Some(100), Some(7)).ok(), Some((100, 7)));
    assert_eq!(normalize_list_query(Some(1), Some(0)).ok(), Some((1, 0)));
    assert_eq!(
        bad_request(normalize_list_query(Some(0), Some(-1))),
        "limit must be greater than 0"
    );
    assert_eq!(
        bad_request(normalize_list_query(Some(101), Some(-1))),
        "limit must be less than or equal to 100"
    );
    assert_eq!(
        bad_request(normalize_list_query(None, Some(-1))),
        "offset cannot be negative"
    );
    let query = ListQuery { limit: Some(25), offset: None };
    assert_eq!(query.normalize().ok(), Some((25, 0)));
    assert_eq!(healthz().status, "ok");
}

#[test]
fn names_are_checked_against_their_vocabulary() {
    for section in [
        "overview",
        "requirements",
        "architecture",
        "technical_design",
        "open_decisions",
        "references",
    ] {
        assert!(validate_spec_section(section).is_ok());
    }
    assert_eq!(
        bad_request(validate_spec_section("Overview")),
        "invalid spec section 'Overview'"
    );
    for status in ["backlog", "ready", "in_progress", "review", "done"] {
        assert!(validate_status(status).is_ok());
    }
    assert_eq!(bad_request(validate_status("open")), "invalid task status 'open'");
    for priority in ["low", "medium", "high", "critical"] {
        assert!(validate_priority(priority).is_ok());
    }
    assert_eq!(bad_request(validate_priority("")), "invalid task priority ''");
    assert!(validate_review_state("ready").is_ok());
    assert!(validate_review_state("not_ready").is_ok());
    assert_eq!(
        bad_request(validate_review_state("maybe")),
        "invalid review state 'maybe'"
    );
}

#[test]
fn webhook_settings_are_normalized() {
    assert_eq!(normalize_webhook_platform(" Slack ").ok(), Some("slack".to_string()));
    assert_eq!(normalize_webhook_platform("DISCORD").ok(), Some("discord".to_string()));
    assert_eq!(normalize_webhook_platform("generic").ok(), Some("generic".to_string()));
    assert_eq!(
        bad_request(normalize_webhook_platform(" Teams ")),
        "invalid webhook platform ' Teams '"
    );
    assert_eq!(
        normalize_webhook_url("  HTTP://Example.COM  ").ok(),
        Some("http://example.com/".to_string())
    );
    assert_eq!(
        normalize_webhook_url("https://example.com/a b?q=1").ok(),
        Some("https://example.com/a%20b?q=1".to_string())
    );
    assert_eq!(
        bad_request(normalize_webhook_url("ftp://example.com/x")),
        "webhook url must use http or https"
    );
    assert_eq!(
        bad_request(normalize_webhook_url("not a url")),
        "webhook url must be a valid http(s) URL"
    );
    assert_eq!(normalize_optional_secret(None), None);
    assert_eq!(normalize_optional_secret(Some("  ".to_string())), None);
    assert_eq!(
        normalize_optional_secret(Some(" s3cret\n".to_string())),
        Some("s3cret".to_string())
    );
}

#[test]
fn webhook_events_are_a_sorted_set_of_known_names() {
    let given = vec![
        "task.moved".to_string(),
        " goal.updated ".to_string(),
        "".to_string(),
        "task.moved".to_string(),
        "question.created".to_string(),
    ];
    assert_eq!(
        normalize_webhook_events(given).ok(),
        Some(vec![
            "goal.updated".to_string(),
            "question.created".to_string(),
            "task.moved".to_string(),
        ])
    );
    assert_eq!(
        bad_request(normalize_webhook_events(vec!["task.created".to_string(), "Task.Created".to_string()])),
        "invalid webhook event 'Task.Created'"
    );
    assert_eq!(
        bad_request(normalize_webhook_events(vec![" ".to_string()])),
        "webhook must subscribe to at least one event"
    );
    assert_eq!(
        bad_request(normalize_webhook_events(Vec::new())),
        "webhook must subscribe to at least one event"
    );
    assert_eq!(
        parse_webhook_events("[\"spec.updated\", \"task.deleted\"]").ok(),
        Some(vec!["spec.updated".to_string(), "task.deleted".to_string()])
    );
    assert!(matches!(parse_webhook_events("{"), Err(AppError::Internal)));
    assert!(matches!(parse_webhook_events("\"task.created\""), Err(AppError::Internal)));
    assert!(matches!(parse_webhook_events("[]"), Err(AppError::BadRequest(_))));
}

#[test]
fn labels_are_trimmed_sorted_and_unique() {
    let given = vec![
        " ui ".to_string(),
        "api".to_string(),
        "".to_string(),
        "ui".to_string(),
        "Zed".to_string(),
        "\t".to_string(),
    ];
    assert_eq!(
        normalized_labels(given),
        vec!["Zed".to_string(), "api".to_string(), "ui".to_string()]
    );
    assert_eq!(normalized_labels(Vec::new()), Vec::<String>::new());
}

#[test]
fn webhook_answer_hides_the_secret() {
    let record = WebhookRecord {
        id: "w1".to_string(),
        project_id: "proj-a".to_string(),
        name: "capture".to_string(),
        url: "http://example.com/".to_string(),
        platform: "generic".to_string(),
        events: "[\"task.created\"]".to_string(),
        secret: Some("top-secret".to_string()),
        active: 1,
        created_at: "c".to_string(),
        updated_at: "u".to_string(),
    };
    let mut inactive = record.clone();
    inactive.active = 0;
    inactive.secret = Some(" ".to_string());
    let mut broken = record.clone();
    broken.events = "oops".to_string();
    let response = map_webhook(record).ok().expect("a readable subscription");
    assert_eq!(response.id, "w1");
    assert_eq!(response.name, "capture");
    assert_eq!(response.url, "http://example.com/");
    assert_eq!(response.platform, "generic");
    assert_eq!(response.events, vec!["task.created".to_string()]);
    assert!(response.active);
    assert!(response.has_secret);
    assert_eq!(response.created_at, "c");
    assert_eq!(response.updated_at, "u");
    let response = map_webhook(inactive).ok().expect("a readable subscription");
    assert!(!response.active);
    assert!(!response.has_secret);
    assert!(matches!(map_webhook(broken), Err(AppError::Internal)));
}

#[test]
fn new_subscription_is_stored_normalized() {
    let input = CreateWebhookInput {
        name: "  capture ".to_string(),
        url: " http://Example.com/hook ".to_string(),
        platform: "Generic".to_string(),
        events: vec!["task.moved".to_string(), " task.created".to_string()],
        secret: Some(" top-secret ".to_string()),
        active: true,
    };
    let stored = new_webhook_settings(input).ok().expect("valid settings");
    assert_eq!(stored.name, "capture");
    assert_eq!(stored.url, "http://example.com/hook");
    assert_eq!(stored.platform, "generic");
    assert_eq!(stored.events, "[\"task.created\",\"task.moved\"]");
    assert_eq!(stored.secret, Some("top-secret".to_string()));
    assert_eq!(stored.active, 1);
    assert_eq!(
        parse_webhook_events(&stored.events).ok(),
        Some(vec!["task.created".to_string(), "task.moved".to_string()])
    );

    let faulty = |name: &str, url: &str, platform: &str, events: Vec<&str>| {
        bad_request(new_webhook_settings(CreateWebhookInput {
            name: name.to_string(),
            url: url.to_string(),
            platform: platform.to_string(),
            events: events.into_iter().map(|event| event.to_string()).collect(),
            secret: None,
            active: false,
        }))
    };
    assert_eq!(faulty(" ", "x", "x", vec![]), "webhook name cannot be empty");
    assert_eq!(faulty("n", "x", "x", vec![]), "webhook url must be a valid http(s) URL");
    assert_eq!(faulty("n", "http://a/", "x", vec![]), "invalid webhook platform 'x'");
    assert_eq!(
        faulty("n", "http://a/", "slack", vec![]),
        "webhook must subscribe to at least one event"
    );
}

#[test]
fn changed_subscription_keeps_what_is_not_named() {
    let existing = WebhookRecord {
        id: "w1".to_string(),
        project_id: "proj-a".to_string(),
        name: "capture".to_string(),
        url: "http://example.com/".to_string(),
        platform: "generic".to_string(),
        events: "[\"task.created\"]".to_string(),
        secret: Some("old".to_string()),
        active: 1,
        created_at: "c".to_string(),
        updated_at: "u".to_string(),
    };
    let nothing = UpdateWebhookInput {
        name: None,
        url: None,
        platform: None,
        events: None,
        secret: None,
        active: None,
    };
    assert_eq!(
        bad_request(require_some_change(&nothing)),
        "at least one field must be provided"
    );
    let kept = changed_webhook_settings(existing.clone(), nothing).ok().expect("no change");
    assert_eq!(kept.name, "capture");
    assert_eq!(kept.url, "http://example.com/");
    assert_eq!(kept.platform, "generic");
    assert_eq!(kept.events, "[\"task.created\"]");
    assert_eq!(kept.secret, Some("old".to_string()));
    assert_eq!(kept.active, 1);

    let change = UpdateWebhookInput {
        name: Some(" renamed ".to_string()),
        url: None,
        platform: Some("SLACK".to_string()),
        events: Some(vec!["goal.updated".to_string(), "goal.updated".to_string()]),
        secret: Some("  ".to_string()),
        active: Some(false),
    };
    assert!(require_some_change(&change).is_ok());
    let changed = changed_webhook_settings(existing.clone(), change).ok().expect("valid");
    assert_eq!(changed.name, "renamed");
    assert_eq!(changed.url, "http://example.com/");
    assert_eq!(changed.platform, "slack");
    assert_eq!(changed.events, "[\"goal.updated\"]");
    assert_eq!(changed.secret, None);
    assert_eq!(changed.active, 0);

    let bad = UpdateWebhookInput {
        name: Some("".to_string()),
        url: Some("nope".to_string()),
        platform: None,
        events: None,
        secret: None,
        active: None,
    };
    assert_eq!(
        bad_request(changed_webhook_settings(existing, bad)),
        "webhook name cannot be empty"
    );
    assert_eq!(
        encode_string_list(&vec!["a\"b".to_string(), "".to_string()]),
        "[\"a\\\"b\",\"\"]"
    );
    assert_eq!(encode_string_list(&Vec::new()), "[]");
    assert!(ensure_webhook_deleted("w1", 1).is_ok());
    match ensure_webhook_deleted("w1", 0) {
        Err(AppError::NotFound(message)) => assert_eq!(message, "webhook 'w1' not found"),
        _ => panic!("nothing was removed"),
    }
}
