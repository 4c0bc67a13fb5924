use lattice::config::RateLimitConfig;
use lattice::rate_limit::bucket::{reset_after_seconds, retry_after_seconds, TOKEN_UNIT};
use lattice::rate_limit::identity::{first_forwarded_ip, hash_prefix, request_identity};
use lattice::rate_limit::response::settle_sse_lease;
use lattice::rate_limit::{
    classify_scope, enforce_limits, is_sse_route, parse_bearer_token, Admission, RateDecision,
    RateLimiter, RateScope,
};

#[test]
fn classify_scope_uses_expected_buckets() {
    assert_eq!(
        classify_scope("GET", "/api/v1/projects/ROADMAP/tasks"),
        Some(RateScope::Read)
    );
    assert_eq!(
        classify_scope("POST", "/api/v1/projects/ROADMAP/tasks"),
        Some(RateScope::Write)
    );
    assert_eq!(
        classify_scope("GET", "/api/v1/files/123"),
        Some(RateScope::Attachment)
    );
    assert_eq!(
        classify_scope("POST", "/api/v1/projects/ROADMAP/webhooks/a/test"),
        Some(RateScope::WebhookTest)
    );
    assert_eq!(
        classify_scope("GET", "/api/v1/projects/ROADMAP/events"),
        Some(RateScope::Sse)
    );
    assert_eq!(classify_scope("POST", "/mcp"), Some(RateScope::Mcp));
    assert_eq!(classify_scope("GET", "/"), None);
}

#[test]
fn token_bucket_denies_after_burst_and_recovers() {
    let write_burst = 10;
    let mut limiter = RateLimiter::new(RateLimitConfig {
        write_per_min: 30,
        write_burst,
        ..RateLimitConfig::default()
    });
    let start: u64 = 5_000_000_000;

    for _ in 0..write_burst {
        assert!(matches!(
            limiter.check_with_now(RateScope::Write, "token:a", start),
            RateDecision::Allow(_)
        ));
    }

    assert!(matches!(
        limiter.check_with_now(RateScope::Write, "token:a", start),
        RateDecision::Deny(_)
    ));

    let later = start + 2_000_000_000;
    assert!(matches!(
        limiter.check_with_now(RateScope::Write, "token:a", later),
        RateDecision::Allow(_)
    ));
}

#[test]
fn sse_connection_slots_release_on_drop() {
    let sse_max_per_identity = 5;
    let mut limiter = RateLimiter::new(RateLimitConfig {
        sse_max_per_identity,
        ..RateLimitConfig::default()
    });
    let mut leases = Vec::new();

    for _ in 0..sse_max_per_identity {
        leases.push(
            limiter
                .try_acquire_sse_slot("token:a")
                .expect("sse slot should be available"),
        );
    }

    assert!(
        limiter.try_acquire_sse_slot("token:a").is_err(),
        "sixth slot should be denied"
    );

    limiter.release_sse_slot(leases.pop().expect("a lease is held"));

    assert!(
        limiter.try_acquire_sse_slot("token:a").is_ok(),
        "slot should become available after drop"
    );
}

#[test]
fn third_write_in_a_row_is_refused_with_a_positive_wait() {
    let mut limiter = RateLimiter::new(RateLimitConfig {
        write_per_min: 10,
        write_burst: 2,
        ..RateLimitConfig::default()
    });
    let now: u64 = 1_000;
    let mut admitted = Vec::new();
    for _ in 0..3 {
        admitted.push(enforce_limits(
            &mut limiter,
            "POST",
            "/api/v1/projects/ROADMAP/tasks",
            None,
            Some("10.0.0.1"),
            false,
            now,
        ));
    }
    let third = admitted.pop().expect("three answers");
    for earlier in admitted {
        assert!(matches!(
            earlier,
            Admission::Admitted { lease: None, .. }
        ));
    }
    match third {
        Admission::Limited(response) => {
            assert_eq!(response.status, 429);
            assert_eq!(response.error, "rate_limited");
            assert_eq!(response.message, "rate limit exceeded for write requests");
            let headers: Vec<(String, String)> = response
                .headers
                .into_iter()
                .map(|header| (header.name, header.value))
                .collect();
            assert_eq!(
                headers,
                vec![
                    ("x-ratelimit-limit".to_string(), "10".to_string()),
                    ("x-ratelimit-remaining".to_string(), "0".to_string()),
                    ("x-ratelimit-reset".to_string(), "6".to_string()),
                    ("retry-after".to_string(), "6".to_string()),
                ]
            );
        }
        _ => panic!("the third write is refused"),
    }
}

#[test]
fn allowance_reports_what_is_left() {
    let mut limiter = RateLimiter::new(RateLimitConfig::default());
    match limiter.check_with_now(RateScope::Write, "ip:1", 0) {
        RateDecision::Allow(allowance) => {
            assert_eq!(allowance.limit, 120);
            assert_eq!(allowance.remaining, 29);
            assert_eq!(allowance.reset_after_secs, 1);
        }
        RateDecision::Deny(_) => panic!("a fresh bucket is full"),
    }
    match limiter.check_with_now(RateScope::Write, "ip:1", 0) {
        RateDecision::Allow(allowance) => {
            assert_eq!(allowance.remaining, 28);
            assert_eq!(allowance.reset_after_secs, 1);
        }
        RateDecision::Deny(_) => panic!("the bucket has tokens left"),
    }
    match limiter.check_with_now(RateScope::Write, "ip:1", 0) {
        RateDecision::Allow(allowance) => {
            assert_eq!(allowance.remaining, 27);
            assert_eq!(allowance.reset_after_secs, 2);
        }
        RateDecision::Deny(_) => panic!("the bucket has tokens left"),
    }
    match limiter.check_with_now(RateScope::Read, "ip:1", 0) {
        RateDecision::Allow(allowance) => {
            assert_eq!(allowance.limit, 240);
            assert_eq!(allowance.remaining, 59);
        }
        RateDecision::Deny(_) => panic!("each scope has a bucket of its own"),
    }
}

#[test]
fn tokens_never_exceed_burst() {
    let mut limiter = RateLimiter::new(RateLimitConfig {
        mcp_per_min: 60,
        mcp_burst: 3,
        ..RateLimitConfig::default()
    });
    assert!(matches!(
        limiter.check_with_now(RateScope::Mcp, "a", 0),
        RateDecision::Allow(_)
    ));
    let much_later: u64 = 3_000_000_000_000;
    match limiter.check_with_now(RateScope::Mcp, "a", much_later) {
        RateDecision::Allow(allowance) => {
            assert_eq!(allowance.remaining, 2);
            assert_eq!(allowance.reset_after_secs, 1);
        }
        RateDecision::Deny(_) => panic!("the bucket refilled"),
    }
}

#[test]
fn empty_bucket_recovers_one_token_at_a_time() {
    let mut limiter = RateLimiter::new(RateLimitConfig {
        write_per_min: 60,
        write_burst: 2,
        ..RateLimitConfig::default()
    });
    let start: u64 = 10;
    for _ in 0..2 {
        assert!(matches!(
            limiter.check_with_now(RateScope::Write, "a", start),
            RateDecision::Allow(_)
        ));
    }
    match limiter.check_with_now(RateScope::Write, "a", start) {
        RateDecision::Deny(denial) => {
            assert_eq!(denial.retry_after_secs, 1);
            assert_eq!(denial.reset_after_secs, 1);
            assert_eq!(denial.remaining, 0);
            assert_eq!(denial.limit, 60);
        }
        RateDecision::Allow(_) => panic!("the bucket is empty"),
    }
    assert!(matches!(
        limiter.check_with_now(RateScope::Write, "a", start + 999_999_999),
        RateDecision::Deny(_)
    ));
    assert!(matches!(
        limiter.check_with_now(RateScope::Write, "a", start + 1_000_000_000),
        RateDecision::Allow(_)
    ));
    assert!(matches!(
        limiter.check_with_now(RateScope::Write, "a", start + 1_000_000_000),
        RateDecision::Deny(_)
    ));
}

#[test]
fn retry_after_rounds_up_and_is_at_least_one() {
    assert_eq!(retry_after_seconds(0, 0), 60);
    assert_eq!(retry_after_seconds(0, 60), 1);
    assert_eq!(retry_after_seconds(0, 30), 2);
    assert_eq!(retry_after_seconds(0, 7), 9);
    assert_eq!(retry_after_seconds(TOKEN_UNIT - 1, 1), 1);
    assert_eq!(retry_after_seconds(TOKEN_UNIT, 1), 1);
    assert_eq!(retry_after_seconds(0, 1), 60);
    assert_eq!(reset_after_seconds(0, 0, 5), 60);
    assert_eq!(reset_after_seconds(5 * TOKEN_UNIT, 10, 5), 0);
    assert_eq!(reset_after_seconds(0, 10, 5), 30);
    assert_eq!(reset_after_seconds(4 * TOKEN_UNIT + 1, 10, 5), 6);
    assert_eq!(reset_after_seconds(0, u32::MAX, u32::MAX), 60);
}

#[test]
fn stale_buckets_are_swept() {
    let mut limiter = RateLimiter::new(RateLimitConfig {
        read_per_min: 1,
        read_burst: 1,
        ..RateLimitConfig::default()
    });
    assert!(matches!(
        limiter.check_with_now(RateScope::Read, "old", 0),
        RateDecision::Allow(_)
    ));
    assert!(matches!(
        limiter.check_with_now(RateScope::Read, "old", 1),
        RateDecision::Deny(_)
    ));
    let hour: u64 = 3_600_000_000_000;
    assert!(matches!(
        limiter.check_with_now(RateScope::Read, "other", hour + 1),
        RateDecision::Allow(_)
    ));
    match limiter.check_with_now(RateScope::Read, "old", hour + 2) {
        RateDecision::Allow(allowance) => assert_eq!(allowance.remaining, 0),
        RateDecision::Deny(_) => panic!("a swept identity starts with a full bucket"),
    }
}

#[test]
fn global_stream_cap_is_shared() {
    let mut limiter = RateLimiter::new(RateLimitConfig {
        sse_max_per_identity: 2,
        sse_max_global: 3,
        ..RateLimitConfig::default()
    });
    let a1 = limiter.try_acquire_sse_slot("a").expect("first of a");
    let _a2 = limiter.try_acquire_sse_slot("a").expect("second of a");
    match limiter.try_acquire_sse_slot("a") {
        Err(denied) => {
            assert_eq!(denied.limit, 2);
            assert_eq!(denied.retry_after_secs, 10);
            assert_eq!(
                denied.message,
                "too many active SSE streams for this client identity"
            );
        }
        Ok(_) => panic!("a is at its cap"),
    }
    let _b1 = limiter.try_acquire_sse_slot("b").expect("first of b");
    match limiter.try_acquire_sse_slot("b") {
        Err(denied) => {
            assert_eq!(denied.limit, 3);
            assert_eq!(denied.message, "SSE stream capacity reached for this instance");
        }
        Ok(_) => panic!("the instance is at its cap"),
    }
    assert_eq!(limiter.sse_active("a"), 2);
    assert_eq!(limiter.sse_active("b"), 1);
    assert_eq!(limiter.sse_active_global(), 3);
    assert_eq!(a1.identity(), "a");
    limiter.release_sse_slot(a1);
    assert_eq!(limiter.sse_active("a"), 1);
    assert_eq!(limiter.sse_active("b"), 1);
    assert_eq!(limiter.sse_active_global(), 2);
    assert!(limiter.try_acquire_sse_slot("b").is_ok());
    assert!(limiter.try_acquire_sse_slot("a").is_err());
}

#[test]
fn stream_requests_take_a_slot_and_hand_it_back_on_failure() {
    let mut limiter = RateLimiter::new(RateLimitConfig {
        sse_max_per_identity: 1,
        ..RateLimitConfig::default()
    });
    let first = enforce_limits(
        &mut limiter,
        "GET",
        "/api/v1/events/",
        None,
        Some(" 10.1.1.1 , 10.9.9.9"),
        false,
        5,
    );
    let lease = match first {
        Admission::Admitted { lease, allowance } => {
            assert_eq!(allowance.limit, 40);
            assert_eq!(allowance.remaining, 9);
            lease
        }
        _ => panic!("the first stream is admitted"),
    };
    assert_eq!(limiter.sse_active("ip:10.1.1.1"), 1);
    let second = enforce_limits(
        &mut limiter,
        "GET",
        "/api/v1/projects/X/events",
        None,
        Some("10.1.1.1"),
        false,
        6,
    );
    match second {
        Admission::StreamsExhausted(response) => {
            assert_eq!(response.status, 429);
            let headers: Vec<(String, String)> = response
                .headers
                .into_iter()
                .map(|header| (header.name, header.value))
                .collect();
            assert_eq!(
                headers,
                vec![
                    ("x-ratelimit-limit".to_string(), "1".to_string()),
                    ("x-ratelimit-remaining".to_string(), "0".to_string()),
                    ("x-ratelimit-reset".to_string(), "10".to_string()),
                    ("retry-after".to_string(), "10".to_string()),
                ]
            );
        }
        _ => panic!("the second stream is over the cap"),
    }
    let kept = settle_sse_lease(&mut limiter, lease, 500);
    assert!(kept.is_none());
    assert_eq!(limiter.sse_active("ip:10.1.1.1"), 0);
    let third = enforce_limits(
        &mut limiter,
        "GET",
        "/api/v1/events",
        None,
        Some("10.1.1.1"),
        false,
        7,
    );
    let lease = match third {
        Admission::Admitted { lease, .. } => lease,
        _ => panic!("the slot is free again"),
    };
    let kept = settle_sse_lease(&mut limiter, lease, 200);
    assert!(kept.is_some());
    assert_eq!(limiter.sse_active("ip:10.1.1.1"), 1);
    assert!(matches!(
        enforce_limits(&mut limiter, "GET", "/healthz", None, None, false, 8),
        Admission::Unlimited
    ));
}

#[test]
fn identity_is_a_digest_of_the_token_or_the_client_address() {
    assert_eq!(hash_prefix("abc"), "ba7816bf8f01cfea414140de");
    assert_eq!(hash_prefix("").len(), 24);
    assert_eq!(
        request_identity(Some("Bearer abc"), Some("1.2.3.4"), true),
        "token:ba7816bf8f01cfea414140de"
    );
    assert_eq!(
        request_identity(Some("bEaReR   abc  "), None, true),
        "token:ba7816bf8f01cfea414140de"
    );
    assert_eq!(request_identity(Some("Basic abc"), None, true), "token:missing");
    assert_eq!(request_identity(Some("Bearer "), None, true), "token:missing");
    assert_eq!(request_identity(Some("Bearer"), None, true), "token:missing");
    assert_eq!(request_identity(None, Some("1.2.3.4"), true), "token:missing");
    assert_eq!(
        request_identity(Some("Bearer abc"), Some(" 1.2.3.4 , 5.6.7.8"), false),
        "ip:1.2.3.4"
    );
    assert_eq!(request_identity(None, Some("10.0.0.1"), false), "ip:10.0.0.1");
    assert_eq!(request_identity(None, Some(" , 5.6.7.8"), false), "ip:anonymous");
    assert_eq!(request_identity(None, Some("  "), false), "ip:anonymous");
    assert_eq!(request_identity(None, None, false), "ip:anonymous");
}

#[test]
fn only_the_forwarded_for_chain_names_the_client() {
    assert_eq!(first_forwarded_ip(Some("10.0.0.1, 10.0.0.2")), Some("10.0.0.1".to_string()));
    assert_eq!(first_forwarded_ip(Some("")), None);
    assert_eq!(first_forwarded_ip(None), None);
}

#[test]
fn bearer_token_is_parsed_from_the_header() {
    assert_eq!(parse_bearer_token("Bearer abc"), Some("abc".to_string()));
    assert_eq!(parse_bearer_token("BEARER \t abc def \n"), Some("abc def".to_string()));
    assert_eq!(parse_bearer_token("Bearer"), None);
    assert_eq!(parse_bearer_token("Bearer    "), None);
    assert_eq!(parse_bearer_token("Token abc"), None);
    assert_eq!(parse_bearer_token(" Bearer abc"), None);
    assert_eq!(parse_bearer_token(""), None);
}

#[test]
fn scope_rules_apply_in_order() {
    assert_eq!(classify_scope("GET", "/mcp/api/v1/events"), Some(RateScope::Mcp));
    assert_eq!(classify_scope("GET", "/api/v2"), None);
    assert_eq!(classify_scope("GET", "/api/v1/events///"), Some(RateScope::Sse));
    assert_eq!(
        classify_scope("POST", "/api/v1/projects/A/attachments/events"),
        Some(RateScope::Sse)
    );
    assert_eq!(
        classify_scope("DELETE", "/api/v1/projects/A/tasks/1/attachments/2"),
        Some(RateScope::Attachment)
    );
    assert_eq!(
        classify_scope("GET", "/api/v1/projects/A/webhooks/test"),
        Some(RateScope::WebhookTest)
    );
    assert_eq!(
        classify_scope("GET", "/api/v1/projects/A/webhooks/1/tests"),
        Some(RateScope::Read)
    );
    assert_eq!(classify_scope("HEAD", "/api/v1"), Some(RateScope::Read));
    assert_eq!(classify_scope("OPTIONS", "/api/v1/x"), Some(RateScope::Read));
    assert_eq!(classify_scope("get", "/api/v1/x"), Some(RateScope::Write));
    assert_eq!(classify_scope("PATCH", "/api/v1/x"), Some(RateScope::Write));
    assert!(is_sse_route("/api/v1/events"));
    assert!(is_sse_route("/api/v1/projects/A/events/"));
    assert!(is_sse_route("/api/v1/projects/events"));
    assert!(!is_sse_route("/api/v1/project/events"));
    assert!(!is_sse_route("/api/v1/eventsx"));
}

#[test]
fn check_reads_the_clock() {
    let mut limiter = RateLimiter::new(RateLimitConfig {
        read_per_min: 1,
        read_burst: 1,
        ..RateLimitConfig::default()
    });
    assert!(matches!(limiter.check(RateScope::Read, "a"), RateDecision::Allow(_)));
    assert!(matches!(limiter.check(RateScope::Read, "a"), RateDecision::Deny(_)));
}

#[test]
fn bucket_refills_in_proportion_to_the_time_that_passed() {
    let mut limiter = RateLimiter::new(RateLimitConfig {
        attachment_per_min: 60,
        attachment_burst: 5,
        ..RateLimitConfig::default()
    });
    for _ in 0..3 {
        assert!(matches!(
            limiter.check_with_now(RateScope::Attachment, "a", 0),
            RateDecision::Allow(_)
        ));
    }
    match limiter.check_with_now(RateScope::Attachment, "a", 1_500_000_000) {
        RateDecision::Allow(allowance) => {
            assert_eq!(allowance.remaining, 2);
            assert_eq!(allowance.reset_after_secs, 3);
        }
        RateDecision::Deny(_) => panic!("the bucket holds three and a half tokens"),
    }
    // The clock going back adds nothing and takes nothing.
    match limiter.check_with_now(RateScope::Attachment, "a", 1_000_000_000) {
        RateDecision::Allow(allowance) => {
            assert_eq!(allowance.remaining, 1);
            assert_eq!(allowance.reset_after_secs, 4);
        }
        RateDecision::Deny(_) => panic!("the bucket holds two and a half tokens"),
    }
}

#[test]
fn scope_without_refill_never_recovers() {
    let mut limiter = RateLimiter::new(RateLimitConfig {
        mcp_per_min: 0,
        mcp_burst: 1,
        ..RateLimitConfig::default()
    });
    match limiter.check_with_now(RateScope::Mcp, "a", 0) {
        RateDecision::Allow(allowance) => {
            assert_eq!(allowance.limit, 0);
            assert_eq!(allowance.remaining, 0);
            assert_eq!(allowance.reset_after_secs, 60);
        }
        RateDecision::Deny(_) => panic!("a fresh bucket is full"),
    }
    match limiter.check_with_now(RateScope::Mcp, "a", 120_000_000_000) {
        RateDecision::Deny(denial) => assert_eq!(denial.retry_after_secs, 60),
        RateDecision::Allow(_) => panic!("nothing refills the bucket"),
    }
}
