use heartbeat_control_center::api::{
    base_url_probe_message, error_message_for, heartbeat_url, is_valid_token_format, local_check_timeout_secs,
    local_check_verdict, map_status, me_url, normalize_base_url, token_fingerprint,
};
use heartbeat_control_center::errors::ApiError;

fn demo_token() -> String {
    format!("tk_{}", "0123456789abcdef".repeat(4))
}

#[test]
fn token_format_accepts_platform_shape() {
    let good = format!("tk_{}", "0123456789abcdef".repeat(4));
    assert_eq!(good.len(), 67);
    assert!(is_valid_token_format(&good));
}

#[test]
fn token_format_rejects_bad_shapes() {
    assert!(!is_valid_token_format(""));
    assert!(!is_valid_token_format("tk_"));
    assert!(!is_valid_token_format("sk_0123"));
    // uppercase hex is not what the platform emits
    let upper = format!("tk_{}", "0123456789ABCDEF".repeat(4));
    assert!(!is_valid_token_format(&upper));
    // right prefix, wrong length
    let short = format!("tk_{}", "abcd".repeat(15));
    assert!(!is_valid_token_format(&short));
    // non-hex chars
    let bad = format!("tk_{}", "zzzz6789abcdef01".repeat(4));
    assert!(!is_valid_token_format(&bad));
}

#[test]
fn fingerprint_shows_edges_only() {
    let token = format!("tk_{}", "0123456789abcdef".repeat(4));
    let fp = token_fingerprint(&token);
    assert_eq!(fp, "tk_0123…cdef");
    assert!(!fp.contains(&token[8..60]));
}

#[test]
fn status_mapping_matches_platform_taxonomy() {
    assert!(matches!(
        map_status(401, "Invalid API key".into(), None),
        ApiError::Unauthorized { .. }
    ));
    assert!(matches!(
        map_status(403, "auto-disabled".into(), None),
        ApiError::Forbidden { .. }
    ));
    assert!(matches!(map_status(404, "x".into(), None), ApiError::NotFound { .. }));
    assert!(matches!(map_status(409, "x".into(), None), ApiError::Conflict { .. }));
    match map_status(429, "Too many requests".into(), Some(42)) {
        ApiError::RateLimited { retry_after_secs } => assert_eq!(retry_after_secs, 42),
        other => panic!("expected rate limited, got {other:?}"),
    }
    match map_status(429, "Too many requests".into(), None) {
        ApiError::RateLimited { retry_after_secs } => assert_eq!(retry_after_secs, 60),
        other => panic!("expected rate limited, got {other:?}"),
    }
    assert!(matches!(map_status(503, "x".into(), None), ApiError::Server { .. }));
    assert!(matches!(map_status(418, "x".into(), None), ApiError::Other { .. }));
}

#[test]
fn base_url_normalization() {
    assert_eq!(normalize_base_url("https://tragentics.com/").unwrap(), "https://tragentics.com");
    assert_eq!(normalize_base_url("http://localhost:4571").unwrap(), "http://localhost:4571");
    assert_eq!(normalize_base_url("http://127.0.0.1:4571/").unwrap(), "http://127.0.0.1:4571");
    assert!(normalize_base_url("http://example.com").is_err());
    assert!(normalize_base_url("ftp://x").is_err());
    assert!(normalize_base_url("").is_err());
    assert!(normalize_base_url("https://").is_err());
}

#[test]
fn mock_tokens_match_platform_format() {
    assert!(is_valid_token_format(&demo_token()));
}

#[test]
fn base_url_errors_name_the_rule() {
    assert_eq!(normalize_base_url("   ").unwrap_err(), "Base URL cannot be empty");
    assert_eq!(
        normalize_base_url("ftp://x").unwrap_err(),
        "Base URL must start with https:// (or http:// for localhost)"
    );
    assert_eq!(
        normalize_base_url("http://example.com").unwrap_err(),
        "Plain http:// is only allowed for localhost"
    );
    // Trailing slashes go first, so a bare scheme loses its own "//".
    assert_eq!(
        normalize_base_url("https://").unwrap_err(),
        "Base URL must start with https:// (or http:// for localhost)"
    );
    assert_eq!(normalize_base_url("  http://[::1]:8080//  ").unwrap(), "http://[::1]:8080");
    assert_eq!(normalize_base_url("HTTPS://Tragentics.com").unwrap(), "HTTPS://Tragentics.com");
}

#[test]
fn short_token_fingerprint_is_generic() {
    assert_eq!(token_fingerprint("tk_short"), "tk_…");
    assert_eq!(token_fingerprint(""), "tk_…");
    assert_eq!(token_fingerprint("tk_abcdefgh"), "tk_…");
    assert_eq!(token_fingerprint("tk_abcdefgh1"), "tk_abcd…fgh1");
    assert_eq!(token_fingerprint("tk_abcdefgh12"), "tk_abcd…gh12");
}

#[test]
fn fingerprint_of_same_edges_is_the_same() {
    let a = format!("tk_0123{}cdef", "0".repeat(56));
    let b = format!("tk_0123{}cdef", "f".repeat(56));
    assert_eq!(token_fingerprint(&a), token_fingerprint(&b));
}

#[test]
fn endpoints_trim_trailing_slashes() {
    assert_eq!(me_url("https://tragentics.com/"), "https://tragentics.com/api/agents/me");
    assert_eq!(me_url("https://tragentics.com"), "https://tragentics.com/api/agents/me");
    assert_eq!(
        heartbeat_url("http://localhost:4571//", "a1"),
        "http://localhost:4571/api/agents/a1/heartbeat"
    );
}

#[test]
fn error_message_falls_back_to_http_status() {
    assert_eq!(error_message_for(Some("Invalid API key".into()), 401), "Invalid API key");
    assert_eq!(error_message_for(None, 502), "HTTP 502");
}

#[test]
fn probe_messages_follow_status() {
    assert_eq!(base_url_probe_message(401), "Reachable — Tragentics API answered as expected.");
    assert_eq!(
        base_url_probe_message(200),
        "Reachable (HTTP 200) — but this does not look like the Tragentics API."
    );
    assert_eq!(
        base_url_probe_message(404),
        "Host answered HTTP 404 — this does not look like the Tragentics API."
    );
}

#[test]
fn local_check_verdicts() {
    assert_eq!(local_check_verdict(204, 200, 399), Ok(204));
    assert_eq!(local_check_verdict(503, 200, 399), Err("HTTP 503 outside expected 200–399".to_string()));
    assert_eq!(local_check_timeout_secs(0), 1);
    assert_eq!(local_check_timeout_secs(5), 5);
    assert_eq!(local_check_timeout_secs(90), 30);
}

#[test]
fn error_labels_messages_and_statuses() {
    let e = ApiError::RateLimited { retry_after_secs: 42 };
    assert_eq!(e.label(), "rate_limited");
    assert_eq!(e.message(), "Rate limited — retry after 42s");
    assert_eq!(e.http_status(), Some(429));
    let n = ApiError::Network { message: "could not connect".into() };
    assert_eq!(n.label(), "network");
    assert_eq!(n.message(), "could not connect");
    assert_eq!(n.http_status(), None);
    let s = ApiError::Server { status: 503, message: "down".into() };
    assert_eq!(s.label(), "server_error");
    assert_eq!(s.http_status(), Some(503));
    assert_eq!(ApiError::Unauthorized { message: "x".into() }.http_status(), Some(401));
    assert_eq!(ApiError::Decode { message: "bad".into() }.label(), "decode");
}

#[test]
fn plain_http_only_for_local_hosts() {
    let refused = "Plain http:// is only allowed for localhost";
    assert_eq!(normalize_base_url("http://localhost.example.com").unwrap_err(), refused);
    assert_eq!(normalize_base_url("http://127.0.0.1.example.com").unwrap_err(), refused);
    assert_eq!(normalize_base_url("http://localhostx:80").unwrap_err(), refused);
    assert_eq!(normalize_base_url("http://localhost").unwrap(), "http://localhost");
    assert_eq!(normalize_base_url("http://LOCALHOST:4571/api").unwrap(), "http://LOCALHOST:4571/api");
    assert_eq!(normalize_base_url("http://[::1]/").unwrap(), "http://[::1]");
    assert_eq!(normalize_base_url("https://localhost.example.com").unwrap(), "https://localhost.example.com");
}

#[test]
fn normalizing_twice_changes_nothing() {
    for input in ["https://tragentics.com/", "  http://localhost:4571//  ", "HTTPS://X.io"] {
        let once = normalize_base_url(input).unwrap();
        assert_eq!(normalize_base_url(&once).unwrap(), once);
    }
}

#[test]
fn fingerprints_are_twelve_characters() {
    let token = format!("tk_{}", "0123456789abcdef".repeat(4));
    assert_eq!(token_fingerprint(&token).chars().count(), 12);
}
