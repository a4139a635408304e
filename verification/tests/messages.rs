use codex_quota::json::parse_json;
use codex_quota::models::codex::{CodexAccount, CodexTokens};
use codex_quota::quota::messages::{
    api_error_message, extract_detail_code_from_body, extract_error_code_from_message,
    extract_i64_marker_from_message, extract_quota_reset_hint, extract_quota_reset_hint_from_body,
    is_quota_exhaustion_error, normalize_unix_timestamp_seconds, quota_response_error,
};
use codex_quota::quota::snapshot::{
    build_exhausted_quota_snapshot, write_quota_error, write_quota_fetch_error_at,
};

fn account() -> CodexAccount {
    CodexAccount::new_at(
        "codex_message".to_string(),
        "message@example.com".to_string(),
        CodexTokens {
            id_token: String::new(),
            access_token: String::new(),
            refresh_token: None,
        },
        7,
    )
}

#[test]
fn error_code_stands_in_brackets_or_bare() {
    let code = |message: &str| extract_error_code_from_message(message);
    assert_eq!(code("x [error_code:abc def] y"), Some("abc def".to_string()));
    assert_eq!(code("x [error_code:] y"), Some(String::new()));
    assert_eq!(code("x [error_code:abc"), None);
    assert_eq!(code("error_code=abc, more"), Some("abc".to_string()));
    assert_eq!(code("error_code=abc]"), Some("abc".to_string()));
    assert_eq!(code("error_code=abc\u{3000}def"), Some("abc".to_string()));
    assert_eq!(code("error_code=abc"), Some("abc".to_string()));
    assert_eq!(code("error_code=, abc"), None);
    assert_eq!(code("nothing here"), None);
    assert_eq!(code("error_code=first [error_code:second]"), Some("second".to_string()));
}

#[test]
fn marked_integers_are_read_from_messages() {
    let read = |message: &str| extract_i64_marker_from_message(message, "[reset_at:");
    assert_eq!(read("a [reset_at:42] b"), Some(42));
    assert_eq!(read("a [reset_at:-42] b"), Some(-42));
    assert_eq!(read("a [reset_at:+42] b"), Some(42));
    assert_eq!(read("a [reset_at: 42] b"), None);
    assert_eq!(read("a [reset_at:42"), None);
    assert_eq!(read("a [reset_at:9223372036854775808]"), None);
    assert_eq!(read("a [reset_at:-9223372036854775808]"), Some(i64::MIN));
    assert_eq!(read("a"), None);
}

#[test]
fn timestamps_in_milliseconds_become_seconds() {
    assert_eq!(normalize_unix_timestamp_seconds(1_700_000_360_999), 1_700_000_360);
    assert_eq!(normalize_unix_timestamp_seconds(1_000_000_000_000), 1_000_000_000_000);
    assert_eq!(normalize_unix_timestamp_seconds(1_000_000_000_001), 1_000_000_000);
    assert_eq!(normalize_unix_timestamp_seconds(-5), -5);
}

#[test]
fn detail_codes_are_looked_for_in_order() {
    let code = |body: &str| extract_detail_code_from_body(body);
    let all = r#"{"detail":{"code":"a"},"error":{"code":"b"},"code":"c"}"#;
    assert_eq!(code(all), Some("a".to_string()));
    let two = r#"{"detail":{"code":1},"error":{"code":"b"},"code":"c"}"#;
    assert_eq!(code(two), Some("b".to_string()));
    assert_eq!(code(r#"{"error":"b","code":"c"}"#), Some("c".to_string()));
    assert_eq!(code(r#"{"code":3}"#), None);
    assert_eq!(code("[]"), None);
    assert_eq!(code("not json"), None);
}

#[test]
fn reset_hints_are_looked_for_in_order() {
    let now = 1_000;
    let hint = |body: &str| extract_quota_reset_hint_from_body(body, now);
    assert_eq!(hint(r#"{"reset_at":5,"error":{"reset_at":6}}"#), Some((Some(5), None)));
    assert_eq!(hint(r#"{"detail":{"resets_at":1700000360000}}"#), Some((Some(1_700_000_360), None)));
    assert_eq!(hint(r#"{"data":{"reset_at":7,"retry_after":" 9 "}}"#), Some((Some(7), Some(9))));
    assert_eq!(hint(r#"{"error":{"retry_after":-1}}"#), None);
    assert_eq!(hint(r#"{"reset_after_seconds":1.5,"resets_in_seconds":2}"#), Some((Some(1_002), Some(2))));
    assert_eq!(
        hint(r#"{"retry_after":9223372036854775807}"#),
        Some((Some(i64::MAX), Some(i64::MAX)))
    );
    assert_eq!(hint(r#"{"retry_after":9223372036854775808}"#), None);
    assert_eq!(hint("{}"), None);
    assert_eq!(hint("{"), None);
    let root = parse_json(r#"{"reset_at":5}"#).unwrap();
    assert_eq!(extract_quota_reset_hint(&root, now), Some((Some(5), None)));
}

#[test]
fn what_is_written_into_a_message_is_found_again() {
    let message = api_error_message("429 Too Many Requests", Some("usage_limit_reached"), Some(-5), Some(60), 42);
    assert_eq!(
        message,
        "API 返回错误 429 Too Many Requests [error_code:usage_limit_reached] [reset_at:-5] [reset_after_seconds:60] [body_len:42]"
    );
    assert_eq!(extract_error_code_from_message(&message), Some("usage_limit_reached".to_string()));
    assert_eq!(extract_i64_marker_from_message(&message, "[reset_at:"), Some(-5));
    assert_eq!(extract_i64_marker_from_message(&message, "[reset_after_seconds:"), Some(60));

    let bare = api_error_message("500 Internal Server Error", None, None, None, 0);
    assert_eq!(bare, "API 返回错误 500 Internal Server Error [body_len:0]");
    assert_eq!(extract_error_code_from_message(&bare), None);
    assert_eq!(extract_i64_marker_from_message(&bare, "[reset_at:"), None);
}

#[test]
fn refused_responses_are_summed_up() {
    let body = r#"{"error":{"code":"usage_limit_reached","resets_in_seconds":60}}"#;
    assert_eq!(
        quota_response_error("429 Too Many Requests", body, 1_700_000_000),
        "API 返回错误 429 Too Many Requests [error_code:usage_limit_reached] [reset_at:1700000060] [reset_after_seconds:60] [body_len:63]"
    );
    assert_eq!(
        quota_response_error("502 Bad Gateway", "é", 0),
        "API 返回错误 502 Bad Gateway [body_len:2]"
    );
    let mut refused = account();
    let message = quota_response_error("429 Too Many Requests", body, 1_700_000_000);
    write_quota_fetch_error_at(&mut refused, message, 1_700_000_001);
    let quota = refused.quota.expect("snapshot");
    assert_eq!(quota.hourly_reset_time, Some(1_700_000_060));
    assert_eq!(quota.weekly_reset_time, Some(1_700_000_060));
    assert_eq!(quota.hourly_window_present, Some(true));
    assert_eq!(refused.usage_updated_at, Some(1_700_000_001));
}

#[test]
fn exhaustion_is_told_by_words() {
    for word in [
        "USAGE_LIMIT_REACHED",
        "insufficient_quota",
        "usage_limit",
        "Usage Limit",
        "limit_reached",
        "Limit reached",
        "quota exceeded",
        "quota LIMIT",
        "exhausted quota",
    ] {
        assert!(is_quota_exhaustion_error(word), "{}", word);
    }
    for word in ["quota", "exceeded", "rate_limit_exceeded", "limit", ""] {
        assert!(!is_quota_exhaustion_error(word), "{}", word);
    }
}

#[test]
fn errors_and_snapshots_carry_the_time_of_the_clock() {
    let mut noted = account();
    write_quota_error(&mut noted, "error_code=x".to_string());
    let error = noted.quota_error.as_ref().expect("error");
    assert_eq!(error.code.as_deref(), Some("x"));
    assert!(error.timestamp > 1_700_000_000);
    assert!(noted.quota.is_none());

    let snapshot = build_exhausted_quota_snapshot(&account(), "[reset_at:1700000360000]");
    assert_eq!(snapshot.hourly_reset_time, Some(1_700_000_360));
    let raw = snapshot.raw_data.expect("raw data");
    assert!(raw.get("exhausted_at").and_then(|value| value.as_i64()).unwrap() > 1_700_000_000);
    assert_eq!(raw.get("quota_exhausted").and_then(|value| value.as_bool()), Some(true));
    assert_eq!(raw.get("source").and_then(|value| value.as_str()), Some("quota_refresh_error"));
    assert_eq!(raw.get("reset_after_seconds").map(|value| value.as_i64()), Some(None));
}
