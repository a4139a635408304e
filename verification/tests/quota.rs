use codex_quota::json::parse_json;
use codex_quota::models::codex::{
    CodexAccount, CodexQuota, CodexQuotaErrorInfo, CodexTokens, WEEKLY_WINDOW_MINUTES_THRESHOLD,
};
use codex_quota::quota::apply::{
    apply_direct_quota_observation, should_apply_direct_quota_observation,
    should_keep_existing_quota_exhaustion,
};
use codex_quota::quota::direct::DirectQuotaObservation;
use codex_quota::quota::events::parse_direct_quota_observation_from_session_line;
use codex_quota::quota::logs::{
    latest_direct_quota_observations_from_codex_log_rows, DirectCodexLogRow,
};
use codex_quota::quota::messages::{extract_quota_reset_hint_from_body, is_quota_exhaustion_error};
use codex_quota::quota::preference::is_better_direct_quota_observation;
use codex_quota::quota::sessions::{
    latest_direct_quota_observation_from_sessions, recent_session_text, session_scan_start,
};
use codex_quota::quota::snapshot::write_quota_fetch_error;
use codex_quota::quota::usage::{
    parse_quota_from_usage, RateLimitInfo, UsageResponse, WindowInfo,
};

fn test_account() -> CodexAccount {
    CodexAccount::new(
        "codex_test".to_string(),
        "user@example.com".to_string(),
        CodexTokens {
            id_token: String::new(),
            access_token: String::new(),
            refresh_token: None,
        },
    )
}

#[test]
fn quota_fetch_error_sets_exhausted_quota_to_zero() {
    let mut account = test_account();
    account.quota = Some(CodexQuota {
        hourly_percentage: 64,
        hourly_reset_time: Some(111),
        hourly_window_minutes: Some(300),
        hourly_window_present: Some(true),
        weekly_percentage: 27,
        weekly_reset_time: Some(222),
        weekly_window_minutes: Some(10080),
        weekly_window_present: Some(true),
        raw_data: None,
    });

    write_quota_fetch_error(
        &mut account,
        "API 返回错误 429 [error_code:usage_limit_reached] [body_len:42]".to_string(),
    );

    let quota = account.quota.as_ref().expect("quota snapshot");
    assert_eq!(quota.hourly_percentage, 0);
    assert_eq!(quota.weekly_percentage, 0);
    assert_eq!(quota.hourly_reset_time, Some(111));
    assert_eq!(quota.weekly_reset_time, Some(222));
    assert_eq!(
        account
            .quota_error
            .as_ref()
            .and_then(|error| error.code.as_deref()),
        Some("usage_limit_reached")
    );
    assert!(account.usage_updated_at.is_some());
}

#[test]
fn quota_fetch_error_uses_reset_hint_for_exhausted_snapshot() {
    let mut account = test_account();
    account.quota = Some(CodexQuota {
        hourly_percentage: 64,
        hourly_reset_time: Some(111),
        hourly_window_minutes: Some(300),
        hourly_window_present: Some(true),
        weekly_percentage: 27,
        weekly_reset_time: Some(222),
        weekly_window_minutes: Some(10080),
        weekly_window_present: Some(true),
        raw_data: None,
    });

    write_quota_fetch_error(
        &mut account,
        "API 返回错误 429 [error_code:usage_limit_reached] [reset_at:333] [reset_after_seconds:60] [body_len:42]".to_string(),
    );

    let quota = account.quota.as_ref().expect("quota snapshot");
    assert_eq!(quota.hourly_percentage, 0);
    assert_eq!(quota.weekly_percentage, 0);
    assert_eq!(quota.hourly_reset_time, Some(333));
    assert_eq!(quota.weekly_reset_time, Some(333));
    assert_eq!(
        quota
            .raw_data
            .as_ref()
            .and_then(|value| value.get("reset_at"))
            .and_then(|value| value.as_i64()),
        Some(333)
    );
}

#[test]
fn quota_reset_hint_body_computes_reset_at_from_reset_after_seconds() {
    let hint = extract_quota_reset_hint_from_body(
        r#"{"error":{"code":"usage_limit_reached","resets_in_seconds":60}}"#,
        1_700_000_000,
    )
    .expect("reset hint should parse");

    assert_eq!(hint, (Some(1_700_000_060), Some(60)));
}

#[test]
fn quota_reset_hint_body_accepts_string_retry_after_alias() {
    let hint = extract_quota_reset_hint_from_body(
        r#"{"error":{"code":"insufficient_quota","retry_after":"45"}}"#,
        1_700_000_000,
    )
    .expect("reset hint should parse string retry_after alias");

    assert_eq!(hint, (Some(1_700_000_045), Some(45)));
}

#[test]
fn direct_codex_log_error_observation_maps_identity_and_zeroes_quota() {
    let mut account = test_account();
    account.id = "codex_direct_log_error".to_string();
    account.email = "direct@example.com".to_string();
    account.account_id = Some("acc-direct".to_string());
    account.last_used = 1_700_000_000;
    account.usage_updated_at = Some(1_700_000_000);
    account.quota = Some(CodexQuota {
        hourly_percentage: 100,
        hourly_reset_time: None,
        hourly_window_minutes: None,
        hourly_window_present: Some(false),
        weekly_percentage: 97,
        weekly_reset_time: Some(1_700_010_000),
        weekly_window_minutes: Some(WEEKLY_WINDOW_MINUTES_THRESHOLD),
        weekly_window_present: Some(true),
        raw_data: None,
    });
    let rows = vec![
        DirectCodexLogRow {
            id: 1,
            ts: 1_700_000_010,
            thread_id: Some("thread-a".to_string()),
            body: r#"codex_otel.log_only user.account_id="acc-direct" user.email="direct@example.com""#
                .to_string(),
        },
        DirectCodexLogRow {
            id: 2,
            ts: 1_700_000_020,
            thread_id: Some("thread-a".to_string()),
            body: r#"websocket.stream_request: websocket event: {"type":"response.failed","response":{"error":{"type":"usage_limit_reached","reset_after_seconds":120}}}"#
                .to_string(),
        },
    ];

    let observations =
        latest_direct_quota_observations_from_codex_log_rows(&[account.clone()], rows);
    let observation = observations
        .get("codex_direct_log_error")
        .expect("direct websocket error should map to account");

    assert!(observation.exhausted);
    assert_eq!(observation.source, "codex_official_websocket_error");
    assert_eq!(observation.reset_at, Some(1_700_000_140));
    apply_direct_quota_observation(&mut account, observation);
    let quota = account.quota.as_ref().expect("quota should be repaired");
    assert_eq!(quota.hourly_percentage, 0);
    assert_eq!(quota.weekly_percentage, 0);
    assert_eq!(quota.hourly_reset_time, Some(1_700_000_140));
    assert_eq!(quota.weekly_reset_time, Some(1_700_000_140));
    assert_eq!(
        account
            .quota_error
            .as_ref()
            .and_then(|error| error.code.as_deref()),
        Some("usage_limit_reached")
    );
}

#[test]
fn direct_codex_log_rate_limit_observation_maps_identity_and_zeroes_weekly_quota() {
    let mut account = test_account();
    account.id = "codex_direct_log_rate_limits".to_string();
    account.email = "direct@example.com".to_string();
    account.account_id = Some("acc-direct".to_string());
    account.last_used = 1_700_000_000;
    account.usage_updated_at = Some(1_700_000_000);
    account.quota = Some(CodexQuota {
        hourly_percentage: 100,
        hourly_reset_time: None,
        hourly_window_minutes: None,
        hourly_window_present: Some(false),
        weekly_percentage: 97,
        weekly_reset_time: Some(1_700_010_000),
        weekly_window_minutes: Some(WEEKLY_WINDOW_MINUTES_THRESHOLD),
        weekly_window_present: Some(true),
        raw_data: None,
    });
    let rows = vec![
        DirectCodexLogRow {
            id: 1,
            ts: 1_700_000_010,
            thread_id: Some("thread-a".to_string()),
            body: r#"codex_otel.log_only user.account_id="acc-direct" user.email="direct@example.com""#
                .to_string(),
        },
        DirectCodexLogRow {
            id: 2,
            ts: 1_700_000_020,
            thread_id: Some("thread-a".to_string()),
            body: r#"websocket.stream_request: websocket event: {"type":"codex.rate_limits","plan_type":"free","rate_limits":{"allowed":false,"limit_reached":true,"primary":{"used_percent":3,"window_minutes":10080,"reset_after_seconds":120,"reset_at":1700000140},"secondary":null}}"#
                .to_string(),
        },
    ];

    let observations =
        latest_direct_quota_observations_from_codex_log_rows(&[account.clone()], rows);
    let observation = observations
        .get("codex_direct_log_rate_limits")
        .expect("direct websocket rate_limits should map to account");

    assert!(observation.exhausted);
    assert_eq!(observation.source, "codex_official_websocket_rate_limits");
    assert_eq!(observation.reset_at, Some(1_700_000_140));
    apply_direct_quota_observation(&mut account, observation);
    let quota = account.quota.as_ref().expect("quota should be repaired");
    assert_eq!(quota.weekly_percentage, 0);
    assert_eq!(quota.weekly_reset_time, Some(1_700_000_140));
    assert_eq!(quota.weekly_window_present, Some(true));
    assert_eq!(
        quota
            .raw_data
            .as_ref()
            .and_then(|value| value.get("source"))
            .and_then(|value| value.as_str()),
        Some("codex_official_websocket_rate_limits")
    );
    assert_eq!(
        account
            .quota_error
            .as_ref()
            .and_then(|error| error.code.as_deref()),
        Some("usage_limit_reached")
    );
}

#[test]
fn direct_codex_log_error_uses_rate_limit_reset_over_short_retry_backoff() {
    let mut account = test_account();
    account.id = "codex_direct_log_error_with_window_reset".to_string();
    account.email = "direct@example.com".to_string();
    account.account_id = Some("acc-direct".to_string());
    account.last_used = 1_700_000_000;
    let rows = vec![
        DirectCodexLogRow {
            id: 1,
            ts: 1_700_000_010,
            thread_id: Some("thread-a".to_string()),
            body: r#"codex_otel.log_only user.account_id="acc-direct" user.email="direct@example.com""#
                .to_string(),
        },
        DirectCodexLogRow {
            id: 2,
            ts: 1_700_000_020,
            thread_id: Some("thread-a".to_string()),
            body: r#"websocket.stream_request: websocket event: {"type":"codex.rate_limits","plan_type":"free","rate_limits":{"allowed":true,"limit_reached":false,"primary":{"used_percent":88,"window_minutes":10080,"reset_after_seconds":604800,"reset_at":1700604820},"secondary":null}}"#
                .to_string(),
        },
        DirectCodexLogRow {
            id: 3,
            ts: 1_700_000_030,
            thread_id: Some("thread-a".to_string()),
            body: r#"websocket.stream_request: websocket event: {"type":"response.failed","response":{"error":{"type":"usage_limit_reached","reset_after_seconds":120}}}"#
                .to_string(),
        },
    ];

    let observations = latest_direct_quota_observations_from_codex_log_rows(&[account], rows);
    let observation = observations
        .get("codex_direct_log_error_with_window_reset")
        .expect("direct websocket error should map to account");

    assert!(observation.exhausted);
    assert_eq!(observation.source, "codex_official_websocket_error");
    assert_eq!(
        observation.reset_at,
        Some(1_700_604_820),
        "short websocket error retry/backoff must not replace the quota window reset"
    );
    assert_eq!(
        observation.reset_after_seconds,
        Some(604_790),
        "reset_after_seconds should be recomputed from the selected quota window reset"
    );
}

#[test]
fn direct_codex_log_parser_ignores_request_body_usage_limit_text_without_websocket_event() {
    let mut account = test_account();
    account.id = "codex_direct_log_false_positive".to_string();
    account.email = "direct@example.com".to_string();
    account.account_id = Some("acc-direct".to_string());
    account.last_used = 1_700_000_000;
    let rows = vec![
        DirectCodexLogRow {
            id: 1,
            ts: 1_700_000_010,
            thread_id: Some("thread-a".to_string()),
            body: r#"codex_otel.log_only user.account_id="acc-direct" user.email="direct@example.com""#
                .to_string(),
        },
        DirectCodexLogRow {
            id: 2,
            ts: 1_700_000_020,
            thread_id: Some("thread-a".to_string()),
            body: r#"request_body={"prompt":"请检查 usage_limit_reached 是否出现"}"#.to_string(),
        },
        DirectCodexLogRow {
            id: 3,
            ts: 1_700_000_030,
            thread_id: Some("thread-a".to_string()),
            body: r#"websocket.stream_request: websocket event: {"type":"response.output_text.delta","delta":"usage_limit_reached"}"#
                .to_string(),
        },
    ];

    let observations = latest_direct_quota_observations_from_codex_log_rows(&[account], rows);

    assert!(
        observations.is_empty(),
        "non-error websocket deltas and request bodies must not zero quota"
    );
}

#[test]
fn direct_codex_log_parser_ignores_ambiguous_email_identity() {
    let mut first = test_account();
    first.id = "codex_direct_log_first".to_string();
    first.email = "shared@example.com".to_string();
    first.last_used = 1_700_000_000;
    let mut second = test_account();
    second.id = "codex_direct_log_second".to_string();
    second.email = "shared@example.com".to_string();
    second.last_used = 1_700_000_000;
    let rows = vec![
        DirectCodexLogRow {
            id: 1,
            ts: 1_700_000_010,
            thread_id: Some("thread-a".to_string()),
            body: r#"codex_otel.log_only user.email="shared@example.com""#.to_string(),
        },
        DirectCodexLogRow {
            id: 2,
            ts: 1_700_000_020,
            thread_id: Some("thread-a".to_string()),
            body: r#"websocket.stream_request: websocket event: {"type":"response.failed","response":{"error":{"type":"usage_limit_reached","reset_after_seconds":120}}}"#
                .to_string(),
        },
    ];

    let observations =
        latest_direct_quota_observations_from_codex_log_rows(&[first, second], rows);

    assert!(
        observations.is_empty(),
        "ambiguous email-only identity must not zero an arbitrary account"
    );
}

#[test]
fn quota_usage_reset_at_normalizes_millisecond_timestamp() {
    let usage = UsageResponse {
        plan_type: Some("pro".to_string()),
        rate_limit: Some(RateLimitInfo {
            allowed: Some(true),
            limit_reached: Some(false),
            primary_window: Some(WindowInfo {
                used_percent: Some(40),
                limit_window_seconds: Some(18_000),
                reset_after_seconds: None,
                reset_at: Some(1_700_000_360_000),
            }),
            secondary_window: None,
        }),
        code_review_rate_limit: None,
        rate_limit_reached_type: None,
    };

    let quota = parse_quota_from_usage(&usage, "{}").expect("quota should parse");

    assert_eq!(quota.hourly_percentage, 60);
    assert_eq!(quota.hourly_reset_time, Some(1_700_000_360));
}

#[test]
fn quota_usage_primary_weekly_window_maps_to_weekly_quota() {
    let usage = UsageResponse {
        plan_type: Some("free".to_string()),
        rate_limit: Some(RateLimitInfo {
            allowed: Some(false),
            limit_reached: Some(true),
            primary_window: Some(WindowInfo {
                used_percent: Some(100),
                limit_window_seconds: Some(604_800),
                reset_after_seconds: None,
                reset_at: Some(1_700_604_800),
            }),
            secondary_window: None,
        }),
        code_review_rate_limit: None,
        rate_limit_reached_type: None,
    };

    let quota = parse_quota_from_usage(&usage, "{}").expect("quota should parse");

    assert_eq!(quota.hourly_percentage, 100);
    assert_eq!(quota.hourly_window_present, Some(false));
    assert_eq!(quota.weekly_percentage, 0);
    assert_eq!(quota.weekly_reset_time, Some(1_700_604_800));
    assert_eq!(quota.weekly_window_present, Some(true));
}

#[test]
fn persisted_weekly_window_in_hourly_slot_normalizes_to_weekly() {
    let mut quota = CodexQuota {
        hourly_percentage: 97,
        hourly_reset_time: Some(1_780_310_638),
        hourly_window_minutes: Some(10_080),
        hourly_window_present: Some(true),
        weekly_percentage: 100,
        weekly_reset_time: None,
        weekly_window_minutes: None,
        weekly_window_present: Some(false),
        raw_data: None,
    };

    assert!(quota.normalize_window_slots());
    assert_eq!(quota.hourly_percentage, 100);
    assert_eq!(quota.hourly_reset_time, None);
    assert_eq!(quota.hourly_window_present, Some(false));
    assert_eq!(quota.weekly_percentage, 97);
    assert_eq!(quota.weekly_reset_time, Some(1_780_310_638));
    assert_eq!(quota.weekly_window_minutes, Some(10_080));
    assert_eq!(quota.weekly_window_present, Some(true));
}

#[test]
fn quota_usage_reached_type_zeroes_lagging_usage_payload() {
    let usage = UsageResponse {
        plan_type: Some("free".to_string()),
        rate_limit: Some(RateLimitInfo {
            allowed: Some(true),
            limit_reached: Some(false),
            primary_window: Some(WindowInfo {
                used_percent: Some(3),
                limit_window_seconds: Some(604800),
                reset_after_seconds: None,
                reset_at: Some(1700604800),
            }),
            secondary_window: None,
        }),
        code_review_rate_limit: None,
        rate_limit_reached_type: Some(
            parse_json(r#"{"type":"workspace_member_usage_limit_reached"}"#)
                .expect("usage payload should parse"),
        ),
    };

    let quota = parse_quota_from_usage(&usage, "{}").expect("quota should parse");

    assert_eq!(quota.weekly_percentage, 0);
    assert_eq!(quota.weekly_reset_time, Some(1_700_604_800));
}

#[test]
fn active_direct_quota_exhaustion_snapshot_blocks_stale_success_overwrite() {
    let mut account = test_account();
    account.quota_error = Some(CodexQuotaErrorInfo {
        code: Some("usage_limit_reached".to_string()),
        message: "Codex Direct OAuth upstream quota exhausted: status=429, error_type=usage_limit_reached, reset_at=1700003600".to_string(),
        timestamp: 1_700_000_000,
    });
    account.quota = Some(CodexQuota {
        hourly_percentage: 0,
        hourly_reset_time: Some(1_700_003_600),
        hourly_window_minutes: Some(300),
        hourly_window_present: Some(true),
        weekly_percentage: 0,
        weekly_reset_time: Some(1_700_003_600),
        weekly_window_minutes: Some(10080),
        weekly_window_present: Some(true),
        raw_data: Some(
            parse_json(
                r#"{"source":"codex_direct_oauth_upstream_error","quota_exhausted":true,"reset_at":1700003600}"#,
            )
            .expect("raw data should parse"),
        ),
    });

    assert!(should_keep_existing_quota_exhaustion(
        &account,
        1_700_000_100
    ));
}

#[test]
fn direct_session_parser_ignores_non_token_count_rate_limit_payloads() {
    let line = r#"{"timestamp":"2026-05-25T11:42:31Z","type":"event_msg","payload":{"type":"function_call_output","rate_limits":{"primary":{"used_percent":100,"window_minutes":10080,"resets_at":1780314131},"rate_limit_reached_type":"usage_limit_reached"}}}"#.to_string();

    assert!(parse_direct_quota_observation_from_session_line(&line).is_none());
}

#[test]
fn direct_session_parser_ignores_non_error_usage_limit_payloads() {
    let line = r#"{"timestamp":"2026-05-25T11:42:31Z","type":"event_msg","payload":{"type":"function_call_output","error":{"type":"usage_limit_reached","reset_after_seconds":120}}}"#.to_string();

    assert!(parse_direct_quota_observation_from_session_line(&line).is_none());
}

#[test]
fn direct_session_rate_limit_event_builds_quota_observation() {
    let line = r#"{"timestamp":"2026-05-25T11:42:31.809Z","type":"event_msg","payload":{"type":"token_count","rate_limits":{"limit_id":"codex","primary":{"used_percent":100.0,"window_minutes":10080,"resets_at":1780314131},"secondary":null,"plan_type":"free","rate_limit_reached_type":"workspace_member_usage_limit_reached"}}}"#.to_string();

    let observation =
        parse_direct_quota_observation_from_session_line(&line).expect("observation");

    assert_eq!(observation.reset_at, Some(1_780_314_131));
    assert_eq!(
        observation.error_type.as_deref(),
        Some("workspace_member_usage_limit_reached")
    );
    assert_eq!(observation.source, "codex_session_rate_limits");
    assert!(observation.exhausted);
    assert_eq!(
        observation
            .quota
            .as_ref()
            .map(|quota| quota.weekly_percentage),
        Some(0)
    );
}

#[test]
fn direct_session_rate_limit_event_computes_relative_reset_hint() {
    let line = r#"{"timestamp":"2026-05-25T11:42:31Z","type":"event_msg","payload":{"type":"token_count","rate_limits":{"primary":{"used_percent":"100","window_minutes":300,"reset_after_seconds":"60"}}}}"#.to_string();

    let observation =
        parse_direct_quota_observation_from_session_line(&line).expect("observation");

    assert_eq!(observation.reset_after_seconds, Some(60));
    assert_eq!(observation.reset_at, Some(observation.observed_at + 60));
}

#[test]
fn direct_session_rate_limit_event_updates_partial_remaining_quota() {
    let line = r#"{"timestamp":"2026-05-25T12:41:39Z","type":"event_msg","payload":{"type":"token_count","rate_limits":{"primary":{"used_percent":56,"window_minutes":10080,"resets_at":1780317510},"secondary":null,"plan_type":"free","rate_limit_reached_type":null}}}"#.to_string();

    let observation =
        parse_direct_quota_observation_from_session_line(&line).expect("observation");
    let quota = observation.quota.as_ref().expect("quota snapshot");

    assert!(!observation.exhausted);
    assert_eq!(observation.error_type, None);
    assert_eq!(quota.hourly_window_present, Some(false));
    assert_eq!(quota.weekly_percentage, 44);
    assert_eq!(quota.weekly_reset_time, Some(1_780_317_510));
    assert_eq!(quota.weekly_window_minutes, Some(10_080));
}

#[test]
fn direct_session_partial_quota_only_applies_when_more_constrained() {
    let mut account = test_account();
    account.quota = Some(CodexQuota {
        hourly_percentage: 100,
        hourly_reset_time: None,
        hourly_window_minutes: None,
        hourly_window_present: Some(false),
        weekly_percentage: 97,
        weekly_reset_time: Some(1_780_317_510),
        weekly_window_minutes: Some(10_080),
        weekly_window_present: Some(true),
        raw_data: None,
    });
    let observation = DirectQuotaObservation {
        observed_at: 1_779_712_100,
        reset_at: Some(1_780_317_510),
        reset_after_seconds: Some(60),
        error_type: None,
        source: "codex_session_rate_limits".to_string(),
        exhausted: false,
        quota: Some(CodexQuota {
            hourly_percentage: 100,
            hourly_reset_time: None,
            hourly_window_minutes: None,
            hourly_window_present: Some(false),
            weekly_percentage: 44,
            weekly_reset_time: Some(1_780_317_510),
            weekly_window_minutes: Some(10_080),
            weekly_window_present: Some(true),
            raw_data: None,
        }),
    };

    assert!(should_apply_direct_quota_observation(
        &account,
        &observation
    ));

    account.quota.as_mut().unwrap().weekly_percentage = 20;
    assert!(!should_apply_direct_quota_observation(
        &account,
        &observation
    ));

    let expired_exhaustion = DirectQuotaObservation {
        observed_at: 1,
        reset_at: Some(1),
        reset_after_seconds: Some(0),
        error_type: Some("usage_limit_reached".to_string()),
        source: "codex_session_error".to_string(),
        exhausted: true,
        quota: None,
    };
    assert!(!should_apply_direct_quota_observation(
        &account,
        &expired_exhaustion
    ));
}

#[test]
fn direct_session_observation_selection_prefers_more_constrained_snapshot() {
    let older_low = DirectQuotaObservation {
        observed_at: 20,
        reset_at: Some(100),
        reset_after_seconds: Some(80),
        error_type: None,
        source: "codex_session_rate_limits".to_string(),
        exhausted: false,
        quota: Some(CodexQuota {
            hourly_percentage: 100,
            hourly_reset_time: None,
            hourly_window_minutes: None,
            hourly_window_present: Some(false),
            weekly_percentage: 44,
            weekly_reset_time: Some(100),
            weekly_window_minutes: Some(10_080),
            weekly_window_present: Some(true),
            raw_data: None,
        }),
    };
    let newer_high = DirectQuotaObservation {
        observed_at: 30,
        reset_at: Some(110),
        reset_after_seconds: Some(80),
        error_type: None,
        source: "codex_session_rate_limits".to_string(),
        exhausted: false,
        quota: Some(CodexQuota {
            hourly_percentage: 100,
            hourly_reset_time: None,
            hourly_window_minutes: None,
            hourly_window_present: Some(false),
            weekly_percentage: 97,
            weekly_reset_time: Some(110),
            weekly_window_minutes: Some(10_080),
            weekly_window_present: Some(true),
            raw_data: None,
        }),
    };

    assert!(is_better_direct_quota_observation(
        &older_low,
        Some(&newer_high)
    ));
    assert!(!is_better_direct_quota_observation(
        &newer_high,
        Some(&older_low)
    ));
}

#[test]
fn direct_session_error_event_parses_reset_hint() {
    let line = r#"{"timestamp":"2026-05-25T11:42:31Z","type":"event_msg","payload":{"type":"error","status":429,"error":{"type":"usage_limit_reached","message":"The usage limit has been reached","resets_in_seconds":"120"}}}"#.to_string();

    let observation =
        parse_direct_quota_observation_from_session_line(&line).expect("observation");

    assert_eq!(observation.reset_after_seconds, Some(120));
    assert_eq!(observation.reset_at, Some(observation.observed_at + 120));
    assert_eq!(
        observation.error_type.as_deref(),
        Some("usage_limit_reached")
    );
}

#[test]
fn direct_session_error_observation_applies_zero_quota_snapshot_with_reset() {
    let line = r#"{"timestamp":"2026-05-25T11:42:31Z","type":"event_msg","payload":{"type":"error","status":429,"error":{"type":"usage_limit_reached","message":"The usage limit has been reached","reset_after_seconds":120}}}"#.to_string();
    let observation =
        parse_direct_quota_observation_from_session_line(&line).expect("observation");
    let mut account = test_account();
    account.quota = Some(CodexQuota {
        hourly_percentage: 64,
        hourly_reset_time: Some(111),
        hourly_window_minutes: Some(300),
        hourly_window_present: Some(true),
        weekly_percentage: 27,
        weekly_reset_time: Some(222),
        weekly_window_minutes: Some(10080),
        weekly_window_present: Some(true),
        raw_data: None,
    });

    apply_direct_quota_observation(&mut account, &observation);

    let quota = account.quota.as_ref().expect("quota snapshot");
    assert_eq!(quota.hourly_percentage, 0);
    assert_eq!(quota.weekly_percentage, 0);
    assert_eq!(quota.hourly_reset_time, observation.reset_at);
    assert_eq!(quota.weekly_reset_time, observation.reset_at);
    assert_eq!(
        quota
            .raw_data
            .as_ref()
            .and_then(|value| value.get("reset_after_seconds"))
            .and_then(|value| value.as_i64()),
        Some(120)
    );
    assert_eq!(account.usage_updated_at, Some(observation.observed_at));
    assert_eq!(
        account
            .quota_error
            .as_ref()
            .and_then(|error| error.code.as_deref()),
        Some("usage_limit_reached")
    );
}

#[test]
fn direct_session_error_event_parses_insufficient_quota_without_rate_limits() {
    let line = r#"{"timestamp":"2026-05-25T11:42:31Z","type":"event_msg","payload":{"type":"error","status":429,"error":{"type":"insufficient_quota","message":"Quota exceeded","reset_after_seconds":45}}}"#.to_string();

    let observation =
        parse_direct_quota_observation_from_session_line(&line).expect("observation");

    assert_eq!(observation.reset_after_seconds, Some(45));
    assert_eq!(
        observation.error_type.as_deref(),
        Some("insufficient_quota")
    );
}

#[test]
fn quota_fetch_error_does_not_zero_generic_rate_limit() {
    let mut account = test_account();
    account.quota = Some(CodexQuota {
        hourly_percentage: 64,
        hourly_reset_time: Some(111),
        hourly_window_minutes: Some(300),
        hourly_window_present: Some(true),
        weekly_percentage: 27,
        weekly_reset_time: Some(222),
        weekly_window_minutes: Some(10080),
        weekly_window_present: Some(true),
        raw_data: None,
    });

    write_quota_fetch_error(
        &mut account,
        "API 返回错误 429 [error_code:rate_limit_exceeded] [reset_after_seconds:60] [body_len:42]".to_string(),
    );

    let quota = account.quota.as_ref().expect("quota should stay unchanged");
    assert_eq!(quota.hourly_percentage, 64);
    assert_eq!(quota.weekly_percentage, 27);
    assert_eq!(
        account
            .quota_error
            .as_ref()
            .and_then(|error| error.code.as_deref()),
        Some("rate_limit_exceeded")
    );
    assert!(account.usage_updated_at.is_none());
}

#[test]
fn token_refresh_error_is_not_quota_exhaustion() {
    assert!(!is_quota_exhaustion_error("Token 已过期且刷新失败"));
}

#[test]
fn direct_session_scan_ignores_large_file_prefix_outside_tail_window() {
    let stale_prefix_observation = r#"{"timestamp":"2026-05-25T11:42:31Z","type":"event_msg","payload":{"type":"error","status":429,"error":{"type":"usage_limit_reached","reset_after_seconds":120}}}"#;
    let filler = " ".repeat((256 * 1024) + 128);
    let file = format!("{}\n{}", stale_prefix_observation, filler);

    let start = session_scan_start(file.len() as u64);
    let tail = file[start as usize..].to_string();
    let texts: Vec<String> = recent_session_text(tail, start).into_iter().collect();
    let observation = latest_direct_quota_observation_from_sessions(&texts, 0);

    assert!(
        observation.is_none(),
        "startup repair must not scan large session file prefixes"
    );
    let whole = latest_direct_quota_observation_from_sessions(&vec![file], 0);
    assert!(whole.is_some());
}
