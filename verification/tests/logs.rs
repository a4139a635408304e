use codex_quota::models::codex::{CodexAccount, CodexQuota, CodexTokens};
use codex_quota::quota::direct::DirectQuotaObservation;
use codex_quota::quota::identity::{
    account_id_from_codex_log_identity, direct_account_identity_index, direct_identity_key,
    extract_quoted_log_attribute,
};
use codex_quota::quota::logs::{
    apply_direct_observation_reset_hint, direct_error_reset_looks_like_short_backoff,
    direct_observation_since_seconds, latest_direct_quota_observations_from_codex_log_rows,
    latest_direct_quota_observations_from_log_entries, DirectCodexLogEntry, DirectCodexLogRow,
};
use codex_quota::quota::scan::{
    advance_sync_state, direct_codex_log_body_may_contain_quota_observation,
    direct_codex_log_thread_ids_for_identity_backfill, incremental_scan_start, log_id_without_log,
    next_log_id, DirectCodexLogSyncState,
};
use codex_quota::quota::sessions::{
    latest_direct_quota_observation_from_sessions, recent_session_files, recent_session_text,
    session_scan_start, split_lines,
};
use codex_quota::text_map::TextMap;

fn account(id: &str, email: &str) -> CodexAccount {
    CodexAccount::new_at(
        id.to_string(),
        email.to_string(),
        CodexTokens {
            id_token: String::new(),
            access_token: String::new(),
            refresh_token: None,
        },
        1_000,
    )
}

fn row(id: i64, ts: i64, thread: Option<&str>, body: &str) -> DirectCodexLogRow {
    DirectCodexLogRow {
        id,
        ts,
        thread_id: thread.map(|thread| thread.to_string()),
        body: body.to_string(),
    }
}

fn limits(used: u32, reset_at: i64) -> String {
    format!(
        "websocket event: {{\"type\":\"codex.rate_limits\",\"rate_limits\":{{\"primary\":{{\"used_percent\":{},\"reset_at\":{}}}}}}}",
        used, reset_at
    )
}

#[test]
fn identities_are_keyed_without_case_and_blanks() {
    assert_eq!(direct_identity_key("email", "  A@B.c "), Some("email:a@b.c".to_string()));
    assert_eq!(direct_identity_key("email", "\t "), None);
}

#[test]
fn identities_of_one_account_have_an_owner() {
    let mut first = account("first", "One@Example.com");
    first.account_id = Some("acc".to_string());
    first.user_id = Some("shared".to_string());
    let mut second = account("second", "two@example.com");
    second.account_id = Some("  ".to_string());
    second.user_id = Some("SHARED".to_string());
    let twin = account("second", "two@example.com");
    let index = direct_account_identity_index(&[first, second, twin]);
    let owner = |key: &str| index.get(key).map(|owner| owner.as_str());
    assert_eq!(owner("email:one@example.com"), Some("first"));
    assert_eq!(owner("account_id:acc"), Some("first"));
    assert_eq!(owner("email:two@example.com"), Some("second"));
    assert_eq!(owner("user_id:shared"), None);
    assert_eq!(owner("account_id:"), None);
    assert!(!index.is_empty());
    assert!(direct_account_identity_index(&[]).is_empty());
}

#[test]
fn log_bodies_name_accounts() {
    assert_eq!(
        extract_quoted_log_attribute(r#"a user.id=" x " b"#, "user.id"),
        Some("x".to_string())
    );
    assert_eq!(extract_quoted_log_attribute(r#"user.id="  ""#, "user.id"), None);
    assert_eq!(extract_quoted_log_attribute(r#"user.id="x"#, "user.id"), None);
    assert_eq!(extract_quoted_log_attribute("user.id=x", "user.id"), None);
    let mut index: TextMap<String> = TextMap::new();
    index.insert("email:e", "by-email".to_string());
    index.insert("user_id:u", "by-user".to_string());
    let owner = |body: &str| account_id_from_codex_log_identity(body, &index);
    assert_eq!(owner(r#"user.account_id="a" user.email="E" user.id="u""#), Some("by-email".to_string()));
    assert_eq!(owner(r#"user.email="x" user.id="U""#), Some("by-user".to_string()));
    assert_eq!(owner("nobody"), None);
    index.insert("account_id:a", "by-account".to_string());
    let owner = account_id_from_codex_log_identity(r#"user.account_id="a" user.email="E""#, &index);
    assert_eq!(owner, Some("by-account".to_string()));
}

#[test]
fn text_maps_keep_one_value_for_a_key() {
    let mut map: TextMap<i64> = TextMap::new();
    assert!(map.is_empty());
    map.insert("a", 1);
    map.insert("b", 2);
    map.insert("a", 3);
    assert_eq!(map.get("a"), Some(&3));
    assert_eq!(map.get("b"), Some(&2));
    assert_eq!(map.get("c"), None);
    assert_eq!(map.entries.len(), 2);
}

#[test]
fn observations_count_from_an_hour_before_the_last_use() {
    let mut known = account("a", "a@example.com");
    assert_eq!(direct_observation_since_seconds(&known), -2_600);
    known.usage_updated_at = Some(5_000);
    assert_eq!(direct_observation_since_seconds(&known), 1_400);
    known.usage_updated_at = None;
    known.last_used = i64::MIN;
    assert_eq!(direct_observation_since_seconds(&known), -3_600);
}

#[test]
fn rows_are_read_in_the_order_of_their_ids() {
    let mut known = account("a", "a@example.com");
    known.last_used = 0;
    let rows = vec![
        row(9, 90, Some("t"), &limits(10, 900)),
        row(3, 30, Some("t"), r#"user.email="a@example.com""#),
        row(5, 90, Some("t"), &limits(10, 500)),
        row(4, 40, None, &limits(99, 400)),
        row(2, 20, Some("other"), &limits(99, 200)),
    ];
    let seen = latest_direct_quota_observations_from_codex_log_rows(&[known], rows);
    let observation = seen.get("a").expect("observation");
    assert_eq!(observation.reset_at, Some(500), "the first of two equals stands");
}

#[test]
fn identities_named_later_count_for_earlier_rows() {
    let mut first = account("first", "first@example.com");
    first.last_used = 0;
    let mut second = account("second", "second@example.com");
    second.last_used = 0;
    let rows = vec![
        row(1, 10, Some("t"), &limits(10, 100)),
        row(2, 20, Some("t"), r#"user.email="first@example.com""#),
        row(3, 30, Some("t"), &limits(20, 300)),
        row(4, 40, Some("t"), r#"user.email="second@example.com""#),
        row(5, 50, Some("t"), &limits(5, 500)),
    ];
    let seen = latest_direct_quota_observations_from_codex_log_rows(&[first, second], rows);
    assert_eq!(seen.get("first").expect("first").reset_at, Some(300));
    let other = seen.get("second").expect("second");
    assert_eq!(other.reset_at, Some(100), "the row before any name is the last name's");
}

#[test]
fn old_observations_do_not_count() {
    let known = account("a", "a@example.com");
    let rows = vec![
        row(1, -2_700, Some("t"), r#"user.email="a@example.com""#),
        row(2, -2_601, Some("t"), &limits(10, 100)),
    ];
    assert!(latest_direct_quota_observations_from_codex_log_rows(&[known.clone()], rows).is_empty());
    let rows = vec![
        row(1, -2_700, Some("t"), r#"user.email="a@example.com""#),
        row(2, -2_600, Some("t"), &limits(10, 100)),
    ];
    assert!(!latest_direct_quota_observations_from_codex_log_rows(&[known], rows).is_empty());
}

fn error(source: &str, after: Option<i64>, at: Option<i64>) -> DirectQuotaObservation {
    DirectQuotaObservation {
        observed_at: 100,
        reset_at: at,
        reset_after_seconds: after,
        error_type: None,
        source: source.to_string(),
        quota: None,
        exhausted: true,
    }
}

#[test]
fn short_pauses_are_told_from_windows() {
    let short = |after, at| {
        direct_error_reset_looks_like_short_backoff(&error("codex_official_websocket_error", after, at))
    };
    assert!(short(Some(3_600), None));
    assert!(!short(Some(3_601), Some(0)));
    assert!(short(None, Some(3_700)));
    assert!(!short(None, Some(3_701)));
    assert!(!short(None, None));
    let elsewhere = error("codex_session_error", Some(1), None);
    assert!(!direct_error_reset_looks_like_short_backoff(&elsewhere));
}

#[test]
fn another_reset_goes_to_the_used_up_windows() {
    let mut observation = error("x", None, None);
    observation.quota = Some(CodexQuota {
        hourly_percentage: 0,
        hourly_reset_time: Some(1),
        hourly_window_minutes: None,
        hourly_window_present: None,
        weekly_percentage: 0,
        weekly_reset_time: Some(1),
        weekly_window_minutes: None,
        weekly_window_present: Some(true),
        raw_data: Some(codex_quota::json::parse_json("{}").unwrap()),
    });
    apply_direct_observation_reset_hint(&mut observation, 700);
    assert_eq!(observation.reset_at, Some(700));
    assert_eq!(observation.reset_after_seconds, Some(600));
    let quota = observation.quota.as_ref().unwrap();
    assert_eq!((quota.hourly_reset_time, quota.weekly_reset_time), (Some(1), Some(700)));
    let raw = quota.raw_data.as_ref().unwrap();
    assert_eq!(raw.get("reset_at").and_then(|value| value.as_i64()), Some(700));
    assert_eq!(
        raw.get("reset_source").and_then(|value| value.as_str()),
        Some("codex_official_websocket_rate_limits")
    );
    apply_direct_observation_reset_hint(&mut observation, 50);
    assert_eq!(observation.reset_after_seconds, Some(0));
}

#[test]
fn threads_with_quota_rows_are_looked_up_once() {
    assert!(direct_codex_log_body_may_contain_quota_observation(&limits(1, 2)));
    assert!(direct_codex_log_body_may_contain_quota_observation(
        "websocket event: insufficient_quota"
    ));
    assert!(!direct_codex_log_body_may_contain_quota_observation("insufficient_quota"));
    assert!(!direct_codex_log_body_may_contain_quota_observation("websocket event: {}"));
    let rows = vec![
        row(1, 1, Some("a"), "websocket event: credits_depleted"),
        row(2, 1, Some("b"), "websocket event: usage_limit_reached"),
        row(3, 1, Some("a"), &limits(1, 2)),
        row(4, 1, None, &limits(1, 2)),
        row(5, 1, Some("c"), "nothing"),
    ];
    let mut threads = direct_codex_log_thread_ids_for_identity_backfill(&rows);
    threads.sort();
    assert_eq!(threads, vec!["a".to_string(), "b".to_string()]);
}

#[test]
fn the_log_is_read_on_and_never_back() {
    assert_eq!(incremental_scan_start(10, 10), None);
    assert_eq!(incremental_scan_start(10, 11), Some(10));
    assert_eq!(incremental_scan_start(0, 20_000), Some(15_000));
    assert_eq!(incremental_scan_start(0, 3), Some(-4_997));
    assert_eq!(incremental_scan_start(i64::MIN, i64::MIN + 1), Some(i64::MIN));
    let few = vec![row(11, 1, None, ""), row(12, 1, None, "")];
    assert_eq!(next_log_id(10, 40, &few), 40);
    assert_eq!(next_log_id(10, 40, &[]), 40);
    assert_eq!(next_log_id(50, 40, &[]), 50);
    let many: Vec<DirectCodexLogRow> = (11..5_011).map(|id| row(id, 1, None, "")).collect();
    assert_eq!(next_log_id(10, 9_000, &many), 5_010);
    assert_eq!(next_log_id(6_000, 9_000, &many), 6_000);
    assert_eq!(log_id_without_log(-3), 0);
    assert_eq!(log_id_without_log(3), 3);
    let mut state = DirectCodexLogSyncState::default();
    assert_eq!((state.last_log_id, state.last_synced_at_ms), (0, 0));
    assert!(advance_sync_state(&mut state, 5, 77));
    assert_eq!((state.last_log_id, state.last_synced_at_ms), (5, 77));
    assert!(!advance_sync_state(&mut state, 5, 99));
    assert_eq!(state.last_synced_at_ms, 77);
}

#[test]
fn the_newest_session_files_come_first() {
    assert_eq!(recent_session_files(&vec![Some(3), None, Some(9), Some(3), None]), vec![2, 3, 0, 4, 1]);
    assert!(recent_session_files(&vec![]).is_empty());
    let many: Vec<Option<i128>> = (0..100).map(Some).collect();
    let recent = recent_session_files(&many);
    let expected: Vec<usize> = (68..100).rev().collect();
    assert_eq!(recent, expected);
}

#[test]
fn only_whole_lines_at_the_end_of_a_file_are_read() {
    assert_eq!(session_scan_start(262_144), 0);
    assert_eq!(session_scan_start(262_145), 1);
    assert_eq!(recent_session_text("a\nb".to_string(), 0), Some("a\nb".to_string()));
    assert_eq!(recent_session_text("a\nb\nc".to_string(), 1), Some("b\nc".to_string()));
    assert_eq!(recent_session_text("a".to_string(), 1), None);
}

#[test]
fn lines_are_split_like_text_lines() {
    for text in ["", "\n", "a", "a\n", "a\r\nb", "a\r\r\n\r\nb\r", "\r\n", "a\n\nb\n\n", "é\nü"] {
        let expected: Vec<&str> = text.lines().collect();
        assert_eq!(split_lines(text), expected, "{:?}", text);
    }
}

#[test]
fn the_best_observation_of_all_sessions_stands() {
    let line = |second: u32, used: u32| {
        format!(
            "{{\"timestamp\":\"1970-01-01T00:00:{:02}Z\",\"type\":\"event_msg\",\"payload\":{{\"type\":\"token_count\",\"rate_limits\":{{\"primary\":{{\"used_percent\":{}}}}}}}}}",
            second, used
        )
    };
    let texts = vec![
        format!("{}\n{}\n", line(10, 50), line(20, 60)),
        format!("noise\n{}\n{}", line(5, 90), line(30, 60)),
    ];
    let best = latest_direct_quota_observation_from_sessions(&texts, 6).expect("observation");
    assert_eq!(best.observed_at, 30);
    assert_eq!(best.quota.map(|quota| quota.hourly_percentage), Some(40));
    let best = latest_direct_quota_observation_from_sessions(&texts, 5).expect("observation");
    assert_eq!(best.observed_at, 5);
    assert!(latest_direct_quota_observation_from_sessions(&texts, 31).is_none());
}

#[test]
fn noise_in_the_log_does_not_matter() {
    let mut known = account("a", "a@example.com");
    known.last_used = 0;
    let quiet = vec![
        row(2, 20, Some("t"), r#"user.email="a@example.com""#),
        row(4, 40, Some("t"), &limits(30, 400)),
        row(6, 60, Some("t"), &limits(20, 600)),
    ];
    let delta = r#"websocket event: {"type":"response.output_text.delta","delta":"usage_limit_reached"}"#;
    let noisy = vec![
        row(1, 10, Some("t"), delta),
        row(2, 20, Some("t"), r#"user.email="a@example.com""#),
        row(3, 30, Some("t"), r#"user.email="unknown@example.com""#),
        row(4, 40, Some("t"), &limits(30, 400)),
        row(5, 50, Some("t"), "usage_limit_reached"),
        row(6, 60, Some("t"), &limits(20, 600)),
        row(7, 70, None, delta),
    ];
    let accounts = [known];
    let first = latest_direct_quota_observations_from_codex_log_rows(&accounts, quiet);
    let second = latest_direct_quota_observations_from_codex_log_rows(&accounts, noisy);
    assert_eq!(first.get("a").unwrap().observed_at, 40);
    assert_eq!(second.get("a").unwrap().observed_at, 40);
    assert_eq!(second.get("a").unwrap().reset_at, first.get("a").unwrap().reset_at);
}

#[test]
fn the_order_of_rows_and_accounts_does_not_matter() {
    let known = |id: &str, last_used: i64| {
        let mut known = account(id, &format!("{}@example.com", id));
        known.last_used = last_used;
        known.user_id = Some("shared".to_string());
        known
    };
    let line = |id: i64| match id {
        1 => row(1, 10, Some("t"), &limits(10, 100)),
        2 => row(2, 20, Some("t"), r#"user.email="first@example.com""#),
        3 => row(3, 30, Some("t"), &limits(20, 300)),
        4 => row(4, 40, Some("t"), r#"user.email="second@example.com""#),
        _ => row(5, 3_700, Some("t"), &limits(5, 500)),
    };
    let found = |accounts: Vec<CodexAccount>, ids: [i64; 5]| {
        let rows: Vec<DirectCodexLogRow> = ids.iter().map(|id| line(*id)).collect();
        let seen = latest_direct_quota_observations_from_codex_log_rows(&accounts, rows);
        format!("{:?} {:?} {:?}", seen.get("first"), seen.get("second"), seen.get("third"))
    };
    let in_order = found(
        vec![known("first", 0), known("second", 7_300), known("third", 0)],
        [1, 2, 3, 4, 5],
    );
    assert!(in_order.contains("reset_at: Some(300)"), "{}", in_order);
    assert!(in_order.contains("reset_at: Some(500)"), "{}", in_order);
    assert!(!in_order.contains("reset_at: Some(100)"), "{}", in_order);
    for ids in [[5, 4, 3, 2, 1], [3, 1, 5, 2, 4], [4, 5, 1, 3, 2]] {
        let shuffled = found(
            vec![known("third", 0), known("second", 7_300), known("first", 0)],
            ids,
        );
        assert_eq!(shuffled, in_order);
    }
}

#[test]
fn entries_carry_the_events_of_their_rows() {
    let mut known = account("a", "a@example.com");
    known.last_used = 0;
    let event = r#"{"type":"x","error":{"code":"usage_limit_reached","retry_after":30}}"#;
    let entries = vec![
        DirectCodexLogEntry {
            row: row(2, 20, Some("t"), r#"user.email="a@example.com""#),
            event: codex_quota::json::parse_json(event).ok(),
        },
        DirectCodexLogEntry {
            row: row(1, 10, Some("t"), "websocket event: ignored"),
            event: None,
        },
    ];
    let seen = latest_direct_quota_observations_from_log_entries(&[known], entries);
    assert_eq!(seen.get("a").map(|seen| seen.reset_at), Some(Some(50)));
}
