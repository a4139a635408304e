use codex_quota::json::parse_json;
use codex_quota::models::codex::{
    CodexAccount, CodexAuthMode, CodexQuota, CodexQuotaErrorInfo, CodexTokens,
};
use codex_quota::models::codex_local_access::{
    CodexRuntimeAccountKind, CodexRuntimeIntegrationMode, CodexRuntimeModeState,
};
use codex_quota::quota::apply::{
    account_has_direct_quota_exhaustion_snapshot, apply_direct_quota_observation,
    apply_latest_direct_oauth_observation_at, direct_session_scope,
    repair_exhausted_account_reset_from_direct_observation,
    repair_exhausted_account_reset_from_direct_observation_at, revise_account_at,
    should_apply_direct_quota_observation_at, should_keep_existing_quota_exhaustion,
};
use codex_quota::quota::direct::DirectQuotaObservation;
use codex_quota::quota::repair::{
    repair_direct_oauth_observations_from_map, repair_direct_oauth_observations_from_map_at,
};
use codex_quota::text_map::TextMap;

fn account(id: &str) -> CodexAccount {
    CodexAccount::new_at(
        id.to_string(),
        format!("{}@example.com", id),
        CodexTokens {
            id_token: "id".to_string(),
            access_token: "access".to_string(),
            refresh_token: Some("refresh".to_string()),
        },
        100,
    )
}

fn quota(hourly: i32, weekly: i32, reset: Option<i64>) -> CodexQuota {
    CodexQuota {
        hourly_percentage: hourly,
        hourly_reset_time: reset,
        hourly_window_minutes: Some(300),
        hourly_window_present: Some(true),
        weekly_percentage: weekly,
        weekly_reset_time: reset,
        weekly_window_minutes: Some(10_080),
        weekly_window_present: Some(true),
        raw_data: Some(parse_json(r#"{"source":"old"}"#).unwrap()),
    }
}

fn exhausted_account(id: &str, reset: Option<i64>, timestamp: i64) -> CodexAccount {
    let mut spent = account(id);
    spent.quota = Some(quota(0, 0, reset));
    spent.quota_error = Some(CodexQuotaErrorInfo {
        code: Some("usage_limit_reached".to_string()),
        message: "spent".to_string(),
        timestamp,
    });
    spent
}

fn seen(observed_at: i64, exhausted: bool, reset_at: Option<i64>, quota: Option<CodexQuota>) -> DirectQuotaObservation {
    DirectQuotaObservation {
        observed_at,
        reset_at,
        reset_after_seconds: None,
        error_type: None,
        source: "seen".to_string(),
        quota,
        exhausted,
    }
}

#[test]
fn a_used_up_quota_is_kept_until_it_resets() {
    assert!(should_keep_existing_quota_exhaustion(&exhausted_account("a", Some(500), 1), 499));
    assert!(!should_keep_existing_quota_exhaustion(&exhausted_account("a", Some(500), 1), 500));
    assert!(!should_keep_existing_quota_exhaustion(&exhausted_account("a", None, 1), 0));
    let mut other = exhausted_account("a", Some(500), 1);
    other.quota.as_mut().unwrap().weekly_percentage = 1;
    assert!(!should_keep_existing_quota_exhaustion(&other, 0));
    other = exhausted_account("a", Some(500), 1);
    other.quota_error.as_mut().unwrap().code = Some("other".to_string());
    assert!(!should_keep_existing_quota_exhaustion(&other, 0));
    other.quota_error.as_mut().unwrap().message = "quota exceeded".to_string();
    assert!(should_keep_existing_quota_exhaustion(&other, 0));
    other.quota = None;
    assert!(!should_keep_existing_quota_exhaustion(&other, 0));
    other.quota_error = None;
    assert!(!should_keep_existing_quota_exhaustion(&other, 0));
}

#[test]
fn an_error_of_a_used_up_quota_is_recorded_once() {
    let mut spent = account("a");
    let observation = seen(200, true, Some(900), None);
    assert!(revise_account_at(&mut spent, &observation, 300));
    let error = spent.quota_error.as_ref().unwrap();
    assert_eq!(error.code.as_deref(), Some("usage_limit_reached"));
    assert_eq!(
        error.message,
        "Codex Direct OAuth upstream quota exhausted: status=429, error_type=usage_limit_reached, reset_at=900"
    );
    assert_eq!(error.timestamp, 200);
    assert_eq!(spent.usage_updated_at, Some(200));
    assert!(should_keep_existing_quota_exhaustion(&spent, 300));
    assert!(account_has_direct_quota_exhaustion_snapshot(&spent));
    assert!(!revise_account_at(&mut spent, &observation, 300));

    let mut undated = account("b");
    apply_direct_quota_observation(&mut undated, &seen(200, true, None, None));
    assert!(undated.quota_error.unwrap().message.ends_with("reset_at=-"));
}

#[test]
fn an_observed_quota_clears_an_error_that_is_not_newer() {
    let mut spent = exhausted_account("a", Some(500), 200);
    apply_direct_quota_observation(&mut spent, &seen(199, false, None, Some(quota(5, 6, None))));
    assert!(spent.quota_error.is_some());
    apply_direct_quota_observation(&mut spent, &seen(200, false, None, Some(quota(5, 6, None))));
    assert!(spent.quota_error.is_none());
    let mut other = exhausted_account("a", Some(500), 200);
    other.quota_error.as_mut().unwrap().code = Some("server_error".to_string());
    apply_direct_quota_observation(&mut other, &seen(200, false, None, Some(quota(5, 6, None))));
    assert!(other.quota_error.is_some());
}

#[test]
fn observations_are_applied_when_they_are_news() {
    let mut known = account("a");
    known.quota = Some(quota(50, 60, None));
    let apply = |account: &CodexAccount, seen: &DirectQuotaObservation, now| {
        should_apply_direct_quota_observation_at(account, seen, now)
    };
    assert!(apply(&known, &seen(1, true, Some(11), None), 10));
    assert!(!apply(&known, &seen(1, true, Some(10), None), 10));
    assert!(apply(&known, &seen(1, true, None, None), 10));
    assert!(apply(&known, &seen(1, false, None, None), 10));
    assert!(apply(&known, &seen(1, false, None, Some(quota(49, 60, None))), 10));
    assert!(!apply(&known, &seen(1, false, None, Some(quota(50, 60, None))), 10));
    assert!(apply(&account("b"), &seen(1, false, None, Some(quota(100, 100, None))), 10));
    let mut absent = quota(1, 1, None);
    absent.hourly_window_present = Some(false);
    absent.weekly_window_present = Some(false);
    assert!(!apply(&account("b"), &seen(1, false, None, Some(absent)), 10));
}

#[test]
fn a_repair_only_puts_off_the_reset() {
    let mut spent = exhausted_account("a", Some(500), 200);
    let later = seen(250, false, Some(800), None);
    assert!(repair_exhausted_account_reset_from_direct_observation_at(&mut spent, &later, 300));
    let repaired = spent.quota.as_ref().unwrap();
    assert_eq!((repaired.hourly_percentage, repaired.weekly_percentage), (0, 0));
    assert_eq!((repaired.hourly_reset_time, repaired.weekly_reset_time), (Some(800), Some(800)));
    let raw = repaired.raw_data.as_ref().unwrap();
    assert_eq!(raw.get("reset_at").and_then(|value| value.as_i64()), Some(800));
    assert_eq!(raw.get("reset_source").and_then(|value| value.as_str()), Some("seen"));
    assert_eq!(raw.get("source").and_then(|value| value.as_str()), Some("old"));
    assert_eq!(spent.usage_updated_at, Some(250));
    assert!(spent.quota_error.is_some());
    assert!(!repair_exhausted_account_reset_from_direct_observation_at(&mut spent, &later, 300));

    let unchanged = |seen: DirectQuotaObservation, now: i64| {
        let mut spent = exhausted_account("a", Some(500), 200);
        let changed = repair_exhausted_account_reset_from_direct_observation_at(&mut spent, &seen, now);
        !changed && spent.usage_updated_at.is_none()
    };
    assert!(unchanged(seen(250, true, Some(800), None), 300));
    assert!(unchanged(seen(250, false, None, None), 300));
    assert!(unchanged(seen(250, false, Some(800), None), 800));
    assert!(unchanged(seen(250, false, Some(500), None), 300));

    let mut unmarked = exhausted_account("a", None, 200);
    let windows = unmarked.quota.as_mut().unwrap();
    windows.hourly_window_present = Some(false);
    windows.weekly_window_present = None;
    assert!(repair_exhausted_account_reset_from_direct_observation_at(&mut unmarked, &later, 300));
    let windows = unmarked.quota.as_ref().unwrap();
    assert_eq!(windows.hourly_reset_time, None);
    assert_eq!(windows.weekly_reset_time, Some(800));
    assert_eq!(windows.weekly_window_present, Some(true));

    let mut past = exhausted_account("a", Some(1), 200);
    let passed = seen(250, false, Some(900), None);
    assert!(!repair_exhausted_account_reset_from_direct_observation(&mut past, &passed));
}

#[test]
fn sessions_count_for_the_account_in_use() {
    let mut mode = CodexRuntimeModeState {
        mode: CodexRuntimeIntegrationMode::DirectProjection,
        account_kind: CodexRuntimeAccountKind::OAuth,
        current_account_id: Some("a".to_string()),
        updated_at: 200_999,
    };
    assert_eq!(direct_session_scope(&mode, &account("a")), Some(200));
    assert_eq!(direct_session_scope(&mode, &account("b")), None);
    mode.updated_at = -1;
    let mut old = account("a");
    old.last_used = -5;
    assert_eq!(direct_session_scope(&mode, &old), Some(-1));
    mode.updated_at = -1_000;
    assert_eq!(direct_session_scope(&mode, &old), Some(-1));
    mode.updated_at = -1_001;
    assert_eq!(direct_session_scope(&mode, &old), Some(-2));
    mode.updated_at = i64::MIN;
    assert_eq!(direct_session_scope(&mode, &account("a")), Some(100));
    mode.current_account_id = None;
    assert_eq!(direct_session_scope(&mode, &account("a")), None);
    mode.current_account_id = Some("a".to_string());
    mode.mode = CodexRuntimeIntegrationMode::CockpitApiService;
    assert_eq!(direct_session_scope(&mode, &account("a")), None);
}

#[test]
fn only_news_of_a_used_up_quota_counts_in_sessions() {
    let mut open = account("a");
    assert!(!apply_latest_direct_oauth_observation_at(&mut open, None, 10));
    let partial = seen(5, false, None, Some(quota(1, 1, None)));
    assert!(!apply_latest_direct_oauth_observation_at(&mut open, Some(&partial), 10));
    assert!(open.quota.is_none());
    let spent = seen(5, true, Some(20), None);
    assert!(apply_latest_direct_oauth_observation_at(&mut open, Some(&spent), 10));
    assert!(!apply_latest_direct_oauth_observation_at(&mut open, Some(&spent), 10));
    let outdated = seen(6, true, Some(10), None);
    assert!(!apply_latest_direct_oauth_observation_at(&mut open, Some(&outdated), 10));
}

#[test]
fn accounts_are_repaired_by_what_the_log_says() {
    let mut keyed = account("keyed");
    keyed.auth_mode = CodexAuthMode::ApiKey;
    let mut accounts = vec![
        exhausted_account("spent", Some(500), 200),
        keyed,
        account("silent"),
        account("fresh"),
    ];
    let mut observations: TextMap<DirectQuotaObservation> = TextMap::new();
    observations.insert("spent", seen(250, false, None, Some(quota(5, 6, Some(800)))));
    observations.insert("keyed", seen(250, true, Some(800), None));
    observations.insert("fresh", seen(250, true, Some(800), None));
    let changed = repair_direct_oauth_observations_from_map_at(&mut accounts, &observations, 300);
    assert_eq!(changed, vec![0, 3]);
    assert_eq!(accounts[0].quota.as_ref().unwrap().weekly_reset_time, Some(800));
    assert!(accounts[1].quota.is_none());
    assert!(accounts[2].quota.is_none());
    assert!(should_keep_existing_quota_exhaustion(&accounts[3], 300));
    let again = repair_direct_oauth_observations_from_map_at(&mut accounts, &observations, 300);
    assert!(again.is_empty());
    let now = repair_direct_oauth_observations_from_map(&mut accounts, &observations);
    assert!(now.is_empty());
}

#[test]
fn a_used_up_quota_is_repaired_once() {
    let mut accounts = vec![
        exhausted_account("spent", Some(500), 200),
        account("measured"),
        account("undated"),
        account("over"),
    ];
    let mut observations: TextMap<DirectQuotaObservation> = TextMap::new();
    observations.insert("spent", seen(250, true, Some(800), None));
    observations.insert("measured", seen(250, true, Some(800), Some(quota(50, 0, Some(800)))));
    observations.insert("undated", seen(250, true, None, None));
    observations.insert("over", seen(250, true, Some(260), None));
    let changed = repair_direct_oauth_observations_from_map_at(&mut accounts, &observations, 300);
    assert_eq!(changed, vec![0, 1, 2]);
    let once = format!("{:?}", accounts);
    for now in [300, 400, 900] {
        repair_direct_oauth_observations_from_map_at(&mut accounts, &observations, now);
        assert_eq!(format!("{:?}", accounts), once);
    }
}

#[test]
fn slots_in_order_stay_in_order() {
    let mut windows = quota(1, 2, None);
    assert!(!windows.normalize_window_slots());
    windows.hourly_window_minutes = Some(8_640);
    assert!(!windows.normalize_window_slots());
    windows.weekly_window_present = Some(false);
    assert!(windows.normalize_window_slots());
    assert_eq!(windows.weekly_percentage, 1);
    assert!(!windows.normalize_window_slots());
}

#[test]
fn copies_of_accounts_are_alike() {
    let spent = exhausted_account("a", Some(500), 200);
    let copy = spent.clone();
    assert_eq!(copy.id, spent.id);
    assert_eq!(copy.tokens.refresh_token, spent.tokens.refresh_token);
    assert_eq!(copy.quota_error.unwrap().message, "spent");
    let raw = copy.quota.unwrap().raw_data.unwrap();
    assert_eq!(raw.get("source").and_then(|value| value.as_str()), Some("old"));
    let fresh = CodexAccount::new("n".to_string(), "e".to_string(), spent.tokens.clone());
    assert!(fresh.last_used > 1_700_000_000);
    assert!(!fresh.is_api_key_auth());
}
