use codex_quota::gateway::{gateway_command, GatewayCommand};
use codex_quota::models::codex::{
    CodexAccount, CodexAuthMode, CodexQuota, CodexQuotaErrorInfo, CodexTokens,
};
use codex_quota::models::codex_local_access::{
    default_follow_current_account, default_restrict_free_accounts, default_true,
    CodexLocalAccessAccountHealth, CodexLocalAccessAccountHealthStatus,
    CodexLocalAccessHealthRegistry, CodexLocalAccessRoutingStrategy, CodexLocalApiFallbackMode,
    CodexLocalApiLoggingConfig, CodexLocalApiSafetyConfig, CodexRuntimeAccountKind,
    CodexRuntimeIntegrationMode, CODEX_LOCAL_ACCESS_HEALTH_SCHEMA_VERSION,
    CODEX_LOCAL_API_SAFETY_SCHEMA_VERSION,
};
use codex_quota::quota::direct::DirectQuotaObservation;
use codex_quota::quota::refresh::{
    quota_request, sync_subscription_from_token, token_refresh_error, QuotaRefresh, RefreshAction,
    RefreshEvent,
};
use codex_quota::quota::usage::FetchQuotaResult;

fn account() -> CodexAccount {
    CodexAccount::new_at(
        "a".to_string(),
        "a@example.com".to_string(),
        CodexTokens {
            id_token: "id".to_string(),
            access_token: "access".to_string(),
            refresh_token: None,
        },
        1,
    )
}

fn quota(percentage: i32) -> CodexQuota {
    CodexQuota {
        hourly_percentage: percentage,
        hourly_reset_time: Some(500),
        hourly_window_minutes: None,
        hourly_window_present: Some(true),
        weekly_percentage: percentage,
        weekly_reset_time: None,
        weekly_window_minutes: None,
        weekly_window_present: Some(true),
        raw_data: None,
    }
}

fn fetched(percentage: i32, plan: Option<&str>) -> RefreshEvent {
    RefreshEvent::Fetched {
        result: FetchQuotaResult {
            quota: quota(percentage),
            plan_type: plan.map(|plan| plan.to_string()),
        },
    }
}

fn begin(expired: bool) -> RefreshEvent {
    RefreshEvent::Begin { token_expired: expired }
}

fn scanned(observation: Option<DirectQuotaObservation>) -> RefreshEvent {
    RefreshEvent::SessionsScanned { observation }
}

fn error(message: &str) -> RefreshEvent {
    RefreshEvent::NotSaved { message: message.to_string() }
}

#[test]
fn a_refresh_asks_the_usage_endpoint() {
    let mut refresh = QuotaRefresh::new(account());
    assert!(matches!(refresh.advance(begin(false), 10), RefreshAction::ScanSessions));
    assert!(matches!(refresh.advance(scanned(None), 10), RefreshAction::FetchUsage));
    assert!(matches!(refresh.advance(RefreshEvent::Saved, 10), RefreshAction::Wait));
    let saving = refresh.advance(fetched(40, Some("plus")), 20);
    assert!(matches!(saving, RefreshAction::Save { index_changed: true }));
    assert_eq!(refresh.account.plan_type.as_deref(), Some("plus"));
    assert_eq!(refresh.account.usage_updated_at, Some(20));
    match refresh.advance(RefreshEvent::Saved, 30) {
        RefreshAction::Succeed(quota) => assert_eq!(quota.hourly_percentage, 40),
        other => panic!("{:?}", other),
    }
    assert!(matches!(refresh.advance(RefreshEvent::Saved, 30), RefreshAction::Wait));
}

#[test]
fn a_refresh_fails_where_the_quota_cannot_be_saved() {
    let mut refresh = QuotaRefresh::new(account());
    refresh.advance(begin(false), 10);
    refresh.advance(scanned(None), 10);
    let saving = refresh.advance(fetched(40, None), 20);
    assert!(matches!(saving, RefreshAction::Save { index_changed: false }));
    match refresh.advance(error("disk"), 30) {
        RefreshAction::Fail(message) => assert_eq!(message, "disk"),
        other => panic!("{:?}", other),
    }
}

#[test]
fn a_failed_lookup_is_recorded_and_reported() {
    for saved in [RefreshEvent::Saved, error("disk")] {
        let mut refresh = QuotaRefresh::new(account());
        refresh.advance(begin(false), 10);
        refresh.advance(scanned(None), 10);
        let failed = RefreshEvent::NotFetched { message: "usage limit [reset_at:700]".to_string() };
        assert!(matches!(refresh.advance(failed, 20), RefreshAction::Save { index_changed: false }));
        assert_eq!(refresh.account.quota.as_ref().unwrap().weekly_reset_time, Some(700));
        match refresh.advance(saved, 30) {
            RefreshAction::Fail(message) => assert_eq!(message, "usage limit [reset_at:700]"),
            other => panic!("{:?}", other),
        }
        assert_eq!(refresh.account.quota_error.as_ref().unwrap().timestamp, 20);
    }
}

#[test]
fn expired_tokens_are_refreshed_first() {
    let mut refresh = QuotaRefresh::new(account());
    assert!(matches!(refresh.advance(begin(true), 10), RefreshAction::RefreshTokens));
    let mut renewed = account();
    renewed.tokens.access_token = "new".to_string();
    let event = RefreshEvent::TokensRefreshed {
        account: renewed,
        active_until: Some("2027".to_string()),
    };
    assert!(matches!(refresh.advance(event, 11), RefreshAction::Save { index_changed: true }));
    assert_eq!(refresh.account.tokens.access_token, "new");
    assert_eq!(refresh.account.subscription_active_until.as_deref(), Some("2027"));
    assert!(matches!(refresh.advance(RefreshEvent::Saved, 12), RefreshAction::ScanSessions));

    let mut unsaved = QuotaRefresh::new(account());
    unsaved.advance(begin(true), 10);
    let event = RefreshEvent::TokensRefreshed { account: account(), active_until: None };
    assert!(matches!(unsaved.advance(event, 11), RefreshAction::Save { index_changed: false }));
    assert!(matches!(unsaved.advance(error("disk"), 12), RefreshAction::Fail(_)));
}

#[test]
fn tokens_that_cannot_be_refreshed_end_the_refresh() {
    let mut refresh = QuotaRefresh::new(account());
    refresh.advance(begin(true), 10);
    let message = token_refresh_error("Token 已过期", "denied");
    assert_eq!(message, "Token 已过期，刷新 Token 失败: denied");
    let event = RefreshEvent::TokensNotRefreshed { message: message.clone() };
    assert!(matches!(refresh.advance(event, 11), RefreshAction::Save { index_changed: false }));
    assert!(refresh.account.quota.is_none());
    match refresh.advance(RefreshEvent::Saved, 12) {
        RefreshAction::Fail(reported) => assert_eq!(reported, message),
        other => panic!("{:?}", other),
    }
}

#[test]
fn accounts_with_an_api_key_are_refused_unless_of_the_cockpit() {
    let mut keyed = account();
    keyed.auth_mode = CodexAuthMode::ApiKey;
    keyed.quota = Some(quota(10));
    keyed.usage_updated_at = Some(1);
    let mut refresh = QuotaRefresh::new(keyed.clone());
    assert!(matches!(refresh.advance(begin(true), 10), RefreshAction::Save { index_changed: false }));
    assert!(refresh.account.quota.is_none() && refresh.account.usage_updated_at.is_none());
    match refresh.advance(RefreshEvent::Saved, 10) {
        RefreshAction::Fail(message) => {
            assert_eq!(message, "API Key 账号不支持刷新配额，请在网页端查看。")
        }
        other => panic!("{:?}", other),
    }
    keyed.api_provider_id = Some("cockpit_api".to_string());
    let mut refresh = QuotaRefresh::new(keyed);
    assert!(matches!(refresh.advance(begin(true), 10), RefreshAction::FetchFromProvider));
    assert!(matches!(refresh.advance(fetched(9, None), 10), RefreshAction::Save { .. }));
    assert!(matches!(refresh.advance(RefreshEvent::Saved, 10), RefreshAction::Succeed(_)));
}

#[test]
fn a_used_up_quota_on_record_is_not_overwritten() {
    let mut spent = account();
    spent.quota = Some(quota(0));
    spent.quota_error = Some(CodexQuotaErrorInfo {
        code: None,
        message: "quota exhausted".to_string(),
        timestamp: 5,
    });
    let mut refresh = QuotaRefresh::new(spent.clone());
    refresh.advance(begin(false), 10);
    assert!(matches!(refresh.advance(scanned(None), 499), RefreshAction::Succeed(_)));
    let mut refresh = QuotaRefresh::new(spent);
    refresh.advance(begin(false), 10);
    assert!(matches!(refresh.advance(scanned(None), 500), RefreshAction::FetchUsage));
}

#[test]
fn news_of_the_sessions_is_saved() {
    let observation = DirectQuotaObservation {
        observed_at: 8,
        reset_at: Some(600),
        reset_after_seconds: None,
        error_type: None,
        source: "codex_session_error".to_string(),
        quota: None,
        exhausted: true,
    };
    let mut refresh = QuotaRefresh::new(account());
    refresh.advance(begin(false), 10);
    let event = scanned(Some(observation.clone()));
    assert!(matches!(refresh.advance(event, 10), RefreshAction::Save { index_changed: false }));
    match refresh.advance(RefreshEvent::Saved, 10) {
        RefreshAction::Succeed(quota) => assert_eq!(quota.hourly_reset_time, Some(600)),
        other => panic!("{:?}", other),
    }
    let mut refresh = QuotaRefresh::new(account());
    refresh.advance(begin(false), 10);
    refresh.advance(scanned(Some(observation)), 10);
    assert!(matches!(refresh.advance(error("disk"), 10), RefreshAction::Fail(_)));
}

#[test]
fn subscriptions_are_taken_over_where_known() {
    let mut known = account();
    assert!(!sync_subscription_from_token(&mut known, None, None));
    assert!(sync_subscription_from_token(&mut known, Some("plus".to_string()), None));
    assert!(!sync_subscription_from_token(&mut known, Some("plus".to_string()), None));
    assert!(sync_subscription_from_token(&mut known, None, Some("2027".to_string())));
    assert_eq!(known.plan_type.as_deref(), Some("plus"));
    assert_eq!(known.subscription_active_until.as_deref(), Some("2027"));
}

#[test]
fn requests_carry_the_token_and_the_account() {
    let mut known = account();
    let request = quota_request(&known, Some("from-token"));
    assert_eq!(request.authorization, "Bearer access");
    assert_eq!(request.account_id.as_deref(), Some("from-token"));
    assert_eq!(quota_request(&known, None).account_id, None);
    known.account_id = Some("acc".to_string());
    assert_eq!(quota_request(&known, Some("t")).account_id.as_deref(), Some("acc"));
    known.account_id = Some(String::new());
    assert_eq!(quota_request(&known, Some("t")).account_id, None);
}

#[test]
fn the_gateway_is_told_what_to_do() {
    let command = |args: &[&str]| {
        let args: Vec<String> = args.iter().map(|arg| arg.to_string()).collect();
        gateway_command(&args)
    };
    assert_eq!(command(&[]), GatewayCommand::Usage);
    assert_eq!(command(&["--serve", "-h"]), GatewayCommand::Help);
    assert_eq!(command(&["--help"]), GatewayCommand::Help);
    assert_eq!(command(&["--restore-disabled-on-exit"]), GatewayCommand::Usage);
    assert_eq!(command(&["--serve"]), GatewayCommand::Serve { restore_disabled_on_exit: false });
    assert_eq!(
        command(&["--restore-disabled-on-exit", "--serve"]),
        GatewayCommand::Serve { restore_disabled_on_exit: true }
    );
}

#[test]
fn settings_have_their_defaults() {
    let config = CodexLocalApiSafetyConfig::default();
    assert_eq!(config.schema_version, CODEX_LOCAL_API_SAFETY_SCHEMA_VERSION);
    assert!(config.hardened_local_mode);
    assert_eq!(config.max_concurrent_requests, 1);
    assert_eq!(config.min_request_interval_seconds, 20);
    assert_eq!(config.max_queue_wait_seconds, 21);
    assert_eq!(config.request_timeout_seconds, 600);
    assert_eq!(config.max_request_body_mb, 64);
    assert_eq!(config.max_retries, 1);
    assert_eq!(config.max_retry_accounts, 2);
    assert_eq!(config.fallback_mode, CodexLocalApiFallbackMode::Disabled);
    assert_eq!(config.logging, CodexLocalApiLoggingConfig::default());
    assert!(config.logging.redact_sensitive_values && !config.logging.include_prompt_response);
    let missing = CodexLocalApiSafetyConfig::missing();
    assert_eq!(missing.schema_version, 0);
    assert_eq!(CodexLocalApiSafetyConfig { schema_version: 1, ..missing }, config);
    assert_eq!(CodexLocalApiFallbackMode::Disabled.as_str(), "disabled");
    assert_eq!(CodexLocalApiFallbackMode::NextRequestOnly.as_str(), "next_request_only");
    assert_eq!(CodexLocalApiFallbackMode::Unknown.as_str(), "unknown");
    assert_eq!(CodexLocalAccessRoutingStrategy::default(), CodexLocalAccessRoutingStrategy::Auto);
    assert_eq!(
        CodexRuntimeIntegrationMode::default(),
        CodexRuntimeIntegrationMode::DirectProjection
    );
    assert_eq!(CodexRuntimeAccountKind::default(), CodexRuntimeAccountKind::Unknown);
    let registry = CodexLocalAccessHealthRegistry::default();
    assert_eq!(registry.schema_version, CODEX_LOCAL_ACCESS_HEALTH_SCHEMA_VERSION);
    assert!(registry.accounts.is_empty() && registry.last_global_error.is_none());
    let health = CodexLocalAccessAccountHealth::default();
    assert_eq!(health.status, CodexLocalAccessAccountHealthStatus::Healthy);
    assert!(default_true() && !default_restrict_free_accounts() && !default_follow_current_account());
}
