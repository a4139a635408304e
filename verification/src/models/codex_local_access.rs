//! The settings, the state and the counts of the local access service.
use std::collections::BTreeMap;

use vstd::prelude::*;

verus! {

/// How the next account is picked.
#[derive(Debug, Clone, Copy, PartialEq, Eq, Structural)]
pub enum CodexLocalAccessRoutingStrategy {
    Auto,
    QuotaHighFirst,
    QuotaLowFirst,
    PlanHighFirst,
    PlanLowFirst,
    ExpirySoonFirst,
}

impl Default for CodexLocalAccessRoutingStrategy {
    fn default() -> (value: Self)
        ensures
            value == CodexLocalAccessRoutingStrategy::Auto,
    {
        CodexLocalAccessRoutingStrategy::Auto
    }
}

/// The ready-made safety settings.
#[derive(Debug, Clone, Copy, PartialEq, Eq, Structural)]
pub enum CodexLocalApiSafetyPresetId {
    MaximumSafety,
    BalancedSelfUse,
    QuotaDrainCareful,
}

/// How Codex is brought to use an account: by its own files, or by the local service.
#[derive(Debug, Clone, Copy, PartialEq, Eq, Structural)]
pub enum CodexRuntimeIntegrationMode {
    DirectProjection,
    CockpitApiService,
}

impl Default for CodexRuntimeIntegrationMode {
    fn default() -> (value: Self)
        ensures
            value == CodexRuntimeIntegrationMode::DirectProjection,
    {
        CodexRuntimeIntegrationMode::DirectProjection
    }
}

/// How the account in use signs in.
#[derive(Debug, Clone, Copy, PartialEq, Eq, Structural)]
pub enum CodexRuntimeAccountKind {
    OAuth,
    Api,
    Unknown,
}

impl Default for CodexRuntimeAccountKind {
    fn default() -> (value: Self)
        ensures
            value == CodexRuntimeAccountKind::Unknown,
    {
        CodexRuntimeAccountKind::Unknown
    }
}

/// How Codex is integrated at run time, with which account, and since when (in milliseconds).
#[derive(Debug, Clone)]
pub struct CodexRuntimeModeState {
    pub mode: CodexRuntimeIntegrationMode,
    pub account_kind: CodexRuntimeAccountKind,
    pub current_account_id: Option<String>,
    pub updated_at: i64,
}

/// Free accounts are not held back unless the settings say so.
pub fn default_restrict_free_accounts() -> (value: bool)
    ensures
        !value,
{
    false
}

/// The service does not follow the current account unless the settings say so.
pub fn default_follow_current_account() -> (value: bool)
    ensures
        !value,
{
    false
}

pub const CODEX_LOCAL_API_SAFETY_SCHEMA_VERSION: u32 = 1;
pub const CODEX_LOCAL_API_DEFAULT_MAX_CONCURRENT_REQUESTS: u32 = 1;
pub const CODEX_LOCAL_API_DEFAULT_MIN_REQUEST_INTERVAL_SECONDS: u64 = 20;
pub const CODEX_LOCAL_API_DEFAULT_MAX_QUEUE_WAIT_SECONDS: u64 = 21;
pub const CODEX_LOCAL_API_DEFAULT_REQUEST_TIMEOUT_SECONDS: u64 = 600;
pub const CODEX_LOCAL_API_DEFAULT_MAX_REQUEST_BODY_MB: u32 = 64;
pub const CODEX_LOCAL_API_DEFAULT_MAX_RETRIES: u32 = 1;
pub const CODEX_LOCAL_API_DEFAULT_MAX_RETRY_ACCOUNTS: u32 = 2;
pub const CODEX_LOCAL_ACCESS_HEALTH_SCHEMA_VERSION: u32 = 1;

/// Whether another account may step in.
#[derive(Debug, Clone, Copy, PartialEq, Eq, Structural)]
pub enum CodexLocalApiFallbackMode {
    Disabled,
    NextRequestOnly,
    Unknown,
}

impl CodexLocalApiFallbackMode {
    /// The name of the mode in the settings.
    pub open spec fn name(self) -> Seq<char> {
        match self {
            CodexLocalApiFallbackMode::Disabled => "disabled"@,
            CodexLocalApiFallbackMode::NextRequestOnly => "next_request_only"@,
            CodexLocalApiFallbackMode::Unknown => "unknown"@,
        }
    }

    /// The name of the mode in the settings.
    pub fn as_str(&self) -> (name: &'static str)
        ensures
            name@ == self.name(),
    {
        match self {
            CodexLocalApiFallbackMode::Disabled => "disabled",
            CodexLocalApiFallbackMode::NextRequestOnly => "next_request_only",
            CodexLocalApiFallbackMode::Unknown => "unknown",
        }
    }
}

impl Default for CodexLocalApiFallbackMode {
    fn default() -> (value: Self)
        ensures
            value == CodexLocalApiFallbackMode::Disabled,
    {
        CodexLocalApiFallbackMode::Disabled
    }
}

/// What the local service logs of a request.
#[derive(Debug, Clone, PartialEq, Eq, Structural)]
pub struct CodexLocalApiLoggingConfig {
    pub redact_sensitive_values: bool,
    pub include_request_id: bool,
    pub include_account_hash: bool,
    pub include_route: bool,
    pub include_model: bool,
    pub include_latency: bool,
    pub include_prompt_response: bool,
    pub include_raw_upstream_body: bool,
}

/// What is logged by default: everything but prompts, responses and the bodies of others, and
/// nothing sensitive.
pub open spec fn logging_defaults() -> CodexLocalApiLoggingConfig {
    CodexLocalApiLoggingConfig {
        redact_sensitive_values: true,
        include_request_id: true,
        include_account_hash: true,
        include_route: true,
        include_model: true,
        include_latency: true,
        include_prompt_response: false,
        include_raw_upstream_body: false,
    }
}

impl Default for CodexLocalApiLoggingConfig {
    fn default() -> (config: Self)
        ensures
            config == logging_defaults(),
    {
        CodexLocalApiLoggingConfig {
            redact_sensitive_values: true,
            include_request_id: true,
            include_account_hash: true,
            include_route: true,
            include_model: true,
            include_latency: true,
            include_prompt_response: false,
            include_raw_upstream_body: false,
        }
    }
}

/// A setting that is on unless the settings say otherwise.
pub fn default_true() -> (value: bool)
    ensures
        value,
{
    true
}

/// The limits of the local service.
#[derive(Debug, Clone, PartialEq, Eq, Structural)]
pub struct CodexLocalApiSafetyConfig {
    pub schema_version: u32,
    pub hardened_local_mode: bool,
    pub max_concurrent_requests: u32,
    pub min_request_interval_seconds: u64,
    pub max_queue_wait_seconds: u64,
    pub request_timeout_seconds: u64,
    pub max_request_body_mb: u32,
    pub max_retries: u32,
    pub max_retry_accounts: u32,
    pub fallback_mode: CodexLocalApiFallbackMode,
    pub logging: CodexLocalApiLoggingConfig,
}

/// The limits by default.
pub open spec fn safety_defaults() -> CodexLocalApiSafetyConfig {
    CodexLocalApiSafetyConfig {
        schema_version: CODEX_LOCAL_API_SAFETY_SCHEMA_VERSION,
        hardened_local_mode: true,
        max_concurrent_requests: CODEX_LOCAL_API_DEFAULT_MAX_CONCURRENT_REQUESTS,
        min_request_interval_seconds: CODEX_LOCAL_API_DEFAULT_MIN_REQUEST_INTERVAL_SECONDS,
        max_queue_wait_seconds: CODEX_LOCAL_API_DEFAULT_MAX_QUEUE_WAIT_SECONDS,
        request_timeout_seconds: CODEX_LOCAL_API_DEFAULT_REQUEST_TIMEOUT_SECONDS,
        max_request_body_mb: CODEX_LOCAL_API_DEFAULT_MAX_REQUEST_BODY_MB,
        max_retries: CODEX_LOCAL_API_DEFAULT_MAX_RETRIES,
        max_retry_accounts: CODEX_LOCAL_API_DEFAULT_MAX_RETRY_ACCOUNTS,
        fallback_mode: CodexLocalApiFallbackMode::Disabled,
        logging: logging_defaults(),
    }
}

impl CodexLocalApiSafetyConfig {
    /// The limits where none were ever set: the default ones, under a version that tells them
    /// apart from limits that were set.
    pub fn missing() -> (config: Self)
        ensures
            config == (CodexLocalApiSafetyConfig { schema_version: 0, ..safety_defaults() }),
            config.schema_version != safety_defaults().schema_version,
    {
        CodexLocalApiSafetyConfig { schema_version: 0, ..CodexLocalApiSafetyConfig::default() }
    }
}

impl Default for CodexLocalApiSafetyConfig {
    fn default() -> (config: Self)
        ensures
            config == safety_defaults(),
    {
        CodexLocalApiSafetyConfig {
            schema_version: CODEX_LOCAL_API_SAFETY_SCHEMA_VERSION,
            hardened_local_mode: true,
            max_concurrent_requests: CODEX_LOCAL_API_DEFAULT_MAX_CONCURRENT_REQUESTS,
            min_request_interval_seconds: CODEX_LOCAL_API_DEFAULT_MIN_REQUEST_INTERVAL_SECONDS,
            max_queue_wait_seconds: CODEX_LOCAL_API_DEFAULT_MAX_QUEUE_WAIT_SECONDS,
            request_timeout_seconds: CODEX_LOCAL_API_DEFAULT_REQUEST_TIMEOUT_SECONDS,
            max_request_body_mb: CODEX_LOCAL_API_DEFAULT_MAX_REQUEST_BODY_MB,
            max_retries: CODEX_LOCAL_API_DEFAULT_MAX_RETRIES,
            max_retry_accounts: CODEX_LOCAL_API_DEFAULT_MAX_RETRY_ACCOUNTS,
            fallback_mode: CodexLocalApiFallbackMode::default(),
            logging: CodexLocalApiLoggingConfig::default(),
        }
    }
}

/// The accounts that the local service offers, and how it offers them.
#[derive(Debug, Clone)]
pub struct CodexLocalAccessCollection {
    pub enabled: bool,
    pub port: u16,
    pub api_key: String,
    pub safety_config: CodexLocalApiSafetyConfig,
    pub routing_strategy: CodexLocalAccessRoutingStrategy,
    pub restrict_free_accounts: bool,
    pub follow_current_account: bool,
    pub account_ids: Vec<String>,
    pub created_at: i64,
    pub updated_at: i64,
}

/// How an account is doing.
#[derive(Debug, Clone, Copy, PartialEq, Eq, Structural)]
pub enum CodexLocalAccessAccountHealthStatus {
    Healthy,
    EstimatedAvailable,
    CoolingDown,
    Exhausted,
    AuthSuspect,
    ManualRequired,
    Disabled,
}

impl Default for CodexLocalAccessAccountHealthStatus {
    fn default() -> (value: Self)
        ensures
            value == CodexLocalAccessAccountHealthStatus::Healthy,
    {
        CodexLocalAccessAccountHealthStatus::Healthy
    }
}

/// What the local service knows of an account.
#[derive(Debug, Clone, Default, PartialEq, Eq)]
pub struct CodexLocalAccessAccountHealth {
    pub status: CodexLocalAccessAccountHealthStatus,
    pub cooldown_until_ms: Option<i64>,
    pub exhausted_at_ms: Option<i64>,
    pub estimated_reset_at_ms: Option<i64>,
    pub estimated_remaining_percentage: Option<i32>,
    pub last_observed_remaining_percentage: Option<i32>,
    pub reset_source: Option<String>,
    pub confidence: Option<String>,
    pub manual_required: bool,
    pub last_status: Option<u16>,
    pub last_error_type: Option<String>,
    pub last_provider_code: Option<String>,
    pub last_request_id: Option<String>,
    pub last_selected_at_ms: Option<i64>,
    pub last_success_at_ms: Option<i64>,
    pub last_quota_exhausted_at_ms: Option<i64>,
    pub api_service_success_count: u64,
    pub updated_at: i64,
}

/// How long an account is not asked for a model.
#[derive(Debug, Clone, Default, PartialEq, Eq)]
pub struct CodexLocalAccessModelCooldown {
    pub account_id: String,
    pub model: String,
    pub cooldown_until_ms: i64,
    pub last_error_type: Option<String>,
    pub last_request_id: Option<String>,
    pub updated_at: i64,
}

/// An account that goes on serving what it began.
#[derive(Debug, Clone, Default, PartialEq, Eq)]
pub struct CodexLocalAccessStickyBinding {
    pub binding_key: String,
    pub account_id: String,
    pub reason: String,
    pub expires_at_ms: i64,
    pub updated_at: i64,
}

/// An error that is not of one account.
#[derive(Debug, Clone, Default, PartialEq, Eq)]
pub struct CodexLocalAccessGlobalError {
    pub error_type: String,
    pub status: Option<u16>,
    pub request_id: Option<String>,
    pub updated_at: i64,
}

/// What the local service knows of all its accounts.
#[derive(Debug, Clone, PartialEq, Eq)]
pub struct CodexLocalAccessHealthRegistry {
    pub schema_version: u32,
    pub updated_at: i64,
    pub accounts: BTreeMap<String, CodexLocalAccessAccountHealth>,
    pub model_cooldowns: BTreeMap<String, CodexLocalAccessModelCooldown>,
    pub sticky_bindings: BTreeMap<String, CodexLocalAccessStickyBinding>,
    pub request_affinity: BTreeMap<String, CodexLocalAccessStickyBinding>,
    pub last_global_error: Option<CodexLocalAccessGlobalError>,
}

impl Default for CodexLocalAccessHealthRegistry {
    fn default() -> (registry: Self)
        ensures
            registry.schema_version == CODEX_LOCAL_ACCESS_HEALTH_SCHEMA_VERSION,
            registry.updated_at == 0,
            registry.accounts@ == Map::<String, CodexLocalAccessAccountHealth>::empty(),
            registry.model_cooldowns@ == Map::<String, CodexLocalAccessModelCooldown>::empty(),
            registry.sticky_bindings@ == Map::<String, CodexLocalAccessStickyBinding>::empty(),
            registry.request_affinity@ == Map::<String, CodexLocalAccessStickyBinding>::empty(),
            registry.last_global_error is None,
    {
        CodexLocalAccessHealthRegistry {
            schema_version: CODEX_LOCAL_ACCESS_HEALTH_SCHEMA_VERSION,
            updated_at: 0,
            accounts: BTreeMap::new(),
            model_cooldowns: BTreeMap::new(),
            sticky_bindings: BTreeMap::new(),
            request_affinity: BTreeMap::new(),
            last_global_error: None,
        }
    }
}

/// Counts of requests and tokens.
#[derive(Debug, Clone, Default)]
pub struct CodexLocalAccessUsageStats {
    pub request_count: u64,
    pub success_count: u64,
    pub failure_count: u64,
    pub total_latency_ms: u64,
    pub input_tokens: u64,
    pub output_tokens: u64,
    pub total_tokens: u64,
    pub cached_tokens: u64,
    pub reasoning_tokens: u64,
}

/// The counts of one account.
#[derive(Debug, Clone, Default)]
pub struct CodexLocalAccessAccountStats {
    pub account_id: String,
    pub email: String,
    pub usage: CodexLocalAccessUsageStats,
    pub updated_at: i64,
}

/// The counts of a span of time.
#[derive(Debug, Clone, Default)]
pub struct CodexLocalAccessStatsWindow {
    pub since: i64,
    pub updated_at: i64,
    pub totals: CodexLocalAccessUsageStats,
    pub accounts: Vec<CodexLocalAccessAccountStats>,
}

/// One request and what it took.
#[derive(Debug, Clone, Default)]
pub struct CodexLocalAccessUsageEvent {
    pub timestamp: i64,
    pub account_id: String,
    pub email: String,
    pub success: bool,
    pub latency_ms: u64,
    pub input_tokens: u64,
    pub output_tokens: u64,
    pub total_tokens: u64,
    pub cached_tokens: u64,
    pub reasoning_tokens: u64,
}

/// The counts of the local service.
#[derive(Debug, Clone, Default)]
pub struct CodexLocalAccessStats {
    pub since: i64,
    pub updated_at: i64,
    pub totals: CodexLocalAccessUsageStats,
    pub accounts: Vec<CodexLocalAccessAccountStats>,
    pub daily: CodexLocalAccessStatsWindow,
    pub weekly: CodexLocalAccessStatsWindow,
    pub monthly: CodexLocalAccessStatsWindow,
    pub events: Vec<CodexLocalAccessUsageEvent>,
}

/// How the accounts are doing, on the whole.
#[derive(Debug, Clone, Default)]
pub struct CodexLocalAccessHealthSummary {
    pub schema_version: u32,
    pub updated_at: i64,
    pub unavailable: bool,
    pub load_error: Option<String>,
    pub accounts: Vec<CodexLocalAccessAccountHealthView>,
    pub healthy_count: usize,
    pub estimated_available_count: usize,
    pub cooling_count: usize,
    pub exhausted_count: usize,
    pub auth_suspect_count: usize,
    pub manual_required_count: usize,
    pub disabled_count: usize,
    pub active_model_cooldown_count: usize,
    pub sticky_account_hash: Option<String>,
    pub sticky_reason: Option<String>,
    pub sticky_expires_at_ms: Option<i64>,
    pub nearest_cooldown_until_ms: Option<i64>,
    pub last_error_type: Option<String>,
    pub last_status: Option<u16>,
    pub last_request_id: Option<String>,
    pub audit_degraded: bool,
    pub audit_error: Option<String>,
    pub audit_degraded_at_ms: Option<i64>,
}

/// How one account is doing, for display.
#[derive(Debug, Clone, Default)]
pub struct CodexLocalAccessAccountHealthView {
    pub account_id: String,
    pub status: CodexLocalAccessAccountHealthStatus,
    pub manual_required: bool,
    pub cooldown_until_ms: Option<i64>,
    pub exhausted_at_ms: Option<i64>,
    pub estimated_reset_at_ms: Option<i64>,
    pub last_status: Option<u16>,
    pub last_error_type: Option<String>,
    pub last_provider_code: Option<String>,
    pub updated_at: i64,
    pub active_model_cooldown_count: usize,
    pub nearest_model_cooldown_until_ms: Option<i64>,
}

/// The local service as a whole.
#[derive(Debug, Clone)]
pub struct CodexLocalAccessState {
    pub collection: Option<CodexLocalAccessCollection>,
    pub running: bool,
    pub api_port_url: Option<String>,
    pub base_url: Option<String>,
    pub lan_base_url: Option<String>,
    pub model_ids: Vec<String>,
    pub last_error: Option<String>,
    pub member_count: usize,
    pub effective_account_ids: Vec<String>,
    pub stats: CodexLocalAccessStats,
    pub health: CodexLocalAccessHealthSummary,
}

/// What came of freeing the port.
#[derive(Debug, Clone)]
pub struct CodexLocalAccessPortCleanupResult {
    pub killed_count: u32,
    pub state: CodexLocalAccessState,
}

/// The limits by default: one request at a time, twenty seconds apart, with one retry on at most two
/// accounts, no other account stepping in, and local mode hardened.
pub proof fn limits_are_strict_by_default()
    ensures
        safety_defaults().schema_version == 1,
        safety_defaults().hardened_local_mode,
        safety_defaults().max_concurrent_requests == 1,
        safety_defaults().min_request_interval_seconds == 20,
        safety_defaults().max_queue_wait_seconds == 21,
        safety_defaults().request_timeout_seconds == 600,
        safety_defaults().max_request_body_mb == 64,
        safety_defaults().max_retries == 1,
        safety_defaults().max_retry_accounts == 2,
        safety_defaults().fallback_mode == CodexLocalApiFallbackMode::Disabled,
        safety_defaults().logging == logging_defaults(),
        CODEX_LOCAL_ACCESS_HEALTH_SCHEMA_VERSION == 1,
{
}

/// By default nothing sensitive is logged, neither prompts nor responses nor the bodies of others, and
/// all else is.
pub proof fn nothing_sensitive_is_logged_by_default()
    ensures
        logging_defaults().redact_sensitive_values,
        !logging_defaults().include_prompt_response,
        !logging_defaults().include_raw_upstream_body,
        logging_defaults().include_request_id,
        logging_defaults().include_account_hash,
        logging_defaults().include_route,
        logging_defaults().include_model,
        logging_defaults().include_latency,
{
}

/// The modes are told apart by their names.
pub proof fn modes_are_told_apart_by_name(left: CodexLocalApiFallbackMode, right: CodexLocalApiFallbackMode)
    ensures
        left.name() == right.name() ==> left == right,
        CodexLocalApiFallbackMode::Disabled.name() == "disabled"@,
        CodexLocalApiFallbackMode::NextRequestOnly.name() == "next_request_only"@,
        CodexLocalApiFallbackMode::Unknown.name() == "unknown"@,
{
    reveal_strlit("disabled");
    reveal_strlit("next_request_only");
    reveal_strlit("unknown");
    assert("disabled"@.len() == 8);
    assert("next_request_only"@.len() == 17);
    assert("unknown"@.len() == 7);
}

} // verus!
