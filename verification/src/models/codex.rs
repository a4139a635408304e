//! Codex accounts and their quota snapshots.
use vstd::prelude::*;

use crate::clock::now_seconds;
use crate::json::{opt_json, Json, JsonValue};
use crate::text::opt_text;

verus! {

/// A window of at least six days counts as weekly.
pub const WEEKLY_WINDOW_MINUTES_THRESHOLD: i64 = 6 * 24 * 60;

/// The tokens of an OAuth account.
#[derive(Debug)]
pub struct CodexTokens {
    pub id_token: String,
    pub access_token: String,
    pub refresh_token: Option<String>,
}

pub ghost struct TokensModel {
    pub id_token: Seq<char>,
    pub access_token: Seq<char>,
    pub refresh_token: Option<Seq<char>>,
}

impl View for CodexTokens {
    type V = TokensModel;

    open spec fn view(&self) -> TokensModel {
        TokensModel {
            id_token: self.id_token@,
            access_token: self.access_token@,
            refresh_token: opt_text(self.refresh_token),
        }
    }
}

impl Clone for CodexTokens {
    fn clone(&self) -> (copy: Self)
        ensures
            copy@ == self@,
    {
        CodexTokens {
            id_token: self.id_token.clone(),
            access_token: self.access_token.clone(),
            refresh_token: clone_text(&self.refresh_token),
        }
    }
}

/// How an account signs in.
#[derive(Clone, Copy, Debug, PartialEq, Eq, Structural)]
pub enum CodexAuthMode {
    OAuth,
    ApiKey,
}

/// What is left of an account's quota: a percentage for a short window and one for the week.
///
/// Each slot holds the percentage left, when the window resets, how long it is, and whether the
/// account has it at all. A slot that does not say counts as present.
#[derive(Debug)]
pub struct CodexQuota {
    pub hourly_percentage: i32,
    pub hourly_reset_time: Option<i64>,
    pub hourly_window_minutes: Option<i64>,
    pub hourly_window_present: Option<bool>,
    pub weekly_percentage: i32,
    pub weekly_reset_time: Option<i64>,
    pub weekly_window_minutes: Option<i64>,
    pub weekly_window_present: Option<bool>,
    pub raw_data: Option<JsonValue>,
}

pub ghost struct QuotaModel {
    pub hourly_percentage: i32,
    pub hourly_reset_time: Option<i64>,
    pub hourly_window_minutes: Option<i64>,
    pub hourly_window_present: Option<bool>,
    pub weekly_percentage: i32,
    pub weekly_reset_time: Option<i64>,
    pub weekly_window_minutes: Option<i64>,
    pub weekly_window_present: Option<bool>,
    pub raw_data: Option<Json>,
}

impl View for CodexQuota {
    type V = QuotaModel;

    open spec fn view(&self) -> QuotaModel {
        QuotaModel {
            hourly_percentage: self.hourly_percentage,
            hourly_reset_time: self.hourly_reset_time,
            hourly_window_minutes: self.hourly_window_minutes,
            hourly_window_present: self.hourly_window_present,
            weekly_percentage: self.weekly_percentage,
            weekly_reset_time: self.weekly_reset_time,
            weekly_window_minutes: self.weekly_window_minutes,
            weekly_window_present: self.weekly_window_present,
            raw_data: opt_json(self.raw_data),
        }
    }
}

/// An optional quota, mathematically.
pub open spec fn opt_quota(quota: Option<CodexQuota>) -> Option<QuotaModel> {
    match quota {
        Some(quota) => Some(quota@),
        None => None,
    }
}

/// The hourly slot holds a weekly window while the weekly slot is empty.
pub open spec fn slots_misplaced(quota: QuotaModel) -> bool {
    &&& quota.hourly_window_present != Some(false)
    &&& quota.hourly_window_minutes matches Some(minutes)
    &&& minutes >= WEEKLY_WINDOW_MINUTES_THRESHOLD
    &&& quota.weekly_window_present == Some(false)
}

/// The quota with each window in the slot of its length.
pub open spec fn with_normal_slots(quota: QuotaModel) -> QuotaModel {
    if slots_misplaced(quota) {
        QuotaModel {
            hourly_percentage: 100,
            hourly_reset_time: None,
            hourly_window_minutes: None,
            hourly_window_present: Some(false),
            weekly_percentage: quota.hourly_percentage,
            weekly_reset_time: quota.hourly_reset_time,
            weekly_window_minutes: quota.hourly_window_minutes,
            weekly_window_present: Some(true),
            raw_data: quota.raw_data,
        }
    } else {
        quota
    }
}

impl Clone for CodexQuota {
    fn clone(&self) -> (copy: Self)
        ensures
            copy@ == self@,
    {
        CodexQuota {
            hourly_percentage: self.hourly_percentage,
            hourly_reset_time: self.hourly_reset_time,
            hourly_window_minutes: self.hourly_window_minutes,
            hourly_window_present: self.hourly_window_present,
            weekly_percentage: self.weekly_percentage,
            weekly_reset_time: self.weekly_reset_time,
            weekly_window_minutes: self.weekly_window_minutes,
            weekly_window_present: self.weekly_window_present,
            raw_data: match &self.raw_data {
                Some(raw_data) => Some(raw_data.clone()),
                None => None,
            },
        }
    }
}

impl CodexQuota {
    /// Moves a weekly window out of the hourly slot if the weekly slot is empty, and says
    /// whether it did.
    pub fn normalize_window_slots(&mut self) -> (changed: bool)
        ensures
            final(self)@ == with_normal_slots(old(self)@),
            changed == slots_misplaced(old(self)@),
    {
        let weekly_in_hourly_slot = match self.hourly_window_minutes {
            Some(minutes) => minutes >= WEEKLY_WINDOW_MINUTES_THRESHOLD,
            None => false,
        };
        let hourly_absent = match self.hourly_window_present {
            Some(present) => !present,
            None => false,
        };
        let weekly_absent = match self.weekly_window_present {
            Some(present) => !present,
            None => false,
        };
        if hourly_absent || !weekly_in_hourly_slot || !weekly_absent {
            return false;
        }
        self.weekly_percentage = self.hourly_percentage;
        self.weekly_reset_time = self.hourly_reset_time;
        self.weekly_window_minutes = self.hourly_window_minutes;
        self.weekly_window_present = Some(true);
        self.hourly_percentage = 100;
        self.hourly_reset_time = None;
        self.hourly_window_minutes = None;
        self.hourly_window_present = Some(false);
        true
    }
}

/// Slots in order stay in order: normalizing a second time changes nothing.
pub proof fn normalizing_slots_is_idempotent(quota: QuotaModel)
    ensures
        with_normal_slots(with_normal_slots(quota)) == with_normal_slots(quota),
        !slots_misplaced(with_normal_slots(quota)),
{
}

/// The last failure to learn an account's quota.
#[derive(Debug)]
pub struct CodexQuotaErrorInfo {
    pub code: Option<String>,
    pub message: String,
    pub timestamp: i64,
}

pub ghost struct QuotaErrorModel {
    pub code: Option<Seq<char>>,
    pub message: Seq<char>,
    pub timestamp: i64,
}

impl View for CodexQuotaErrorInfo {
    type V = QuotaErrorModel;

    open spec fn view(&self) -> QuotaErrorModel {
        QuotaErrorModel {
            code: opt_text(self.code),
            message: self.message@,
            timestamp: self.timestamp,
        }
    }
}

/// An optional quota error, mathematically.
pub open spec fn opt_error(error: Option<CodexQuotaErrorInfo>) -> Option<QuotaErrorModel> {
    match error {
        Some(error) => Some(error@),
        None => None,
    }
}

impl Clone for CodexQuotaErrorInfo {
    fn clone(&self) -> (copy: Self)
        ensures
            copy@ == self@,
    {
        CodexQuotaErrorInfo {
            code: clone_text(&self.code),
            message: self.message.clone(),
            timestamp: self.timestamp,
        }
    }
}

/// An account and what is known of its quota.
#[derive(Debug)]
pub struct CodexAccount {
    pub id: String,
    pub email: String,
    pub auth_mode: CodexAuthMode,
    pub openai_api_key: Option<String>,
    pub api_base_url: Option<String>,
    pub api_provider_id: Option<String>,
    pub user_id: Option<String>,
    pub plan_type: Option<String>,
    pub subscription_active_until: Option<String>,
    pub account_id: Option<String>,
    pub tokens: CodexTokens,
    pub quota: Option<CodexQuota>,
    pub quota_error: Option<CodexQuotaErrorInfo>,
    pub usage_updated_at: Option<i64>,
    pub last_used: i64,
}

pub ghost struct AccountModel {
    pub id: Seq<char>,
    pub email: Seq<char>,
    pub auth_mode: CodexAuthMode,
    pub openai_api_key: Option<Seq<char>>,
    pub api_base_url: Option<Seq<char>>,
    pub api_provider_id: Option<Seq<char>>,
    pub user_id: Option<Seq<char>>,
    pub plan_type: Option<Seq<char>>,
    pub subscription_active_until: Option<Seq<char>>,
    pub account_id: Option<Seq<char>>,
    pub tokens: TokensModel,
    pub quota: Option<QuotaModel>,
    pub quota_error: Option<QuotaErrorModel>,
    pub usage_updated_at: Option<i64>,
    pub last_used: i64,
}

impl View for CodexAccount {
    type V = AccountModel;

    open spec fn view(&self) -> AccountModel {
        AccountModel {
            id: self.id@,
            email: self.email@,
            auth_mode: self.auth_mode,
            openai_api_key: opt_text(self.openai_api_key),
            api_base_url: opt_text(self.api_base_url),
            api_provider_id: opt_text(self.api_provider_id),
            user_id: opt_text(self.user_id),
            plan_type: opt_text(self.plan_type),
            subscription_active_until: opt_text(self.subscription_active_until),
            account_id: opt_text(self.account_id),
            tokens: self.tokens@,
            quota: opt_quota(self.quota),
            quota_error: opt_error(self.quota_error),
            usage_updated_at: self.usage_updated_at,
            last_used: self.last_used,
        }
    }
}

/// Accounts, mathematically.
pub open spec fn accounts_of(accounts: Seq<CodexAccount>) -> Seq<AccountModel> {
    accounts.map_values(|account: CodexAccount| account@)
}

/// An OAuth account of which nothing is known yet but its name and tokens.
pub open spec fn new_account(
    id: Seq<char>,
    email: Seq<char>,
    tokens: TokensModel,
    now: i64,
) -> AccountModel {
    AccountModel {
        id,
        email,
        auth_mode: CodexAuthMode::OAuth,
        openai_api_key: None,
        api_base_url: None,
        api_provider_id: None,
        user_id: None,
        plan_type: None,
        subscription_active_until: None,
        account_id: None,
        tokens,
        quota: None,
        quota_error: None,
        usage_updated_at: None,
        last_used: now,
    }
}

impl Clone for CodexAccount {
    fn clone(&self) -> (copy: Self)
        ensures
            copy@ == self@,
    {
        CodexAccount {
            id: self.id.clone(),
            email: self.email.clone(),
            auth_mode: self.auth_mode,
            openai_api_key: clone_text(&self.openai_api_key),
            api_base_url: clone_text(&self.api_base_url),
            api_provider_id: clone_text(&self.api_provider_id),
            user_id: clone_text(&self.user_id),
            plan_type: clone_text(&self.plan_type),
            subscription_active_until: clone_text(&self.subscription_active_until),
            account_id: clone_text(&self.account_id),
            tokens: self.tokens.clone(),
            quota: match &self.quota {
                Some(quota) => Some(quota.clone()),
                None => None,
            },
            quota_error: match &self.quota_error {
                Some(error) => Some(error.clone()),
                None => None,
            },
            usage_updated_at: self.usage_updated_at,
            last_used: self.last_used,
        }
    }
}

impl CodexAccount {
    /// A new OAuth account, last used now.
    pub fn new(id: String, email: String, tokens: CodexTokens) -> (account: Self)
        ensures
            exists|now: i64| #[trigger] new_account(id@, email@, tokens@, now) == account@,
    {
        CodexAccount::new_at(id, email, tokens, now_seconds())
    }

    /// A new OAuth account, last used at `now`.
    pub fn new_at(id: String, email: String, tokens: CodexTokens, now: i64) -> (account: Self)
        ensures
            account@ == new_account(id@, email@, tokens@, now),
    {
        CodexAccount {
            id,
            email,
            auth_mode: CodexAuthMode::OAuth,
            openai_api_key: None,
            api_base_url: None,
            api_provider_id: None,
            user_id: None,
            plan_type: None,
            subscription_active_until: None,
            account_id: None,
            tokens,
            quota: None,
            quota_error: None,
            usage_updated_at: None,
            last_used: now,
        }
    }

    /// Whether the account signs in with an API key.
    pub fn is_api_key_auth(&self) -> (api_key: bool)
        ensures
            api_key == (self@.auth_mode == CodexAuthMode::ApiKey),
    {
        self.auth_mode == CodexAuthMode::ApiKey
    }
}

/// A copy of an optional text.
pub fn clone_text(text: &Option<String>) -> (copy: Option<String>)
    ensures
        opt_text(copy) == opt_text(*text),
{
    match text {
        Some(text) => Some(text.clone()),
        None => None,
    }
}

/// Of a new account nothing is known but its name, its tokens and that it was used now.
pub proof fn new_account_is_blank(
    id: Seq<char>,
    email: Seq<char>,
    tokens: TokensModel,
    now: i64,
)
    ensures
        ({
            let account = new_account(id, email, tokens, now);
            &&& account.id == id
            &&& account.email == email
            &&& account.tokens == tokens
            &&& account.last_used == now
            &&& account.auth_mode == CodexAuthMode::OAuth
            &&& account.quota is None
            &&& account.quota_error is None
            &&& account.usage_updated_at is None
            &&& account.openai_api_key is None
            &&& account.api_base_url is None
            &&& account.api_provider_id is None
            &&& account.user_id is None
            &&& account.account_id is None
            &&& account.plan_type is None
            &&& account.subscription_active_until is None
        }),
{
}

} // verus!
