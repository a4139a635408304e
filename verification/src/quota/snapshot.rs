//! Quota snapshots of accounts whose quota is used up, and the errors that go with them.
use vstd::prelude::*;

use crate::clock::now_seconds;
use crate::json::{
    fields_of, json_object, json_of_opt_i64, json_optional_integer, json_integer, number_of, Json,
    JsonValue,
};
use crate::models::codex::{
    AccountModel, CodexAccount, CodexQuota, CodexQuotaErrorInfo, QuotaErrorModel, QuotaModel,
};
use crate::numbers::{first_some, or_i64};
use crate::quota::messages::{
    error_code_in, extract_error_code_from_message, extract_i64_marker_from_message,
    is_quota_exhaustion_error, marked_i64, normalize_optional_timestamp, opt_unix_seconds,
    says_exhausted,
};

verus! {

/// What a snapshot of a used-up quota records of its origin.
pub open spec fn exhausted_raw_data(
    source: Seq<char>,
    reset_at: Option<i64>,
    reset_after_seconds: Option<i64>,
    now: i64,
) -> Json {
    Json::Object(
        seq![
            ("exhausted_at"@, Json::Number(number_of(now))),
            ("quota_exhausted"@, Json::Bool(true)),
            ("reset_after_seconds"@, json_of_opt_i64(reset_after_seconds)),
            ("reset_at"@, json_of_opt_i64(reset_at)),
            ("source"@, Json::Text(source)),
        ],
    )
}

/// The snapshot of a used-up quota: both windows are at zero and reset at the given time, or
/// when they were to reset before. The rest is as it was; a window that was never described
/// counts as present.
pub open spec fn exhausted_snapshot(
    previous: Option<QuotaModel>,
    source: Seq<char>,
    reset_at: Option<i64>,
    reset_after_seconds: Option<i64>,
    now: i64,
) -> QuotaModel {
    let raw_data = Some(exhausted_raw_data(source, reset_at, reset_after_seconds, now));
    match previous {
        Some(quota) => QuotaModel {
            hourly_percentage: 0,
            hourly_reset_time: first_some(reset_at, quota.hourly_reset_time),
            hourly_window_minutes: quota.hourly_window_minutes,
            hourly_window_present: first_some(quota.hourly_window_present, Some(true)),
            weekly_percentage: 0,
            weekly_reset_time: first_some(reset_at, quota.weekly_reset_time),
            weekly_window_minutes: quota.weekly_window_minutes,
            weekly_window_present: first_some(quota.weekly_window_present, Some(true)),
            raw_data,
        },
        None => QuotaModel {
            hourly_percentage: 0,
            hourly_reset_time: reset_at,
            hourly_window_minutes: None,
            hourly_window_present: Some(true),
            weekly_percentage: 0,
            weekly_reset_time: reset_at,
            weekly_window_minutes: None,
            weekly_window_present: Some(true),
            raw_data,
        },
    }
}

/// The snapshot of a used-up quota.
pub fn build_exhausted_quota_snapshot_with_hint(
    account: &CodexAccount,
    source: &str,
    reset_at: Option<i64>,
    reset_after_seconds: Option<i64>,
    now: i64,
) -> (snapshot: CodexQuota)
    ensures
        snapshot@ == exhausted_snapshot(
            account@.quota,
            source@,
            reset_at,
            reset_after_seconds,
            now,
        ),
{
    let raw_fields: Vec<(String, JsonValue)> = vec![
        ("exhausted_at".to_owned(), json_integer(now)),
        ("quota_exhausted".to_owned(), JsonValue::Bool(true)),
        ("reset_after_seconds".to_owned(), json_optional_integer(reset_after_seconds)),
        ("reset_at".to_owned(), json_optional_integer(reset_at)),
        ("source".to_owned(), JsonValue::Text(source.to_owned())),
    ];
    proof {
        assert(fields_of(raw_fields@) =~= exhausted_raw_data(
            source@,
            reset_at,
            reset_after_seconds,
            now,
        )->Object_0);
    }
    let raw_data = Some(json_object(raw_fields));
    match &account.quota {
        Some(previous) => CodexQuota {
            hourly_percentage: 0,
            hourly_reset_time: or_i64(reset_at, previous.hourly_reset_time),
            hourly_window_minutes: previous.hourly_window_minutes,
            hourly_window_present: match previous.hourly_window_present {
                Some(present) => Some(present),
                None => Some(true),
            },
            weekly_percentage: 0,
            weekly_reset_time: or_i64(reset_at, previous.weekly_reset_time),
            weekly_window_minutes: previous.weekly_window_minutes,
            weekly_window_present: match previous.weekly_window_present {
                Some(present) => Some(present),
                None => Some(true),
            },
            raw_data,
        },
        None => CodexQuota {
            hourly_percentage: 0,
            hourly_reset_time: reset_at,
            hourly_window_minutes: None,
            hourly_window_present: Some(true),
            weekly_percentage: 0,
            weekly_reset_time: reset_at,
            weekly_window_minutes: None,
            weekly_window_present: Some(true),
            raw_data,
        },
    }
}

/// The snapshot for an error message that says that the quota is used up.
pub open spec fn snapshot_of_message(
    previous: Option<QuotaModel>,
    message: Seq<char>,
    now: i64,
) -> QuotaModel {
    exhausted_snapshot(
        previous,
        "quota_refresh_error"@,
        opt_unix_seconds(marked_i64(message, "[reset_at:"@)),
        marked_i64(message, "[reset_after_seconds:"@),
        now,
    )
}

/// The snapshot for an error message that says that the quota is used up, taken at `now`.
pub fn build_exhausted_quota_snapshot_at(account: &CodexAccount, message: &str, now: i64) -> (snapshot:
    CodexQuota)
    ensures
        snapshot@ == snapshot_of_message(account@.quota, message@, now),
{
    let reset_at = normalize_optional_timestamp(
        extract_i64_marker_from_message(message, "[reset_at:"),
    );
    let reset_after_seconds = extract_i64_marker_from_message(message, "[reset_after_seconds:");
    build_exhausted_quota_snapshot_with_hint(
        account,
        "quota_refresh_error",
        reset_at,
        reset_after_seconds,
        now,
    )
}

/// The snapshot for an error message that says that the quota is used up, taken now.
pub fn build_exhausted_quota_snapshot(account: &CodexAccount, message: &str) -> (snapshot: CodexQuota)
    ensures
        exists|now: i64| #[trigger]
            snapshot_of_message(account@.quota, message@, now) == snapshot@,
{
    build_exhausted_quota_snapshot_at(account, message, now_seconds())
}

/// The account with a message as its last quota error.
pub open spec fn with_quota_error(account: AccountModel, message: Seq<char>, now: i64) -> AccountModel {
    AccountModel {
        quota_error: Some(
            QuotaErrorModel { code: error_code_in(message), message, timestamp: now },
        ),
        ..account
    }
}

/// Records a message as the account's last quota error, at `now`.
pub fn write_quota_error_at(account: &mut CodexAccount, message: String, now: i64)
    ensures
        final(account)@ == with_quota_error(old(account)@, message@, now),
{
    let code = extract_error_code_from_message(message.as_str());
    account.quota_error = Some(CodexQuotaErrorInfo { code, message, timestamp: now });
}

/// Records a message as the account's last quota error, now.
pub fn write_quota_error(account: &mut CodexAccount, message: String)
    ensures
        exists|now: i64| #[trigger]
            with_quota_error(old(account)@, message@, now) == final(account)@,
{
    write_quota_error_at(account, message, now_seconds());
}

/// The account after a failed look at its quota: the message is its last quota error, and if it
/// says that the quota is used up, so does the quota.
pub open spec fn with_fetch_error(account: AccountModel, message: Seq<char>, now: i64) -> AccountModel {
    let noted = with_quota_error(account, message, now);
    if says_exhausted(message) {
        AccountModel {
            quota: Some(snapshot_of_message(account.quota, message, now)),
            usage_updated_at: Some(now),
            ..noted
        }
    } else {
        noted
    }
}

/// Records a failed look at the account's quota, at `now`.
pub fn write_quota_fetch_error_at(account: &mut CodexAccount, message: String, now: i64)
    ensures
        final(account)@ == with_fetch_error(old(account)@, message@, now),
{
    if is_quota_exhaustion_error(message.as_str()) {
        let snapshot = build_exhausted_quota_snapshot_at(account, message.as_str(), now);
        write_quota_error_at(account, message, now);
        account.quota = Some(snapshot);
        account.usage_updated_at = Some(now);
    } else {
        write_quota_error_at(account, message, now);
    }
}

/// Records a failed look at the account's quota, now.
pub fn write_quota_fetch_error(account: &mut CodexAccount, message: String)
    ensures
        exists|now: i64| #[trigger]
            with_fetch_error(old(account)@, message@, now) == final(account)@,
{
    write_quota_fetch_error_at(account, message, now_seconds());
}

} // verus!
