//! How quota observations change what is known of an account.
use vstd::prelude::*;

use crate::clock::now_seconds;
use crate::json::{json_integer, number_of, Json, JsonValue};
use crate::models::codex::{
    AccountModel, CodexAccount, CodexQuota, CodexQuotaErrorInfo, QuotaErrorModel, QuotaModel,
};
use crate::models::codex_local_access::{CodexRuntimeIntegrationMode, CodexRuntimeModeState};
use crate::numbers::{greater, max_i64};
use crate::quota::direct::{opt_observation_ref, DirectQuotaObservation, ObservationModel};
use crate::quota::events::{set_raw_field, with_raw_field};
use crate::quota::messages::{is_quota_exhaustion_error, says_exhausted};
use crate::quota::preference::{
    direct_observation_quota_reset_hint, observation_reset, quota_remaining, quota_reset,
    quota_reset_time_for_preservation, quota_remaining_for_direct_observation, remaining_in,
    remaining_of_optional_quota,
};
use crate::quota::snapshot::{build_exhausted_quota_snapshot_with_hint, exhausted_snapshot};
use crate::text::{as_text, decimal, decimal_of, is_text, joined, opt_text};

verus! {

/// The error says that the quota is used up, by its code or by its message.
pub open spec fn error_is_exhaustion(error: QuotaErrorModel) -> bool {
    (error.code matches Some(code) && says_exhausted(code)) || says_exhausted(error.message)
}

/// Whether an error says that the quota is used up.
pub fn is_exhaustion_error(error: &CodexQuotaErrorInfo) -> (exhausted: bool)
    ensures
        exhausted == error_is_exhaustion(error@),
{
    let by_code = match &error.code {
        Some(code) => is_quota_exhaustion_error(code.as_str()),
        None => false,
    };
    by_code || is_quota_exhaustion_error(error.message.as_str())
}

/// The account is known to have used up its quota, which resets only after `now`.
pub open spec fn keeps_exhaustion(account: AccountModel, now: i64) -> bool {
    &&& account.quota_error matches Some(error)
    &&& error_is_exhaustion(error)
    &&& account.quota matches Some(quota)
    &&& quota.hourly_percentage <= 0
    &&& quota.weekly_percentage <= 0
    &&& quota_reset(quota) matches Some(reset_at)
    &&& reset_at > now
}

/// Whether an account is known to have used up its quota, which resets only after `now`.
pub fn should_keep_existing_quota_exhaustion(account: &CodexAccount, now: i64) -> (keep: bool)
    ensures
        keep == keeps_exhaustion(account@, now),
{
    let exhausted = match &account.quota_error {
        Some(error) => is_exhaustion_error(error),
        None => false,
    };
    if !exhausted {
        return false;
    }
    match &account.quota {
        Some(quota) => {
            if quota.hourly_percentage > 0 || quota.weekly_percentage > 0 {
                return false;
            }
            match quota_reset_time_for_preservation(quota) {
                Some(reset_at) => reset_at > now,
                None => false,
            }
        },
        None => false,
    }
}

/// The message that records an observation of a used-up quota.
pub open spec fn exhaustion_message(error_type: Seq<char>, reset_at: Option<i64>) -> Seq<char> {
    "Codex Direct OAuth upstream quota exhausted: status=429, error_type="@ + error_type
        + ", reset_at="@ + match reset_at {
        Some(reset_at) => decimal_of(reset_at as int),
        None => "-"@,
    }
}

/// The message that records an observation of a used-up quota.
pub fn write_exhaustion_message(error_type: &str, reset_at: Option<i64>) -> (message: String)
    ensures
        message@ == exhaustion_message(error_type@, reset_at),
{
    let mut message = joined(
        "Codex Direct OAuth upstream quota exhausted: status=429, error_type=",
        error_type,
    );
    message.append(", reset_at=");
    match reset_at {
        Some(reset_at) => message.append(decimal(reset_at as i128).as_str()),
        None => message.append("-"),
    }
    message
}

/// The kind of limit that an observation of a used-up quota names, or the common one.
pub open spec fn observed_error_type(observation: ObservationModel) -> Seq<char> {
    match observation.error_type {
        Some(error_type) => error_type,
        None => "usage_limit_reached"@,
    }
}

/// What an account's last quota error is after an observation: one of a used-up quota is the
/// error itself; any other clears an error of a used-up quota that is not newer.
pub open spec fn error_after(error: Option<QuotaErrorModel>, observation: ObservationModel) -> Option<
    QuotaErrorModel,
> {
    if observation.exhausted {
        let error_type = observed_error_type(observation);
        Some(
            QuotaErrorModel {
                code: Some(error_type),
                message: exhaustion_message(error_type, observation.reset_at),
                timestamp: observation.observed_at,
            },
        )
    } else if error matches Some(old) && old.timestamp <= observation.observed_at
        && error_is_exhaustion(old) {
        None
    } else {
        error
    }
}

/// The account after an observation: with the quota observed, or a snapshot of a used-up one if
/// none was.
pub open spec fn observed(account: AccountModel, observation: ObservationModel) -> AccountModel {
    AccountModel {
        quota: Some(
            match observation.quota {
                Some(quota) => quota,
                None => exhausted_snapshot(
                    account.quota,
                    observation.source,
                    observation.reset_at,
                    observation.reset_after_seconds,
                    observation.observed_at,
                ),
            },
        ),
        quota_error: error_after(account.quota_error, observation),
        usage_updated_at: Some(observation.observed_at),
        ..account
    }
}

/// Records an observation in an account.
pub fn apply_direct_quota_observation(
    account: &mut CodexAccount,
    observation: &DirectQuotaObservation,
)
    ensures
        final(account)@ == observed(old(account)@, observation@),
{
    let quota = match &observation.quota {
        Some(quota) => quota.clone(),
        None => build_exhausted_quota_snapshot_with_hint(
            account,
            observation.source.as_str(),
            observation.reset_at,
            observation.reset_after_seconds,
            observation.observed_at,
        ),
    };
    account.quota = Some(quota);
    if observation.exhausted {
        let error_type = match &observation.error_type {
            Some(error_type) => error_type.clone(),
            None => "usage_limit_reached".to_owned(),
        };
        let message = write_exhaustion_message(error_type.as_str(), observation.reset_at);
        account.quota_error = Some(
            CodexQuotaErrorInfo {
                code: Some(error_type),
                message,
                timestamp: observation.observed_at,
            },
        );
    } else {
        let outdated = match &account.quota_error {
            Some(error) => error.timestamp <= observation.observed_at && is_exhaustion_error(error),
            None => false,
        };
        if outdated {
            account.quota_error = None;
        }
    }
    account.usage_updated_at = Some(observation.observed_at);
}

/// The observation is worth recording at `now`: one of a used-up quota unless that has reset
/// since; one of a quota if it shows less left than is known, or if nothing is known.
pub open spec fn is_applicable(account: AccountModel, observation: ObservationModel, now: i64) -> bool {
    if observation.exhausted {
        !(observation.reset_at matches Some(reset_at) && reset_at <= now)
    } else {
        match observation.quota {
            Some(quota) => match (quota_remaining(quota), remaining_in(account.quota)) {
                (Some(observed), Some(known)) => observed < known,
                (Some(_), None) => true,
                (None, _) => false,
            },
            None => true,
        }
    }
}

/// Whether an observation is worth recording at `now`.
pub fn should_apply_direct_quota_observation_at(
    account: &CodexAccount,
    observation: &DirectQuotaObservation,
    now: i64,
) -> (apply: bool)
    ensures
        apply == is_applicable(account@, observation@, now),
{
    if observation.exhausted {
        return match observation.reset_at {
            Some(reset_at) => reset_at > now,
            None => true,
        };
    }
    let observed = match &observation.quota {
        Some(quota) => match quota_remaining_for_direct_observation(quota) {
            Some(remaining) => remaining,
            None => {
                return false;
            },
        },
        None => {
            return true;
        },
    };
    match remaining_of_optional_quota(&account.quota) {
        Some(known) => observed < known,
        None => true,
    }
}

/// Whether an observation is worth recording now.
pub fn should_apply_direct_quota_observation(
    account: &CodexAccount,
    observation: &DirectQuotaObservation,
) -> (apply: bool)
    ensures
        exists|now: i64| #[trigger] is_applicable(account@, observation@, now) == apply,
{
    should_apply_direct_quota_observation_at(account, observation, now_seconds())
}

/// The account is known to have used up its quota.
pub open spec fn has_exhaustion_snapshot(account: AccountModel) -> bool {
    &&& account.quota_error matches Some(error)
    &&& error_is_exhaustion(error)
    &&& remaining_in(account.quota) == Some(0i32)
}

/// Whether an account is known to have used up its quota.
pub fn account_has_direct_quota_exhaustion_snapshot(account: &CodexAccount) -> (exhausted: bool)
    ensures
        exhausted == has_exhaustion_snapshot(account@),
{
    let exhausted = match &account.quota_error {
        Some(error) => is_exhaustion_error(error),
        None => false,
    };
    if !exhausted {
        return false;
    }
    match remaining_of_optional_quota(&account.quota) {
        Some(remaining) => remaining == 0,
        None => false,
    }
}

/// The hourly window is there and used up.
pub open spec fn hourly_used_up(quota: QuotaModel) -> bool {
    quota.hourly_percentage <= 0 && quota.hourly_window_present == Some(true)
}

/// The weekly window is there and used up.
pub open spec fn weekly_used_up(quota: QuotaModel) -> bool {
    quota.weekly_percentage <= 0 && quota.weekly_window_present == Some(true)
}

/// The quota with a later reset for the windows that are used up, or for the weekly one if
/// none is marked so; nothing if there is no window to date.
pub open spec fn redated(quota: QuotaModel, reset_at: i64, source: Seq<char>) -> Option<QuotaModel> {
    let hourly = hourly_used_up(quota);
    let weekly = weekly_used_up(quota);
    let dated = QuotaModel {
        hourly_reset_time: if hourly {
            Some(reset_at)
        } else {
            quota.hourly_reset_time
        },
        weekly_reset_time: if weekly || !hourly {
            Some(reset_at)
        } else {
            quota.weekly_reset_time
        },
        weekly_window_present: if weekly || !hourly {
            Some(true)
        } else {
            quota.weekly_window_present
        },
        ..quota
    };
    if hourly || quota.weekly_percentage <= 0 {
        Some(
            with_raw_field(
                with_raw_field(dated, "reset_at"@, Json::Number(number_of(reset_at))),
                "reset_source"@,
                Json::Text(source),
            ),
        )
    } else {
        None
    }
}

/// The account with the reset of its used-up quota put off to when an observation of a quota that
/// is not used up says; nothing if the account or the observation gives no cause for that.
pub open spec fn repaired(account: AccountModel, observation: ObservationModel, now: i64) -> Option<
    AccountModel,
> {
    if observation.exhausted || !has_exhaustion_snapshot(account) {
        None
    } else {
        match (observation_reset(observation), account.quota) {
            (Some(reset_at), Some(quota)) => if reset_at <= now || (quota_reset(
                quota,
            ) matches Some(current) && current >= reset_at) {
                None
            } else {
                match redated(quota, reset_at, observation.source) {
                    Some(quota) => Some(
                        AccountModel {
                            quota: Some(quota),
                            usage_updated_at: Some(observation.observed_at),
                            ..account
                        },
                    ),
                    None => None,
                }
            },
            _ => None,
        }
    }
}

/// Puts off the reset of a used-up quota, and says whether it did.
fn redate(quota: &mut CodexQuota, reset_at: i64, source: &str) -> (changed: bool)
    requires
        !(quota_reset(old(quota)@) matches Some(current) && current >= reset_at),
    ensures
        changed == (redated(old(quota)@, reset_at, source@) is Some),
        final(quota)@ == (if changed {
            redated(old(quota)@, reset_at, source@)->0
        } else {
            old(quota)@
        }),
{
    let mut changed = false;
    let hourly_present = match quota.hourly_window_present {
        Some(present) => present,
        None => false,
    };
    let weekly_present = match quota.weekly_window_present {
        Some(present) => present,
        None => false,
    };
    if quota.hourly_percentage <= 0 && hourly_present {
        quota.hourly_reset_time = Some(reset_at);
        changed = true;
    }
    if quota.weekly_percentage <= 0 && weekly_present {
        quota.weekly_reset_time = Some(reset_at);
        changed = true;
    }
    if !changed && quota.weekly_percentage <= 0 {
        quota.weekly_reset_time = Some(reset_at);
        quota.weekly_window_present = Some(true);
        changed = true;
    }
    if changed {
        set_raw_field(quota, "reset_at", json_integer(reset_at));
        set_raw_field(quota, "reset_source", JsonValue::Text(source.to_owned()));
    }
    changed
}

/// Puts off the reset of an account's used-up quota to when an observation seen at `now` says,
/// and says whether it did.
pub fn repair_exhausted_account_reset_from_direct_observation_at(
    account: &mut CodexAccount,
    observation: &DirectQuotaObservation,
    now: i64,
) -> (changed: bool)
    ensures
        changed == (repaired(old(account)@, observation@, now) is Some),
        final(account)@ == (if changed {
            repaired(old(account)@, observation@, now)->0
        } else {
            old(account)@
        }),
{
    if observation.exhausted || !account_has_direct_quota_exhaustion_snapshot(account) {
        return false;
    }
    let reset_at = match direct_observation_quota_reset_hint(observation) {
        Some(reset_at) => reset_at,
        None => {
            return false;
        },
    };
    if reset_at <= now {
        return false;
    }
    let mut changed = false;
    if let Some(quota) = &mut account.quota {
        if let Some(current) = quota_reset_time_for_preservation(quota) {
            if current >= reset_at {
                return false;
            }
        }
        changed = redate(quota, reset_at, observation.source.as_str());
    }
    if changed {
        account.usage_updated_at = Some(observation.observed_at);
    }
    changed
}

/// Puts off the reset of an account's used-up quota to when an observation seen now says, and
/// says whether it did.
pub fn repair_exhausted_account_reset_from_direct_observation(
    account: &mut CodexAccount,
    observation: &DirectQuotaObservation,
) -> (changed: bool)
    ensures
        exists|now: i64|
            {
                let after = #[trigger] repaired(old(account)@, observation@, now);
                &&& changed == (after is Some)
                &&& final(account)@ == (if changed {
                    after->0
                } else {
                    old(account)@
                })
            },
{
    repair_exhausted_account_reset_from_direct_observation_at(account, observation, now_seconds())
}

/// The account records, of the same time or later, that its quota is used up until after the
/// observation was made.
pub open spec fn knows_already(account: AccountModel, observation: ObservationModel) -> bool {
    &&& keeps_exhaustion(account, observation.observed_at)
    &&& account.quota_error matches Some(error)
    &&& error.timestamp >= observation.observed_at
}

/// Whether the account records already, of the same time or later, that its quota is used up.
pub fn account_knows_already(account: &CodexAccount, observation: &DirectQuotaObservation) -> (known:
    bool)
    ensures
        known == knows_already(account@, observation@),
{
    if !should_keep_existing_quota_exhaustion(account, observation.observed_at) {
        return false;
    }
    match &account.quota_error {
        Some(error) => error.timestamp >= observation.observed_at,
        None => false,
    }
}

/// The account after a look at an observation at `now`, or nothing if it stays as it is: its
/// reset is put off if there is cause for that, else the observation is recorded if it is news.
pub open spec fn revised(account: AccountModel, observation: ObservationModel, now: i64) -> Option<
    AccountModel,
> {
    let put_off = repaired(account, observation, now);
    if put_off is Some {
        put_off
    } else if knows_already(account, observation) || !is_applicable(account, observation, now) {
        None
    } else {
        Some(observed(account, observation))
    }
}

/// Revises an account after an observation seen at `now`, and says whether that changed it.
pub fn revise_account_at(
    account: &mut CodexAccount,
    observation: &DirectQuotaObservation,
    now: i64,
) -> (changed: bool)
    ensures
        changed == (revised(old(account)@, observation@, now) is Some),
        final(account)@ == (if changed {
            revised(old(account)@, observation@, now)->0
        } else {
            old(account)@
        }),
{
    if repair_exhausted_account_reset_from_direct_observation_at(account, observation, now) {
        return true;
    }
    if account_knows_already(account, observation) {
        return false;
    }
    if !should_apply_direct_quota_observation_at(account, observation, now) {
        return false;
    }
    apply_direct_quota_observation(account, observation);
    true
}

/// The time from which on sessions are looked at for an account, in seconds; none unless the
/// account is the one that Codex is using itself.
pub open spec fn session_scope(
    mode: CodexRuntimeIntegrationMode,
    current_account_id: Option<Seq<char>>,
    updated_at: i64,
    account: AccountModel,
) -> Option<i64> {
    if mode == CodexRuntimeIntegrationMode::DirectProjection && current_account_id == Some(
        account.id,
    ) {
        Some(greater(account.last_used as int, updated_at as int / 1000) as i64)
    } else {
        None
    }
}

/// The seconds in a number of milliseconds, rounded down.
fn seconds_of_millis(millis: i64) -> (seconds: i64)
    ensures
        seconds == millis as int / 1000,
{
    if millis >= 0 {
        millis / 1000
    } else {
        (-((-(millis as i128) + 999) / 1000)) as i64
    }
}

/// The time from which on sessions are looked at for an account.
pub fn direct_session_scope(runtime_mode: &CodexRuntimeModeState, account: &CodexAccount) -> (since_seconds:
    Option<i64>)
    ensures
        since_seconds == session_scope(
            runtime_mode.mode,
            opt_text(runtime_mode.current_account_id),
            runtime_mode.updated_at,
            account@,
        ),
{
    if runtime_mode.mode != CodexRuntimeIntegrationMode::DirectProjection || !is_text(
        as_text(&runtime_mode.current_account_id),
        account.id.as_str(),
    ) {
        return None;
    }
    Some(max_i64(account.last_used, seconds_of_millis(runtime_mode.updated_at)))
}

/// The account after the best observation of its sessions, or nothing if it stays as it is: only
/// news of a used-up quota counts.
pub open spec fn revised_by_session(
    account: AccountModel,
    observation: Option<ObservationModel>,
    now: i64,
) -> Option<AccountModel> {
    match observation {
        Some(observation) => if observation.exhausted && !knows_already(account, observation)
            && is_applicable(account, observation, now) {
            Some(observed(account, observation))
        } else {
            None
        },
        None => None,
    }
}

/// Revises an account after the best observation of its sessions, seen at `now`, and says whether
/// that changed it.
pub fn apply_latest_direct_oauth_observation_at(
    account: &mut CodexAccount,
    observation: Option<&DirectQuotaObservation>,
    now: i64,
) -> (changed: bool)
    ensures
        changed == (revised_by_session(old(account)@, opt_observation_ref(observation), now) is Some),
        final(account)@ == (if changed {
            revised_by_session(old(account)@, opt_observation_ref(observation), now)->0
        } else {
            old(account)@
        }),
{
    let observation = match observation {
        Some(observation) => observation,
        None => {
            return false;
        },
    };
    if !observation.exhausted || account_knows_already(account, observation) {
        return false;
    }
    if !should_apply_direct_quota_observation_at(account, observation, now) {
        return false;
    }
    apply_direct_quota_observation(account, observation);
    true
}

} // verus!
