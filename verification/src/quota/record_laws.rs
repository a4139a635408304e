//! What holds of what is recorded on an account: which observations count, and what they leave.
use vstd::prelude::*;

use crate::json::{json_get, number_of, set_field_reads_back, Json};
use crate::models::codex::{
    slots_misplaced, with_normal_slots, AccountModel, CodexAuthMode, QuotaErrorModel, QuotaModel,
};
use crate::models::codex_local_access::CodexRuntimeIntegrationMode;
use crate::numbers::within_percent;
use crate::quota::apply::{
    error_is_exhaustion, has_exhaustion_snapshot, is_applicable, keeps_exhaustion, knows_already,
    observed, redated, repaired, revised, revised_by_session, session_scope,
};
use crate::quota::direct::ObservationModel;
use crate::quota::messages::says_exhausted;
use crate::quota::preference::{
    is_better, observation_reset, quota_remaining, quota_reset, remaining_in, tells_more,
};
use crate::quota::repair::{all_repaired, are_changed, repaired_by};
use crate::text::decimal_of;

verus! {

/// A weekly window that stands in the hourly slot, while the weekly one is empty, is moved there as it
/// is; any other quota stays as it is.
pub proof fn misplaced_window_is_moved(quota: QuotaModel)
    ensures
        slots_misplaced(quota) == (quota.hourly_window_present != Some(false)
            && quota.weekly_window_present == Some(false) && (quota.hourly_window_minutes matches Some(
            minutes,
        ) && minutes >= 6 * 24 * 60)),
        slots_misplaced(quota) ==> ({
            let normal = with_normal_slots(quota);
            &&& normal.weekly_percentage == quota.hourly_percentage
            &&& normal.weekly_reset_time == quota.hourly_reset_time
            &&& normal.weekly_window_minutes == quota.hourly_window_minutes
            &&& normal.weekly_window_present == Some(true)
            &&& normal.hourly_percentage == 100
            &&& normal.hourly_reset_time is None
            &&& normal.hourly_window_minutes is None
            &&& normal.hourly_window_present == Some(false)
            &&& normal.raw_data == quota.raw_data
        }),
        !slots_misplaced(quota) ==> with_normal_slots(quota) == quota,
{
}

/// What is left of a quota is what is left of its scarcest window, kept within 0 to 100; a window that
/// is marked absent does not count, and one that is not marked does; without windows nothing is known.
pub proof fn scarcest_window_decides(quota: QuotaModel)
    requires
        !slots_misplaced(quota),
    ensures
        quota.hourly_window_present == Some(false) && quota.weekly_window_present == Some(false)
            ==> quota_remaining(quota) is None,
        quota.hourly_window_present != Some(false) ==> quota_remaining(quota) is Some
            && quota_remaining(quota)->0 <= within_percent(quota.hourly_percentage),
        quota.weekly_window_present != Some(false) ==> quota_remaining(quota) is Some
            && quota_remaining(quota)->0 <= within_percent(quota.weekly_percentage),
        quota_remaining(quota) matches Some(left) ==> {
            ||| quota.hourly_window_present != Some(false) && left == within_percent(
                quota.hourly_percentage,
            )
            ||| quota.weekly_window_present != Some(false) && left == within_percent(
                quota.weekly_percentage,
            )
        },
{
}

/// What is left of a quota whose weekly window is misplaced is what is left of that window; where no
/// quota is known, nothing is known to be left.
pub proof fn misplaced_window_counts(quota: QuotaModel)
    ensures
        slots_misplaced(quota) ==> quota_remaining(quota) == Some(
            within_percent(quota.hourly_percentage),
        ),
        remaining_in(Some(quota)) == quota_remaining(quota),
        remaining_in(None) is None,
{
}

/// A quota resets when the last of its windows does.
pub proof fn quota_resets_with_its_last_window(quota: QuotaModel, now: i64)
    ensures
        quota.hourly_reset_time is None && quota.weekly_reset_time is None ==> quota_reset(
            quota,
        ) is None,
        quota.hourly_reset_time is None ==> quota_reset(quota) == quota.weekly_reset_time,
        quota.weekly_reset_time is None ==> quota_reset(quota) == quota.hourly_reset_time,
        quota.hourly_reset_time is Some && quota.weekly_reset_time is Some ==> quota_reset(
            quota,
        ) is Some && quota_reset(quota)->0 >= quota.hourly_reset_time->0 && quota_reset(quota)->0
            >= quota.weekly_reset_time->0 && (quota_reset(quota) == quota.hourly_reset_time
            || quota_reset(quota) == quota.weekly_reset_time),
{
}

/// An observation says that the quota resets when its quota does, or else when it says itself.
pub proof fn observation_resets_with_its_quota(observation: ObservationModel)
    ensures
        observation.quota is None ==> observation_reset(observation) == observation.reset_at,
        observation.quota matches Some(quota) ==> {
            &&& quota_reset(quota) is Some ==> observation_reset(observation) == quota_reset(quota)
            &&& quota_reset(quota) is None ==> observation_reset(observation) == observation.reset_at
        },
{
}

/// Of two observations one of a used-up quota tells more than one of a quota that is not; of two of
/// used-up quotas the later one does.
pub proof fn used_up_quotas_are_told_first(first: ObservationModel, second: ObservationModel)
    ensures
        first.exhausted && !second.exhausted ==> tells_more(first, second) && !tells_more(
            second,
            first,
        ),
        first.exhausted && second.exhausted ==> tells_more(first, second) == (first.observed_at
            > second.observed_at),
        is_better(first, None),
        is_better(first, Some(second)) == tells_more(first, second),
{
}

/// Of two observations of quotas that are not used up the one of less left tells more; one of a known
/// rest tells more than one of an unknown; and where as much is left, or nothing is known of both, the
/// later one does.
pub proof fn scarcer_quotas_are_told_first(first: ObservationModel, second: ObservationModel)
    requires
        !first.exhausted,
        !second.exhausted,
    ensures
        ({
            let left = remaining_in(first.quota);
            let right = remaining_in(second.quota);
            &&& left is Some && right is Some && left->0 < right->0 ==> tells_more(first, second)
            &&& left is Some && right is Some && left->0 > right->0 ==> !tells_more(first, second)
            &&& left is Some && right is None ==> tells_more(first, second)
            &&& left is None && right is Some ==> !tells_more(first, second)
            &&& left == right ==> tells_more(first, second) == (first.observed_at
                > second.observed_at)
        }),
{
}

/// An error is one of a used-up quota by its code or by its message.
pub proof fn error_tells_of_exhaustion(error: QuotaErrorModel)
    ensures
        says_exhausted(error.message) ==> error_is_exhaustion(error),
        error.code matches Some(code) && says_exhausted(code) ==> error_is_exhaustion(error),
        error_is_exhaustion(error) ==> says_exhausted(error.message) || (error.code matches Some(code)
            && says_exhausted(code)),
{
}

/// An account is known to have used up its quota while its last error says so, nothing is left in
/// either window, and one of them is yet to reset; and only then.
pub proof fn exhaustion_is_kept_until_the_reset(account: AccountModel, now: i64)
    ensures
        keeps_exhaustion(account, now) <==> {
            &&& account.quota_error matches Some(error) && error_is_exhaustion(error)
            &&& account.quota matches Some(quota) && quota.hourly_percentage <= 0
                && quota.weekly_percentage <= 0 && ({
                ||| quota.hourly_reset_time matches Some(reset_at) && reset_at > now
                ||| quota.weekly_reset_time matches Some(reset_at) && reset_at > now
            })
        },
        has_exhaustion_snapshot(account) <==> {
            &&& account.quota_error matches Some(error) && error_is_exhaustion(error)
            &&& remaining_in(account.quota) == Some(0i32)
        },
{
}

/// An account that took over an observation has the quota observed, as of when it was observed, and
/// nothing else of it changes but its quota error.
pub proof fn observation_is_taken_over(account: AccountModel, observation: ObservationModel)
    ensures
        ({
            let after = observed(account, observation);
            &&& observation.quota is Some ==> after.quota == observation.quota
            &&& observation.quota is None ==> {
                &&& after.quota matches Some(quota)
                &&& quota.hourly_percentage == 0
                &&& quota.weekly_percentage == 0
                &&& observation.reset_at is Some ==> quota.hourly_reset_time == observation.reset_at
                    && quota.weekly_reset_time == observation.reset_at
            }
            &&& after.usage_updated_at == Some(observation.observed_at)
            &&& after == AccountModel {
                quota: after.quota,
                quota_error: after.quota_error,
                usage_updated_at: after.usage_updated_at,
                ..account
            }
        }),
{
}

/// An observation of a used-up quota is recorded as the account's error, under the kind of limit that
/// it names, or the common one, with the reset that it tells.
pub proof fn observed_exhaustion_is_recorded(account: AccountModel, observation: ObservationModel)
    requires
        observation.exhausted,
    ensures
        observed(account, observation).quota_error matches Some(error) && ({
            let kind = match observation.error_type {
                Some(kind) => kind,
                None => "usage_limit_reached"@,
            };
            &&& error.code == Some(kind)
            &&& error.timestamp == observation.observed_at
            &&& error.message
                == "Codex Direct OAuth upstream quota exhausted: status=429, error_type="@ + kind
                + ", reset_at="@ + (match observation.reset_at {
                Some(reset_at) => decimal_of(reset_at as int),
                None => "-"@,
            })
        }),
{
}

/// An observation of a quota that is not used up clears an error of a used-up quota that is not newer
/// than it, and no other error.
pub proof fn newer_observation_clears_an_exhaustion(
    account: AccountModel,
    observation: ObservationModel,
)
    requires
        !observation.exhausted,
    ensures
        ({
            let after = observed(account, observation).quota_error;
            &&& account.quota_error is None ==> after is None
            &&& account.quota_error matches Some(error) ==> (if error_is_exhaustion(error)
                && error.timestamp <= observation.observed_at {
                after is None
            } else {
                after == Some(error)
            })
        }),
{
}

/// An observation of a used-up quota is worth recording until it has reset, and always if it tells no
/// reset.
pub proof fn exhaustion_counts_until_its_reset(
    account: AccountModel,
    observation: ObservationModel,
    now: i64,
)
    requires
        observation.exhausted,
    ensures
        observation.reset_at is None ==> is_applicable(account, observation, now),
        observation.reset_at matches Some(reset_at) ==> is_applicable(account, observation, now) == (
        reset_at > now),
{
}

/// An observation of a quota that is not used up is worth recording if less is left than is known, or
/// if nothing is known.
pub proof fn scarcer_quota_counts(
    account: AccountModel,
    observation: ObservationModel,
    quota: QuotaModel,
    now: i64,
)
    requires
        !observation.exhausted,
        observation.quota == Some(quota),
    ensures
        quota_remaining(quota) is None ==> !is_applicable(account, observation, now),
        quota_remaining(quota) is Some && remaining_in(account.quota) is None ==> is_applicable(
            account,
            observation,
            now,
        ),
        quota_remaining(quota) is Some && remaining_in(account.quota) is Some ==> is_applicable(
            account,
            observation,
            now,
        ) == (quota_remaining(quota)->0 < remaining_in(account.quota)->0),
{
}

/// The window is there and nothing is left of it.
pub open spec fn is_used_up(percentage: i32, present: Option<bool>) -> bool {
    percentage <= 0 && present == Some(true)
}

/// The reset of a used-up quota is put off to when an observation of a quota that is not used up says,
/// if that is yet to come and later than is known; and in no other case.
pub proof fn reset_is_put_off_for_a_reason(
    account: AccountModel,
    observation: ObservationModel,
    now: i64,
)
    ensures
        repaired(account, observation, now) is Some <==> {
            &&& !observation.exhausted
            &&& has_exhaustion_snapshot(account)
            &&& observation_reset(observation) matches Some(reset_at) && reset_at > now
            &&& account.quota matches Some(quota) && (quota_reset(quota) is None
                || quota_reset(quota)->0 < observation_reset(observation)->0) && (
            quota.weekly_percentage <= 0 || is_used_up(
                quota.hourly_percentage,
                quota.hourly_window_present,
            ))
        },
{
}

/// A reset that is put off is that of the windows that are used up, or of the weekly one, which then is
/// there, where none is marked so; the other window keeps its own, and nothing is added to what is left.
pub proof fn used_up_windows_are_redated(
    account: AccountModel,
    observation: ObservationModel,
    now: i64,
)
    requires
        repaired(account, observation, now) is Some,
    ensures
        ({
            let before = account.quota->0;
            let after = repaired(account, observation, now)->0;
            let quota = after.quota->0;
            let hourly = is_used_up(before.hourly_percentage, before.hourly_window_present);
            let weekly = is_used_up(before.weekly_percentage, before.weekly_window_present);
            &&& after.quota is Some
            &&& hourly ==> quota.hourly_reset_time == observation_reset(observation)
            &&& !hourly ==> quota.hourly_reset_time == before.hourly_reset_time
            &&& weekly || !hourly ==> quota.weekly_reset_time == observation_reset(observation)
                && quota.weekly_window_present == Some(true)
            &&& hourly && !weekly ==> quota.weekly_reset_time == before.weekly_reset_time
                && quota.weekly_window_present == before.weekly_window_present
            &&& quota.hourly_percentage == before.hourly_percentage
            &&& quota.weekly_percentage == before.weekly_percentage
            &&& quota.hourly_window_minutes == before.hourly_window_minutes
            &&& quota.weekly_window_minutes == before.weekly_window_minutes
            &&& quota.hourly_window_present == before.hourly_window_present
            &&& after.usage_updated_at == Some(observation.observed_at)
            &&& after == AccountModel {
                quota: after.quota,
                usage_updated_at: after.usage_updated_at,
                ..account
            }
        }),
{
}

/// What is recorded of a quota's origin tells the reset that was put off and who told it.
pub proof fn redated_quota_records_the_reset(quota: QuotaModel, reset_at: i64, source: Seq<char>)
    requires
        redated(quota, reset_at, source) is Some,
    ensures
        quota.raw_data is None ==> redated(quota, reset_at, source)->0.raw_data is None,
        quota.raw_data matches Some(Json::Object(_)) ==> {
            &&& redated(quota, reset_at, source)->0.raw_data matches Some(raw)
            &&& json_get(raw, "reset_at"@) == Some(Json::Number(number_of(reset_at)))
            &&& json_get(raw, "reset_source"@) == Some(Json::Text(source))
        },
{
    if let Some(Json::Object(fields)) = quota.raw_data {
        let number = Json::Number(number_of(reset_at));
        let first = crate::json::json_with(Json::Object(fields), "reset_at"@, number);
        reveal_strlit("reset_at");
        reveal_strlit("reset_source");
        assert("reset_at"@.len() != "reset_source"@.len());
        set_field_reads_back(fields, "reset_at"@, number, "reset_at"@);
        set_field_reads_back(
            first->Object_0,
            "reset_source"@,
            Json::Text(source),
            "reset_at"@,
        );
    }
}

/// An account knows of a used-up quota already if it was recorded no earlier than it was observed, and
/// is not to reset before.
pub proof fn known_exhaustion_is_not_news(account: AccountModel, observation: ObservationModel)
    ensures
        knows_already(account, observation) <==> {
            &&& keeps_exhaustion(account, observation.observed_at)
            &&& account.quota_error matches Some(error) && error.timestamp >= observation.observed_at
        },
{
}

/// A look at an observation puts off the reset of the account's quota if there is a reason to; or else
/// takes the observation over if it is news and worth recording; or else changes nothing.
pub proof fn observation_is_looked_at(
    account: AccountModel,
    observation: ObservationModel,
    now: i64,
)
    ensures
        repaired(account, observation, now) is Some ==> revised(account, observation, now)
            == repaired(account, observation, now),
        repaired(account, observation, now) is None && !knows_already(account, observation)
            && is_applicable(account, observation, now) ==> revised(account, observation, now)
            == Some(observed(account, observation)),
        repaired(account, observation, now) is None && knows_already(account, observation)
            ==> revised(account, observation, now) is None,
        repaired(account, observation, now) is None && !is_applicable(account, observation, now)
            ==> revised(account, observation, now) is None,
{
}

/// What the sessions say counts only if it is news of a used-up quota that is worth recording, and then
/// is taken over.
pub proof fn only_exhaustion_counts_in_sessions(
    account: AccountModel,
    observation: ObservationModel,
    now: i64,
)
    ensures
        revised_by_session(account, None, now) is None,
        !observation.exhausted ==> revised_by_session(account, Some(observation), now) is None,
        knows_already(account, observation) ==> revised_by_session(
            account,
            Some(observation),
            now,
        ) is None,
        observation.reset_at matches Some(reset_at) && reset_at <= now ==> revised_by_session(
            account,
            Some(observation),
            now,
        ) is None,
        observation.exhausted && !knows_already(account, observation) && !(
        observation.reset_at matches Some(reset_at) && reset_at <= now) ==> revised_by_session(
            account,
            Some(observation),
            now,
        ) == Some(observed(account, observation)),
{
}

/// The sessions are looked at only for the account that Codex is using by its own files, and from when
/// it was last used or put to use, whichever is later.
pub proof fn sessions_are_those_of_the_account_in_use(
    mode: CodexRuntimeIntegrationMode,
    current_account_id: Option<Seq<char>>,
    updated_at: i64,
    account: AccountModel,
)
    ensures
        ({
            let since = session_scope(mode, current_account_id, updated_at, account);
            &&& mode == CodexRuntimeIntegrationMode::CockpitApiService ==> since is None
            &&& current_account_id != Some(account.id) ==> since is None
            &&& mode == CodexRuntimeIntegrationMode::DirectProjection && current_account_id == Some(
                account.id,
            ) ==> {
                &&& since is Some
                &&& since->0 >= account.last_used
                &&& 1000 * (since->0 + 1) > updated_at
                &&& since->0 == account.last_used || 1000 * since->0 <= updated_at
            }
        }),
{
}

/// A repair revises each account by what the log says of that account, but for those that sign in with
/// an API key; an account that the log does not speak of stays as it is.
pub proof fn accounts_are_repaired_one_by_one(
    accounts: Seq<AccountModel>,
    observations: Map<Seq<char>, ObservationModel>,
    now: i64,
    at: int,
)
    requires
        0 <= at < accounts.len(),
    ensures
        ({
            let before = accounts[at];
            let after = all_repaired(accounts, observations, now)[at];
            &&& all_repaired(accounts, observations, now).len() == accounts.len()
            &&& before.auth_mode == CodexAuthMode::ApiKey ==> after == before && repaired_by(
                before,
                observations,
                now,
            ) is None
            &&& !observations.contains_key(before.id) ==> after == before && repaired_by(
                before,
                observations,
                now,
            ) is None
            &&& before.auth_mode == CodexAuthMode::OAuth && observations.contains_key(before.id) ==> {
                &&& repaired_by(before, observations, now) == revised(
                    before,
                    observations[before.id],
                    now,
                )
                &&& revised(before, observations[before.id], now) matches Some(revised)
                    ==> after == revised
                &&& revised(before, observations[before.id], now) is None ==> after == before
            }
        }),
{
}

/// The places that a repair names are those of the accounts that it changes, each once and in their
/// order.
pub proof fn changed_accounts_are_named(
    places: Seq<usize>,
    accounts: Seq<AccountModel>,
    observations: Map<Seq<char>, ObservationModel>,
    now: i64,
    place: usize,
)
    requires
        accounts.len() <= usize::MAX,
        are_changed(places, accounts, observations, now, accounts.len() as int),
    ensures
        place < accounts.len() ==> places.contains(place) == (repaired_by(
            accounts[place as int],
            observations,
            now,
        ) is Some),
        place >= accounts.len() ==> !places.contains(place),
        places.no_duplicates(),
{
}

} // verus!
