//! What holds of quotas, observations and accounts as a whole.
use vstd::prelude::*;

use crate::json::{
    in_key_order, json_get, json_get_in, json_text_in, lemma_in_key_order, Json,
};
use crate::models::codex::{slots_misplaced, AccountModel, QuotaModel};
use crate::quota::apply::{
    exhaustion_message, has_exhaustion_snapshot, is_applicable, keeps_exhaustion, observed,
    observed_error_type, repaired, revised,
};
use crate::quota::direct::{
    direct_remaining, direct_slots_with, lemma_number_remaining, number_in, rate_limit_slots,
    rate_limits_are_exhausted, rate_limits_observation, rate_limits_raw_data, ObservationModel,
};
use crate::quota::events::{session_event_observation, websocket_observation};
use crate::quota::identity::{identity_index, log_owner};
use crate::quota::logs::{
    attributed, entry_observation, is_short_backoff, last_owner, lasting_reset, latest_reset,
    log_observations, observations_for, settled, with_events, EntryModel, RowModel,
};
use crate::quota::messages::says_exhausted;
use crate::quota::preference::{
    best_is_unbeaten, best_of, observation_reset, quota_reset, remaining_in, tells_more,
};
use crate::quota::provider::provider_raw_data;
use crate::quota::repair::all_repaired;
use crate::quota::sessions::{not_before, texts_seen};
use crate::quota::snapshot::{exhausted_raw_data, with_fetch_error};
use crate::quota::usage::{
    empty_slot, is_weekly, quota_of_usage, usage_is_exhausted, usage_slots, QuotaSlot, UsageModel,
};
use crate::text::{has_text, lemma_precedes_at, lower_char, lower_of, occurs_at};

verus! {

/// A quota as the endpoint and the logs describe it: percentages from 0 to 100, all of a window
/// that is absent, nothing of one that is present if the quota is used up, and each window in the
/// slot of its length.
pub open spec fn is_orderly(quota: QuotaModel, exhausted: bool) -> bool {
    &&& 0 <= quota.hourly_percentage <= 100
    &&& 0 <= quota.weekly_percentage <= 100
    &&& quota.hourly_window_present == Some(false) ==> quota.hourly_percentage == 100
    &&& quota.weekly_window_present == Some(false) ==> quota.weekly_percentage == 100
    &&& exhausted && quota.hourly_window_present == Some(true) ==> quota.hourly_percentage == 0
    &&& exhausted && quota.weekly_window_present == Some(true) ==> quota.weekly_percentage == 0
    &&& !is_weekly(quota.hourly_window_minutes)
    &&& quota.weekly_window_present == Some(true) ==> is_weekly(quota.weekly_window_minutes)
}

/// The same of the slots that the quota is made of.
spec fn are_orderly(slots: (QuotaSlot, QuotaSlot), exhausted: bool) -> bool {
    &&& 0 <= slots.0.remaining <= 100
    &&& 0 <= slots.1.remaining <= 100
    &&& !slots.0.present ==> slots.0.remaining == 100
    &&& !slots.1.present ==> slots.1.remaining == 100
    &&& exhausted && slots.0.present ==> slots.0.remaining == 0
    &&& exhausted && slots.1.present ==> slots.1.remaining == 0
    &&& !is_weekly(slots.0.window_minutes)
    &&& slots.1.present ==> is_weekly(slots.1.window_minutes)
}

/// A quota that the usage endpoint describes is orderly, and its slots need no sorting.
pub proof fn usage_quota_is_orderly(usage: UsageModel, raw_body: Seq<char>, now: i64)
    ensures
        is_orderly(quota_of_usage(usage, raw_body, now), usage_is_exhausted(usage)),
        !slots_misplaced(quota_of_usage(usage, raw_body, now)),
{
    assert(are_orderly(usage_slots(usage, now), usage_is_exhausted(usage)));
}

/// What is left of a window is a percentage.
proof fn lemma_direct_remaining(window: Json, exhausted: bool)
    ensures
        direct_remaining(window, exhausted) matches Some(remaining) ==> 0 <= remaining <= 100 && (
        exhausted ==> remaining == 0),
{
    if !exhausted {
        if let Some(used) = number_in(window, "used_percent"@) {
            lemma_number_remaining(used);
        }
    }
}

/// The slots stay orderly when a window is sorted in.
proof fn lemma_direct_slots(
    slots: (QuotaSlot, QuotaSlot),
    window: Option<Json>,
    exhausted: bool,
    observed_at: i64,
)
    requires
        are_orderly(slots, exhausted),
    ensures
        are_orderly(direct_slots_with(slots, window, exhausted, observed_at), exhausted),
{
    if let Some(window) = window {
        lemma_direct_remaining(window, exhausted);
    }
}

/// A quota that rate limits describe is orderly, and its slots need no sorting.
pub proof fn observed_quota_is_orderly(rate_limits: Json, observed_at: i64)
    requires
        rate_limits_observation(rate_limits, observed_at) is Some,
    ensures
        ({
            let observation = rate_limits_observation(rate_limits, observed_at)->0;
            &&& observation.quota matches Some(quota)
            &&& is_orderly(quota, observation.exhausted)
            &&& !slots_misplaced(quota)
        }),
{
    let exhausted = rate_limits_are_exhausted(rate_limits);
    let none = (empty_slot(), empty_slot());
    let primary = json_get(rate_limits, "primary"@);
    let secondary = json_get(rate_limits, "secondary"@);
    lemma_direct_slots(none, primary, exhausted, observed_at);
    lemma_direct_slots(
        direct_slots_with(none, primary, exhausted, observed_at),
        secondary,
        exhausted,
        observed_at,
    );
    assert(are_orderly(rate_limit_slots(rate_limits, observed_at), exhausted));
}

/// The message of a used-up quota says that it is one.
proof fn lemma_exhaustion_message(error_type: Seq<char>, reset_at: Option<i64>)
    ensures
        says_exhausted(exhaustion_message(error_type, reset_at)),
{
    let message = exhaustion_message(error_type, reset_at);
    let lower = lower_of(message);
    let head = "Codex Direct OAuth upstream quota exhausted: status=429, error_type="@;
    reveal_strlit("Codex Direct OAuth upstream quota exhausted: status=429, error_type=");
    reveal_strlit("quota");
    reveal_strlit("exhaust");
    assert forall|i: int| 0 <= i < head.len() implies #[trigger] lower[i] == lower_char(head[i]) by {
        assert(message[i] == head[i]);
    }
    assert(lower.subrange(28, 33) =~= "quota"@);
    assert(occurs_at(lower, "quota"@, 28));
    assert(lower.subrange(34, 41) =~= "exhaust"@);
    assert(occurs_at(lower, "exhaust"@, 34));
}

/// A used-up quota that an error told of is kept until it resets: while that is to come, the account
/// counts as used up.
pub proof fn recorded_exhaustion_is_kept(
    account: AccountModel,
    observation: ObservationModel,
    now: i64,
)
    requires
        observation.exhausted,
        observation.quota is None,
        observation.reset_at matches Some(reset_at) && reset_at > now,
    ensures
        keeps_exhaustion(observed(account, observation), now),
{
    lemma_exhaustion_message(observed_error_type(observation), observation.reset_at);
}

/// The same news is recorded once: an account that was revised by an error of a used-up quota that
/// had not reset when it was seen is not revised by it again.
pub proof fn same_error_is_recorded_once(
    account: AccountModel,
    observation: ObservationModel,
    now: i64,
)
    requires
        observation.exhausted,
        observation.quota is None,
        observation.reset_at matches Some(reset_at) && reset_at > observation.observed_at,
    ensures
        revised(observed(account, observation), observation, now) is None,
{
    recorded_exhaustion_is_kept(account, observation, observation.observed_at);
}

/// An observed quota that is not used up is recorded once: an account that took it over does not
/// take it over again, and is not revised by it at all if one of its windows says when it resets.
pub proof fn same_quota_is_recorded_once(
    account: AccountModel,
    observation: ObservationModel,
    now: i64,
)
    requires
        !observation.exhausted,
        observation.quota is Some,
    ensures
        !is_applicable(observed(account, observation), observation, now),
        quota_reset(observation.quota->0) is Some ==> revised(
            observed(account, observation),
            observation,
            now,
        ) is None,
{
}

/// An observed quota that is not used up is taken over only if less is left than was known.
pub proof fn observed_quota_only_lowers(
    account: AccountModel,
    observation: ObservationModel,
    now: i64,
)
    requires
        !observation.exhausted,
        observation.quota is Some,
        remaining_in(account.quota) is Some,
        is_applicable(account, observation, now),
    ensures
        remaining_in(observed(account, observation).quota) matches Some(left) && left
            < remaining_in(account.quota)->0,
{
}

/// An exhausted observation whose reset has passed is not recorded.
pub proof fn outdated_exhaustion_is_ignored(
    account: AccountModel,
    observation: ObservationModel,
    now: i64,
)
    requires
        observation.exhausted,
        observation.reset_at matches Some(reset_at) && reset_at <= now,
    ensures
        revised(account, observation, now) is None,
{
}

/// A repair only puts off the reset of a quota that is used up: percentages and the error stay, the
/// quota resets when the observation says, later than before and still to come; and it is not
/// repaired by the same observation again.
pub proof fn repair_only_puts_off_the_reset(
    account: AccountModel,
    observation: ObservationModel,
    now: i64,
)
    requires
        repaired(account, observation, now) is Some,
    ensures
        ({
            let after = repaired(account, observation, now)->0;
            let before = account.quota->0;
            &&& has_exhaustion_snapshot(account)
            &&& after.quota_error == account.quota_error
            &&& after.id == account.id
            &&& after.tokens == account.tokens
            &&& after.quota matches Some(quota)
            &&& quota.hourly_percentage == before.hourly_percentage
            &&& quota.weekly_percentage == before.weekly_percentage
            &&& quota_reset(quota) == observation_reset(observation)
            &&& observation_reset(observation) matches Some(reset_at)
            &&& reset_at > now
            &&& quota_reset(before) matches Some(current) ==> current < reset_at
            &&& repaired(after, observation, now) is None
        }),
{
}

/// A look at the same observation of a used-up quota, again and not before the first, leaves the
/// account as it is.
proof fn lemma_revised_once(
    account: AccountModel,
    observation: ObservationModel,
    now: i64,
    later: i64,
)
    requires
        observation.exhausted,
        now <= later,
    ensures
        revised(account, observation, now) is None ==> revised(account, observation, later) is None,
        revised(account, observation, now) matches Some(after) ==> {
            &&& after.id == account.id
            &&& after.auth_mode == account.auth_mode
            &&& revised(after, observation, later) matches Some(again) ==> again == after
        },
{
}

/// A second repair by the same log changes no account more, where all that the log says is that
/// quotas are used up, and the second repair is not before the first.
pub proof fn exhaustion_is_repaired_once(
    accounts: Seq<AccountModel>,
    observations: Map<Seq<char>, ObservationModel>,
    now: i64,
    later: i64,
)
    requires
        now <= later,
        forall|id: Seq<char>| #[trigger]
            observations.contains_key(id) ==> observations[id].exhausted,
    ensures
        all_repaired(all_repaired(accounts, observations, now), observations, later) == all_repaired(
            accounts,
            observations,
            now,
        ),
{
    let once = all_repaired(accounts, observations, now);
    let twice = all_repaired(once, observations, later);
    assert forall|at: int| 0 <= at < accounts.len() implies #[trigger] twice[at] == once[at] by {
        let account = accounts[at];
        if observations.contains_key(account.id) {
            lemma_revised_once(account, observations[account.id], now, later);
        }
    }
    assert(twice =~= once);
}

/// The latest of the resets that observations name is none of theirs less.
proof fn lemma_latest(observations: Seq<ObservationModel>, at: int)
    requires
        0 <= at < observations.len(),
        lasting_reset(observations[at]) is Some,
    ensures
        latest_reset(observations) matches Some(latest) && latest >= lasting_reset(
            observations[at],
        )->0,
    decreases observations.len(),
{
    if at < observations.len() - 1 {
        assert(observations.drop_last()[at] == observations[at]);
        lemma_latest(observations.drop_last(), at);
    }
}

/// A short pause before the next try does not stand for the reset of a quota window: where the
/// observation that stands in the end is an error that names only such a pause, it resets no earlier
/// than any observation of that account said its quota would.
pub proof fn short_backoff_does_not_hide_the_window(
    accounts: Seq<AccountModel>,
    entries: Seq<EntryModel>,
    owner: Seq<char>,
    at: int,
)
    requires
        ({
            let observations = observations_for(accounts, entries, entries.len() as int, owner);
            &&& 0 <= at < observations.len()
            &&& lasting_reset(observations[at]) is Some
            &&& best_of(observations)->0.exhausted
            &&& is_short_backoff(best_of(observations)->0)
        }),
    ensures
        ({
            let observations = observations_for(accounts, entries, entries.len() as int, owner);
            &&& log_observations(accounts, entries).contains_key(owner)
            &&& log_observations(accounts, entries)[owner].reset_at matches Some(reset_at)
            &&& reset_at >= lasting_reset(observations[at])->0
        }),
{
    lemma_latest(observations_for(accounts, entries, entries.len() as int, owner), at);
}

/// What stands for an account in the end is, but for its reset, one of the observations of that
/// account, and none of them is better.
pub proof fn log_observation_is_unbeaten(
    accounts: Seq<AccountModel>,
    entries: Seq<EntryModel>,
    owner: Seq<char>,
)
    requires
        log_observations(accounts, entries).contains_key(owner),
    ensures
        ({
            let observations = observations_for(accounts, entries, entries.len() as int, owner);
            let stands = log_observations(accounts, entries)[owner];
            &&& best_of(observations) matches Some(best)
            &&& observations.contains(best)
            &&& forall|i: int|
                0 <= i < observations.len() ==> !tells_more(
                    #[trigger] observations[i],
                    best,
                )
            &&& stands.observed_at == best.observed_at
            &&& stands.source == best.source
            &&& stands.error_type == best.error_type
            &&& stands.exhausted == best.exhausted
            &&& stands == settled(best, latest_reset(observations))
        }),
{
    best_is_unbeaten(observations_for(accounts, entries, entries.len() as int, owner));
}

/// The observations that are not too old, one by one.
proof fn lemma_not_before(observations: Seq<ObservationModel>, since_seconds: i64)
    ensures
        forall|i: int|
            0 <= i < observations.len() && (#[trigger] observations[i]).observed_at >= since_seconds
                ==> not_before(observations, since_seconds).contains(observations[i]),
        forall|i: int|
            0 <= i < not_before(observations, since_seconds).len() ==> (#[trigger] not_before(
                observations,
                since_seconds,
            )[i]).observed_at >= since_seconds && observations.contains(
                not_before(observations, since_seconds)[i],
            ),
    decreases observations.len(),
{
    if observations.len() > 0 {
        let rest = observations.drop_last();
        let last = observations.last();
        let earlier = not_before(rest, since_seconds);
        let kept = not_before(observations, since_seconds);
        lemma_not_before(rest, since_seconds);
        assert forall|i: int|
            0 <= i < observations.len() && (#[trigger] observations[i]).observed_at
                >= since_seconds implies kept.contains(observations[i]) by {
            if i < rest.len() {
                assert(rest[i] == observations[i]);
                assert(earlier.contains(rest[i]));
                let at = choose|at: int| 0 <= at < earlier.len() && earlier[at] == rest[i];
                assert(kept[at] == rest[i]);
            } else {
                assert(kept[kept.len() - 1] == last);
            }
        }
        assert forall|i: int| 0 <= i < kept.len() implies (#[trigger] kept[i]).observed_at
            >= since_seconds && observations.contains(kept[i]) by {
            if i < earlier.len() {
                assert(kept[i] == earlier[i]);
                assert(rest.contains(earlier[i]));
                let at = choose|at: int| 0 <= at < rest.len() && rest[at] == earlier[i];
                assert(observations[at] == kept[i]);
            } else {
                assert(observations[observations.len() - 1] == kept[i]);
            }
        }
    }
}

/// What the sessions are found to say since a time is one of the observations in them since then,
/// and none of those is better; where there is none, nothing is found.
pub proof fn session_observation_is_unbeaten(texts: Seq<Seq<char>>, since_seconds: i64)
    ensures
        ({
            let seen = texts_seen(texts);
            match best_of(not_before(seen, since_seconds)) {
                Some(best) => {
                    &&& seen.contains(best)
                    &&& best.observed_at >= since_seconds
                    &&& forall|i: int|
                        0 <= i < seen.len() && (#[trigger] seen[i]).observed_at >= since_seconds
                            ==> !tells_more(seen[i], best)
                },
                None => forall|i: int|
                    0 <= i < seen.len() ==> (#[trigger] seen[i]).observed_at < since_seconds,
            }
        }),
{
    let seen = texts_seen(texts);
    let kept = not_before(seen, since_seconds);
    lemma_not_before(seen, since_seconds);
    if kept.len() > 0 {
        best_is_unbeaten(kept);
        let best = best_of(kept)->0;
        let place = choose|i: int| 0 <= i < kept.len() && kept[i] == best;
        assert(kept[place].observed_at >= since_seconds);
        assert forall|i: int|
            0 <= i < seen.len() && (#[trigger] seen[i]).observed_at
                >= since_seconds implies !tells_more(seen[i], best) by {
            assert(kept.contains(seen[i]));
            let at = choose|at: int| 0 <= at < kept.len() && kept[at] == seen[i];
            assert(!tells_more(kept[at], best));
        }
    } else {
        assert forall|i: int| 0 <= i < seen.len() implies (#[trigger] seen[i]).observed_at
            < since_seconds by {
            if seen[i].observed_at >= since_seconds {
                assert(kept.contains(seen[i]));
            }
        }
    }
}

/// A log row without a websocket event says nothing of a quota, whatever else stands in it.
pub proof fn row_without_event_says_nothing(
    accounts: Seq<AccountModel>,
    owner: Seq<char>,
    rows: Seq<RowModel>,
    at: int,
)
    requires
        0 <= at < rows.len(),
        !has_text(rows[at].body, "websocket event:"@),
    ensures
        entry_observation(accounts, owner, with_events(rows)[at]) is None,
{
}

/// A session event that is no message, or a message that is neither a token count nor an error,
/// says nothing of a quota, whatever else stands in it.
pub proof fn other_session_events_say_nothing(event: Json, observed_at: i64)
    requires
        ({
            let kind = json_text_in(json_get_in(json_get(event, "payload"@), "type"@));
            ||| json_text_in(json_get(event, "type"@)) != Some("event_msg"@)
            ||| kind != Some("token_count"@) && kind != Some("error"@)
        }),
    ensures
        session_event_observation(event, observed_at) is None,
{
}

/// An entry that names no account and says nothing of a quota.
pub open spec fn is_noise(accounts: Seq<AccountModel>, entry: EntryModel) -> bool {
    &&& log_owner(entry.row.body, identity_index(accounts)) is None
    &&& match entry.event {
        Some(event) => websocket_observation(event, entry.row.ts) is None,
        None => true,
    }
}

/// Without an entry of noise, the same account is named last.
proof fn lemma_owner_without_noise(
    accounts: Seq<AccountModel>,
    entries: Seq<EntryModel>,
    at: int,
    count: int,
    thread: Seq<char>,
)
    requires
        0 <= at < entries.len(),
        is_noise(accounts, entries[at]),
        0 <= count <= entries.len(),
    ensures
        last_owner(entries.take(count), identity_index(accounts), thread) == last_owner(
            entries.remove(at).take(
                if count <= at {
                    count
                } else {
                    count - 1
                },
            ),
            identity_index(accounts),
            thread,
        ),
    decreases count,
{
    let fewer = entries.remove(at);
    if count <= at {
        assert(fewer.take(count) =~= entries.take(count));
    } else {
        lemma_owner_without_noise(accounts, entries, at, count - 1, thread);
        assert(entries.take(count).drop_last() =~= entries.take(count - 1));
        assert(entries.take(count).last() == entries[count - 1]);
        if count - 1 > at {
            assert(fewer.take(count - 1).drop_last() =~= fewer.take(count - 2));
            assert(fewer.take(count - 1).last() == entries[count - 1]);
        }
    }
}

/// Without an entry of noise, the same observations are made.
proof fn lemma_observations_without_noise(
    accounts: Seq<AccountModel>,
    entries: Seq<EntryModel>,
    at: int,
    count: int,
    owner: Seq<char>,
)
    requires
        0 <= at < entries.len(),
        is_noise(accounts, entries[at]),
        0 <= count <= entries.len(),
    ensures
        observations_for(accounts, entries, count, owner) == observations_for(
            accounts,
            entries.remove(at),
            if count <= at {
                count
            } else {
                count - 1
            },
            owner,
        ),
    decreases count,
{
    let fewer = entries.remove(at);
    if count > 0 {
        let place = count - 1;
        lemma_observations_without_noise(accounts, entries, at, place, owner);
        if place != at {
            let other = if place < at {
                place
            } else {
                place - 1
            };
            assert(fewer[other] == entries[place]);
            if let Some(thread) = entries[place].row.thread_id {
                lemma_owner_without_noise(accounts, entries, at, place + 1, thread);
                lemma_owner_without_noise(accounts, entries, at, entries.len() as int, thread);
                assert(entries.take(entries.len() as int) =~= entries);
                assert(fewer.take(fewer.len() as int) =~= fewer);
            }
            assert(attributed(accounts, entries, place, owner) == attributed(
                accounts,
                fewer,
                other,
                owner,
            ));
        }
    }
}

/// Noise does not matter: an entry that names no account and says nothing of a quota can be left out
/// of the log, wherever it stands.
pub proof fn noise_does_not_matter(accounts: Seq<AccountModel>, entries: Seq<EntryModel>, at: int)
    requires
        0 <= at < entries.len(),
        is_noise(accounts, entries[at]),
    ensures
        log_observations(accounts, entries) == log_observations(accounts, entries.remove(at)),
{
    let fewer = entries.remove(at);
    assert forall|owner: Seq<char>| #[trigger]
        observations_for(accounts, entries, entries.len() as int, owner) == observations_for(
            accounts,
            fewer,
            fewer.len() as int,
            owner,
        ) by {
        lemma_observations_without_noise(accounts, entries, at, entries.len() as int, owner);
    }
    assert(log_observations(accounts, entries) =~= log_observations(accounts, fewer));
}

/// A failed lookup leaves what is known of the quota as it is, unless the failure is that the quota
/// is used up.
pub proof fn other_failures_leave_the_quota(account: AccountModel, message: Seq<char>, now: i64)
    requires
        !says_exhausted(message),
    ensures
        with_fetch_error(account, message, now).quota == account.quota,
        with_fetch_error(account, message, now).usage_updated_at == account.usage_updated_at,
        with_fetch_error(account, message, now).quota_error matches Some(error) && error.message
            == message,
{
}

/// A lookup that failed because the quota is used up leaves nothing of it.
pub proof fn exhausted_failures_zero_the_quota(account: AccountModel, message: Seq<char>, now: i64)
    requires
        says_exhausted(message),
    ensures
        with_fetch_error(account, message, now).quota matches Some(quota)
            && quota.hourly_percentage == 0 && quota.weekly_percentage == 0,
        with_fetch_error(account, message, now).usage_updated_at == Some(now),
        with_fetch_error(account, message, now).quota_error matches Some(error) && error.message
            == message,
{
}

/// What a snapshot of a used-up quota records of its origin stands in the order of the keys.
pub proof fn exhausted_origin_is_in_key_order(
    source: Seq<char>,
    reset_at: Option<i64>,
    reset_after_seconds: Option<i64>,
    now: i64,
)
    ensures
        exhausted_raw_data(source, reset_at, reset_after_seconds, now) matches Json::Object(fields)
            && in_key_order(fields),
{
    reveal_strlit("exhausted_at");
    reveal_strlit("quota_exhausted");
    reveal_strlit("reset_after_seconds");
    reveal_strlit("reset_at");
    reveal_strlit("source");
    lemma_precedes_at("exhausted_at"@, "quota_exhausted"@, 0);
    lemma_precedes_at("quota_exhausted"@, "reset_after_seconds"@, 0);
    lemma_precedes_at("reset_after_seconds"@, "reset_at"@, 7);
    lemma_precedes_at("reset_at"@, "source"@, 0);
    lemma_in_key_order(
        exhausted_raw_data(source, reset_at, reset_after_seconds, now)->Object_0,
    );
}

/// What a quota read from rate limits records of its origin stands in the order of the keys.
pub proof fn observed_origin_is_in_key_order(rate_limits: Json, observed_at: i64)
    ensures
        rate_limits_raw_data(rate_limits, observed_at) matches Json::Object(fields) && in_key_order(
            fields,
        ),
{
    reveal_strlit("observed_at");
    reveal_strlit("plan_type");
    reveal_strlit("quota_exhausted");
    reveal_strlit("rate_limit_reached_type");
    reveal_strlit("source");
    lemma_precedes_at("observed_at"@, "plan_type"@, 0);
    lemma_precedes_at("plan_type"@, "quota_exhausted"@, 0);
    lemma_precedes_at("quota_exhausted"@, "rate_limit_reached_type"@, 0);
    lemma_precedes_at("rate_limit_reached_type"@, "source"@, 0);
    lemma_in_key_order(rate_limits_raw_data(rate_limits, observed_at)->Object_0);
}

/// What a quota of the Cockpit API records of its origin stands in the order of the keys.
pub proof fn provider_origin_is_in_key_order(data: Json, usage: Json)
    ensures
        provider_raw_data(data, usage) matches Json::Object(fields) && in_key_order(fields),
{
    reveal_strlit("object");
    reveal_strlit("profile");
    reveal_strlit("provider");
    reveal_strlit("total_available");
    reveal_strlit("total_granted");
    reveal_strlit("total_used");
    reveal_strlit("unlimited_quota");
    reveal_strlit("usage");
    lemma_precedes_at("object"@, "profile"@, 0);
    lemma_precedes_at("profile"@, "provider"@, 3);
    lemma_precedes_at("provider"@, "total_available"@, 0);
    lemma_precedes_at("total_available"@, "total_granted"@, 6);
    lemma_precedes_at("total_granted"@, "total_used"@, 6);
    lemma_precedes_at("total_used"@, "unlimited_quota"@, 0);
    lemma_precedes_at("unlimited_quota"@, "usage"@, 1);
    lemma_in_key_order(provider_raw_data(data, usage)->Object_0);
}

} // verus!
