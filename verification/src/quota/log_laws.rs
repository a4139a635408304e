//! What holds of what is read from Codex's log: whose a row is, and what stands for an account.
use vstd::prelude::*;

use crate::json::{json_get, number_of, set_field_reads_back, Json};
use crate::models::codex::AccountModel;
use crate::numbers::{seconds_until, wrapping_sum};
use crate::quota::direct::ObservationModel;
use crate::quota::events::{websocket_event_in, websocket_observation};
use crate::quota::identity::{identity_index, log_owner};
use crate::quota::logs::{
    attributed, entry_observation, is_short_backoff, last_owner, lasting_reset, latest_reset,
    log_observations, observation_since, observations_for, settled, since_for, thread_owner,
    with_events, with_reset, EntryModel, RowModel,
};
use crate::quota::preference::observation_reset;

verus! {

/// Observations count for an account from an hour before it was last used or last looked at, whichever
/// is later; an account that was never looked at counts as looked at in the beginning.
pub proof fn observations_count_from_an_hour_before(account: AccountModel, latest: i64)
    requires
        latest >= account.last_used,
        account.usage_updated_at matches Some(updated_at) ==> latest >= updated_at,
        account.usage_updated_at is None ==> latest >= 0,
        latest == account.last_used || account.usage_updated_at == Some(latest)
            || account.usage_updated_at is None && latest == 0,
    ensures
        latest >= i64::MIN + 3600 ==> observation_since(account) == latest - 3600,
        latest < i64::MIN + 3600 ==> observation_since(account) == i64::MIN,
{
}

/// Since when observations count for a name is told by the last account of that name; for a name that
/// no account has they always count that are not before the epoch.
pub proof fn last_account_of_a_name_counts(
    before: Seq<AccountModel>,
    account: AccountModel,
    after: Seq<AccountModel>,
)
    requires
        forall|i: int| 0 <= i < after.len() ==> (#[trigger] after[i]).id != account.id,
    ensures
        since_for(before + seq![account] + after, account.id) == observation_since(account),
        since_for(after, account.id) == 0,
    decreases after.len(),
{
    let all = before + seq![account] + after;
    if after.len() == 0 {
        assert(all.last() == account);
    } else {
        assert(all.last() == after.last());
        assert(after[after.len() - 1].id != account.id);
        assert(all.drop_last() =~= before + seq![account] + after.drop_last());
        assert forall|i: int| 0 <= i < after.drop_last().len() implies (
        #[trigger] after.drop_last()[i]).id != account.id by {
            assert(after.drop_last()[i] == after[i]);
        }
        last_account_of_a_name_counts(before, account, after.drop_last());
    }
}

/// The entry is on the thread and names an account.
pub open spec fn names_owner(
    entry: EntryModel,
    index: Map<Seq<char>, Seq<char>>,
    thread: Seq<char>,
) -> bool {
    entry.row.thread_id == Some(thread) && log_owner(entry.row.body, index) is Some
}

/// A thread is the account's that the last entry on it names that names one; entries on other threads
/// play no part, nor do entries that name none; a thread on which no account is named is nobody's.
pub proof fn last_named_account_owns_the_thread(
    before: Seq<EntryModel>,
    entry: EntryModel,
    after: Seq<EntryModel>,
    index: Map<Seq<char>, Seq<char>>,
    thread: Seq<char>,
)
    requires
        forall|i: int| 0 <= i < after.len() ==> !names_owner(#[trigger] after[i], index, thread),
    ensures
        names_owner(entry, index, thread) ==> last_owner(
            before + seq![entry] + after,
            index,
            thread,
        ) == log_owner(entry.row.body, index),
        !names_owner(entry, index, thread) ==> last_owner(
            before + seq![entry] + after,
            index,
            thread,
        ) == last_owner(before, index, thread),
        last_owner(after, index, thread) is None,
    decreases after.len(),
{
    let all = before + seq![entry] + after;
    if after.len() == 0 {
        assert(all.last() == entry);
        assert(all.drop_last() =~= before);
    } else {
        assert(all.last() == after.last());
        assert(!names_owner(after[after.len() - 1], index, thread));
        assert(all.drop_last() =~= before + seq![entry] + after.drop_last());
        assert forall|i: int| 0 <= i < after.drop_last().len() implies !names_owner(
            #[trigger] after.drop_last()[i],
            index,
            thread,
        ) by {
            assert(after.drop_last()[i] == after[i]);
        }
        last_named_account_owns_the_thread(before, entry, after.drop_last(), index, thread);
    }
}

/// An entry is that account's which is named last on its thread up to it; or else, where none is named
/// so far, the one that is named last of all.
pub proof fn thread_owner_is_the_one_named_so_far(
    entries: Seq<EntryModel>,
    index: Map<Seq<char>, Seq<char>>,
    count: int,
    thread: Seq<char>,
)
    ensures
        last_owner(entries.take(count), index, thread) is Some ==> thread_owner(
            entries,
            index,
            count,
            thread,
        ) == last_owner(entries.take(count), index, thread),
        last_owner(entries.take(count), index, thread) is None ==> thread_owner(
            entries,
            index,
            count,
            thread,
        ) == last_owner(entries, index, thread),
{
}

/// A row carries the event in its body.
pub proof fn rows_carry_their_events(rows: Seq<RowModel>, at: int)
    requires
        0 <= at < rows.len(),
    ensures
        with_events(rows).len() == rows.len(),
        with_events(rows)[at].row == rows[at],
        with_events(rows)[at].event == websocket_event_in(rows[at].body),
{
}

/// An entry says of an account's quota what its event does, seen when the row was written, unless that
/// was before observations count for the account.
pub proof fn entries_say_what_their_events_do(
    accounts: Seq<AccountModel>,
    owner: Seq<char>,
    entry: EntryModel,
)
    ensures
        entry.event is None ==> entry_observation(accounts, owner, entry) is None,
        entry.event matches Some(event) ==> {
            let seen = websocket_observation(event, entry.row.ts);
            &&& seen is None ==> entry_observation(accounts, owner, entry) is None
            &&& seen is Some && seen->0.observed_at >= since_for(accounts, owner)
                ==> entry_observation(accounts, owner, entry) == seen
            &&& seen is Some && seen->0.observed_at < since_for(accounts, owner)
                ==> entry_observation(accounts, owner, entry) is None
        },
{
}

/// An entry is attributed to the account that its thread is at that place, and to no other; an entry
/// on no thread is nobody's.
pub proof fn entries_are_attributed_by_thread(
    accounts: Seq<AccountModel>,
    entries: Seq<EntryModel>,
    at: int,
    owner: Seq<char>,
)
    requires
        0 <= at < entries.len(),
    ensures
        entries[at].row.thread_id is None ==> attributed(accounts, entries, at, owner) is None,
        entries[at].row.thread_id matches Some(thread) ==> (if thread_owner(
            entries,
            identity_index(accounts),
            at + 1,
            thread,
        ) == Some(owner) {
            attributed(accounts, entries, at, owner) == entry_observation(
                accounts,
                owner,
                entries[at],
            )
        } else {
            attributed(accounts, entries, at, owner) is None
        }),
{
}

/// Every entry that is attributed to an account counts for it, and nothing else does.
pub proof fn every_attributed_entry_counts(
    accounts: Seq<AccountModel>,
    entries: Seq<EntryModel>,
    count: int,
    owner: Seq<char>,
    at: int,
)
    requires
        0 <= at < count,
        attributed(accounts, entries, at, owner) is Some,
    ensures
        observations_for(accounts, entries, count, owner).contains(
            attributed(accounts, entries, at, owner)->0,
        ),
    decreases count,
{
    let all = observations_for(accounts, entries, count, owner);
    let before = observations_for(accounts, entries, count - 1, owner);
    if at == count - 1 {
        assert(all[all.len() - 1] == attributed(accounts, entries, at, owner)->0);
    } else {
        every_attributed_entry_counts(accounts, entries, count - 1, owner, at);
        let i = choose|i: int|
            0 <= i < before.len() && before[i] == attributed(accounts, entries, at, owner)->0;
        assert(all[i] == before[i]);
    }
}

/// What counts for an account is attributed to it by some entry.
pub proof fn only_attributed_entries_count(
    accounts: Seq<AccountModel>,
    entries: Seq<EntryModel>,
    count: int,
    owner: Seq<char>,
    place: int,
)
    requires
        0 <= place < observations_for(accounts, entries, count, owner).len(),
    ensures
        exists|at: int|
            0 <= at < count && #[trigger] attributed(accounts, entries, at, owner) == Some(
                observations_for(accounts, entries, count, owner)[place],
            ),
    decreases count,
{
    let all = observations_for(accounts, entries, count, owner);
    let before = observations_for(accounts, entries, count - 1, owner);
    if place < before.len() {
        only_attributed_entries_count(accounts, entries, count - 1, owner, place);
        assert(all[place] == before[place]);
    } else {
        assert(attributed(accounts, entries, count - 1, owner) == Some(all[place]));
    }
}

/// The log says something of an account if an entry is attributed to it, and only then.
pub proof fn log_speaks_of_attributed_accounts(
    accounts: Seq<AccountModel>,
    entries: Seq<EntryModel>,
    owner: Seq<char>,
)
    ensures
        log_observations(accounts, entries).contains_key(owner) <==> exists|at: int|
            0 <= at < entries.len() && #[trigger] attributed(accounts, entries, at, owner) is Some,
{
    let count = entries.len() as int;
    let all = observations_for(accounts, entries, count, owner);
    if all.len() > 0 {
        only_attributed_entries_count(accounts, entries, count, owner, 0);
    }
    if exists|at: int|
        0 <= at < entries.len() && #[trigger] attributed(accounts, entries, at, owner) is Some {
        let at = choose|at: int|
            0 <= at < entries.len() && #[trigger] attributed(accounts, entries, at, owner) is Some;
        every_attributed_entry_counts(accounts, entries, count, owner, at);
    }
}

/// A reset lasts if it is after the observation was made.
pub proof fn resets_to_come_last(observation: ObservationModel)
    ensures
        observation_reset(observation) matches Some(reset_at) && reset_at > observation.observed_at
            ==> lasting_reset(observation) == observation_reset(observation),
        observation_reset(observation) matches Some(reset_at) && reset_at <= observation.observed_at
            ==> lasting_reset(observation) is None,
        observation_reset(observation) is None ==> lasting_reset(observation) is None,
{
}

/// The latest reset is that of one of the observations, and there is none only if none of them tells a
/// reset that lasts.
pub proof fn latest_reset_is_told(observations: Seq<ObservationModel>)
    ensures
        latest_reset(observations) is Some ==> exists|i: int|
            0 <= i < observations.len() && lasting_reset(#[trigger] observations[i])
                == latest_reset(observations),
    decreases observations.len(),
{
    if observations.len() > 0 {
        let rest = observations.drop_last();
        latest_reset_is_told(rest);
        if latest_reset(observations) is Some {
            if latest_reset(observations) == lasting_reset(observations.last()) {
                assert(observations[observations.len() - 1] == observations.last());
            } else {
                let i = choose|i: int|
                    0 <= i < rest.len() && lasting_reset(#[trigger] rest[i]) == latest_reset(rest);
                assert(observations[i] == rest[i]);
            }
        }
    }
}

/// An error of the websocket names only a pause before the next try if it tells a delay of at most an
/// hour, or else a reset at most an hour after it; nothing else does.
pub proof fn pauses_last_an_hour_at_most(observation: ObservationModel)
    ensures
        observation.source != "codex_official_websocket_error"@ ==> !is_short_backoff(observation),
        observation.source == "codex_official_websocket_error"@ ==> {
            &&& observation.reset_after_seconds matches Some(seconds) ==> is_short_backoff(
                observation,
            ) == (seconds <= 3600)
            &&& observation.reset_after_seconds is None && observation.reset_at is None
                ==> !is_short_backoff(observation)
            &&& observation.reset_after_seconds is None && observation.reset_at is Some
                ==> is_short_backoff(observation) == (observation.reset_at->0 <= wrapping_sum(
                observation.observed_at,
                3600,
            ))
            &&& observation.reset_after_seconds is None && observation.reset_at is Some
                && observation.observed_at <= i64::MAX - 3600 ==> is_short_backoff(observation) == (
            observation.reset_at->0 <= observation.observed_at + 3600)
        },
{
}

/// What stands in the end keeps its reset, unless it names only a pause of a used-up quota and a later
/// reset is known: that one is put in its place.
pub proof fn pauses_give_way_to_later_resets(observation: ObservationModel, latest: Option<i64>)
    ensures
        latest is None ==> settled(observation, latest) == observation,
        !observation.exhausted ==> settled(observation, latest) == observation,
        !is_short_backoff(observation) ==> settled(observation, latest) == observation,
        latest matches Some(later) ==> {
            &&& observation.reset_at is Some && observation.reset_at->0 >= later ==> settled(
                observation,
                latest,
            ) == observation
            &&& observation.exhausted && is_short_backoff(observation) && (observation.reset_at is None
                || observation.reset_at->0 < later) ==> settled(observation, latest) == with_reset(
                observation,
                later,
            )
        },
{
}

/// An observation with another reset tells that reset and how long it is until then; the windows of its
/// quota that are there and used up reset then too, and nothing else of it changes.
pub proof fn another_reset_is_told(observation: ObservationModel, reset_at: i64)
    ensures
        ({
            let after = with_reset(observation, reset_at);
            &&& after.reset_at == Some(reset_at)
            &&& after.reset_after_seconds matches Some(seconds)
            &&& seconds == seconds_until(reset_at, observation.observed_at)
            &&& reset_at <= observation.observed_at ==> seconds == 0
            &&& 0 <= reset_at - observation.observed_at <= i64::MAX ==> seconds == reset_at
                - observation.observed_at
            &&& after == ObservationModel {
                reset_at: after.reset_at,
                reset_after_seconds: after.reset_after_seconds,
                quota: after.quota,
                ..observation
            }
            &&& observation.quota is None ==> after.quota is None
            &&& observation.quota matches Some(before) ==> {
                &&& after.quota matches Some(quota)
                &&& before.hourly_percentage <= 0 && before.hourly_window_present == Some(true)
                    ==> quota.hourly_reset_time == Some(reset_at)
                &&& !(before.hourly_percentage <= 0 && before.hourly_window_present == Some(true))
                    ==> quota.hourly_reset_time == before.hourly_reset_time
                &&& before.weekly_percentage <= 0 && before.weekly_window_present == Some(true)
                    ==> quota.weekly_reset_time == Some(reset_at)
                &&& !(before.weekly_percentage <= 0 && before.weekly_window_present == Some(true))
                    ==> quota.weekly_reset_time == before.weekly_reset_time
                &&& quota.hourly_percentage == before.hourly_percentage
                &&& quota.weekly_percentage == before.weekly_percentage
                &&& quota.hourly_window_present == before.hourly_window_present
                &&& quota.weekly_window_present == before.weekly_window_present
                &&& quota.hourly_window_minutes == before.hourly_window_minutes
                &&& quota.weekly_window_minutes == before.weekly_window_minutes
                &&& before.raw_data is None ==> quota.raw_data is None
                &&& before.raw_data matches Some(Json::Object(_)) ==> {
                    &&& quota.raw_data matches Some(raw)
                    &&& json_get(raw, "reset_at"@) == Some(Json::Number(number_of(reset_at)))
                    &&& json_get(raw, "reset_source"@) == Some(
                        Json::Text("codex_official_websocket_rate_limits"@),
                    )
                }
            }
        }),
{
    if let Some(before) = observation.quota {
        if let Some(Json::Object(fields)) = before.raw_data {
            let number = Json::Number(number_of(reset_at));
            let first = crate::json::json_with(Json::Object(fields), "reset_at"@, number);
            reveal_strlit("reset_at");
            reveal_strlit("reset_source");
            assert("reset_at"@.len() != "reset_source"@.len());
            set_field_reads_back(fields, "reset_at"@, number, "reset_at"@);
            set_field_reads_back(
                first->Object_0,
                "reset_source"@,
                Json::Text("codex_official_websocket_rate_limits"@),
                "reset_at"@,
            );
        }
    }
}

/// What counts for an account stands in the order of the entries: each adds what it says behind what
/// those before it say, or nothing.
pub proof fn observations_stand_in_the_order_of_entries(
    accounts: Seq<AccountModel>,
    entries: Seq<EntryModel>,
    at: int,
    owner: Seq<char>,
)
    requires
        at >= 0,
    ensures
        observations_for(accounts, entries, at + 1, owner) == observations_for(
            accounts,
            entries,
            at,
            owner,
        ) + (match attributed(accounts, entries, at, owner) {
            Some(observation) => seq![observation],
            None => Seq::empty(),
        }),
        observations_for(accounts, entries, 0, owner) == Seq::<ObservationModel>::empty(),
{
    let before = observations_for(accounts, entries, at, owner);
    let after = observations_for(accounts, entries, at + 1, owner);
    match attributed(accounts, entries, at, owner) {
        Some(observation) => {
            assert(after =~= before + seq![observation]);
        },
        None => {
            assert(after =~= before + Seq::<ObservationModel>::empty());
        },
    }
}

} // verus!
