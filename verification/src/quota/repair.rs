//! The repair of accounts by what Codex's log says of them.
use vstd::prelude::*;

use crate::clock::now_seconds;
use crate::models::codex::{accounts_of, AccountModel, CodexAccount, CodexAuthMode};
use crate::quota::apply::{revise_account_at, revised};
use crate::quota::direct::{DirectQuotaObservation, ObservationModel};
use crate::text_map::TextMap;

verus! {

/// The account after what the log says of it at `now`, or nothing if it stays as it is. Accounts
/// that sign in with an API key have no such quota.
pub open spec fn repaired_by(
    account: AccountModel,
    observations: Map<Seq<char>, ObservationModel>,
    now: i64,
) -> Option<AccountModel> {
    if account.auth_mode == CodexAuthMode::ApiKey || !observations.contains_key(account.id) {
        None
    } else {
        revised(account, observations[account.id], now)
    }
}

/// The places are those of the first `count` accounts that change, in their order.
pub open spec fn are_changed(
    places: Seq<usize>,
    accounts: Seq<AccountModel>,
    observations: Map<Seq<char>, ObservationModel>,
    now: i64,
    count: int,
) -> bool {
    &&& forall|i: int, j: int| 0 <= i < j < places.len() ==> places[i] < places[j]
    &&& forall|place: usize| #[trigger]
        places.contains(place) <==> (place < count && repaired_by(
            accounts[place as int],
            observations,
            now,
        ) is Some)
}

/// The accounts, each after what the log says of it.
pub open spec fn all_repaired(
    accounts: Seq<AccountModel>,
    observations: Map<Seq<char>, ObservationModel>,
    now: i64,
) -> Seq<AccountModel> {
    accounts.map_values(
        |account: AccountModel|
            match repaired_by(account, observations, now) {
                Some(after) => after,
                None => account,
            },
    )
}

/// Repairs an account by what the log says of it at `now`, and says whether that changed it.
pub fn repair_account_at(
    account: &mut CodexAccount,
    observations: &TextMap<DirectQuotaObservation>,
    now: i64,
) -> (changed: bool)
    ensures
        changed == (repaired_by(old(account)@, observations@, now) is Some),
        final(account)@ == (if changed {
            repaired_by(old(account)@, observations@, now)->0
        } else {
            old(account)@
        }),
{
    if account.is_api_key_auth() {
        return false;
    }
    match observations.get(account.id.as_str()) {
        Some(observation) => revise_account_at(account, observation, now),
        None => false,
    }
}

/// Repairs the accounts by what the log says of them at `now`, and says which of them changed.
pub fn repair_direct_oauth_observations_from_map_at(
    accounts: &mut [CodexAccount],
    observations: &TextMap<DirectQuotaObservation>,
    now: i64,
) -> (changed: Vec<usize>)
    ensures
        accounts_of(final(accounts)@) == all_repaired(
            accounts_of(old(accounts)@),
            observations@,
            now,
        ),
        are_changed(
            changed@,
            accounts_of(old(accounts)@),
            observations@,
            now,
            old(accounts)@.len() as int,
        ),
{
    let ghost before = accounts_of(accounts@);
    let ghost after = all_repaired(before, observations@, now);
    let mut changed: Vec<usize> = Vec::new();
    let total = accounts.len();
    let mut at: usize = 0;
    while at < total
        invariant
            total == accounts@.len() == before.len() == after.len(),
            after == all_repaired(before, observations@, now),
            at <= total,
            forall|i: int| 0 <= i < at ==> (#[trigger] accounts@[i])@ == after[i],
            forall|i: int| at <= i < total ==> (#[trigger] accounts@[i])@ == before[i],
            are_changed(changed@, before, observations@, now, at as int),
            forall|i: int| 0 <= i < changed@.len() ==> #[trigger] changed@[i] < at,
        decreases total - at,
    {
        let ghost places = changed@;
        let account_changed = repair_account_at(&mut accounts[at], observations, now);
        if account_changed {
            changed.push(at);
        }
        proof {
            assert forall|place: usize| #[trigger]
                changed@.contains(place) <==> (place < at + 1 && repaired_by(
                    before[place as int],
                    observations@,
                    now,
                ) is Some) by {
                if places.contains(place) {
                    let i = choose|i: int| 0 <= i < places.len() && places[i] == place;
                    assert(changed@[i] == place);
                }
                if changed@.contains(place) && !places.contains(place) {
                    let i = choose|i: int| 0 <= i < changed@.len() && changed@[i] == place;
                    if i < places.len() {
                        assert(places[i] == place);
                    }
                }
                if account_changed {
                    assert(changed@[places.len() as int] == at);
                }
            }
        }
        at = at + 1;
    }
    proof {
        assert(accounts_of(accounts@) =~= after);
    }
    changed
}

/// Repairs the accounts by what the log says of them now, and says which of them changed.
pub fn repair_direct_oauth_observations_from_map(
    accounts: &mut [CodexAccount],
    observations: &TextMap<DirectQuotaObservation>,
) -> (changed: Vec<usize>)
    ensures
        exists|now: i64|
            accounts_of(final(accounts)@) == #[trigger] all_repaired(
                accounts_of(old(accounts)@),
                observations@,
                now,
            ) && are_changed(
                changed@,
                accounts_of(old(accounts)@),
                observations@,
                now,
                old(accounts)@.len() as int,
            ),
{
    repair_direct_oauth_observations_from_map_at(accounts, observations, now_seconds())
}

} // verus!
