//! Quota observations in the logs of Codex: whose they are, and which of them stands.
use vstd::prelude::*;

use crate::json::{json_integer, number_of, opt_json, Json, JsonValue};
use crate::models::codex::{accounts_of, clone_text, AccountModel, CodexAccount, QuotaModel};
use crate::numbers::{
    first_some, greater, later_of, max_i64, saturating_difference, saturating_sub, seconds_until,
    time_left, wrapping_add, wrapping_sum,
};
use crate::quota::apply::{hourly_used_up, weekly_used_up};
use crate::quota::direct::{opt_observation, DirectQuotaObservation, ObservationModel};
use crate::quota::events::{
    extract_websocket_event_value, parse_direct_quota_observation_from_websocket_event,
    set_raw_field, websocket_event_in, websocket_observation, with_raw_field,
};
use crate::quota::identity::{
    account_id_from_codex_log_identity, direct_account_identity_index, identity_index, log_owner,
};
use crate::quota::preference::{
    best_of, direct_observation_quota_reset_hint, is_better, is_better_direct_quota_observation,
    observation_reset,
};
use crate::text::{contains, opt_text, same_text};
use crate::text_map::{entry_index, lemma_entry_index, lemma_entry_index_is, TextMap};

verus! {

/// A row of Codex's log.
#[derive(Debug)]
pub struct DirectCodexLogRow {
    pub id: i64,
    pub ts: i64,
    pub thread_id: Option<String>,
    pub body: String,
}

pub ghost struct RowModel {
    pub id: i64,
    pub ts: i64,
    pub thread_id: Option<Seq<char>>,
    pub body: Seq<char>,
}

impl View for DirectCodexLogRow {
    type V = RowModel;

    open spec fn view(&self) -> RowModel {
        RowModel {
            id: self.id,
            ts: self.ts,
            thread_id: opt_text(self.thread_id),
            body: self.body@,
        }
    }
}

impl Clone for DirectCodexLogRow {
    fn clone(&self) -> (copy: Self)
        ensures
            copy@ == self@,
    {
        DirectCodexLogRow {
            id: self.id,
            ts: self.ts,
            thread_id: clone_text(&self.thread_id),
            body: self.body.clone(),
        }
    }
}

/// A row of Codex's log, with the websocket event that it holds.
#[derive(Debug)]
pub struct DirectCodexLogEntry {
    pub row: DirectCodexLogRow,
    pub event: Option<JsonValue>,
}

pub ghost struct EntryModel {
    pub row: RowModel,
    pub event: Option<Json>,
}

impl View for DirectCodexLogEntry {
    type V = EntryModel;

    open spec fn view(&self) -> EntryModel {
        EntryModel { row: self.row@, event: opt_json(self.event) }
    }
}

/// Entries, mathematically.
pub open spec fn entries_of(entries: Seq<DirectCodexLogEntry>) -> Seq<EntryModel> {
    entries.map_values(|entry: DirectCodexLogEntry| entry@)
}

/// The rows with the events that they hold.
pub open spec fn with_events(rows: Seq<RowModel>) -> Seq<EntryModel> {
    rows.map_values(
        |row: RowModel| EntryModel { row, event: websocket_event_in(row.body) },
    )
}

/// Rows, mathematically.
pub open spec fn rows_of(rows: Seq<DirectCodexLogRow>) -> Seq<RowModel> {
    rows.map_values(|row: DirectCodexLogRow| row@)
}

/// The entries with the given id, in their order.
pub open spec fn with_id(entries: Seq<EntryModel>, id: i64) -> Seq<EntryModel> {
    entries.filter(|entry: EntryModel| entry.row.id == id)
}

/// The entries in the order of their ids, those with the same id in the order they had.
pub open spec fn is_stable_sort(entries: Seq<EntryModel>, sorted: Seq<EntryModel>) -> bool {
    &&& forall|i: int, j: int| 0 <= i < j < sorted.len() ==> sorted[i].row.id <= sorted[j].row.id
    &&& forall|id: i64| #[trigger] with_id(sorted, id) == with_id(entries, id)
}

/// The entries in the order of their ids.
pub open spec fn sorted_entries(entries: Seq<EntryModel>) -> Seq<EntryModel> {
    choose|sorted: Seq<EntryModel>| is_stable_sort(entries, sorted)
}

/// An entry is among those with its id.
proof fn lemma_with_id_has(entries: Seq<EntryModel>, at: int)
    requires
        0 <= at < entries.len(),
    ensures
        with_id(entries, entries[at].row.id).contains(entries[at]),
{
    broadcast use vstd::seq_lib::group_filter_ensures;

    let id = entries[at].row.id;
    let keep = |entry: EntryModel| entry.row.id == id;
    assert(keep(entries[at]));
    assert(entries.filter(keep).contains(entries[at]));
}

/// Of the entries with an id, those behind the first entry.
pub proof fn lemma_with_id_rest(entries: Seq<EntryModel>, id: i64)
    requires
        entries.len() > 0,
    ensures
        entries[0].row.id == id ==> with_id(entries, id) == seq![entries[0]] + with_id(entries.skip(1), id),
        entries[0].row.id != id ==> with_id(entries, id) == with_id(entries.skip(1), id),
{
    let keep = |entry: EntryModel| entry.row.id == id;
    let first = seq![entries[0]];
    assert(entries =~= first + entries.skip(1));
    Seq::filter_distributes_over_add(first, entries.skip(1), keep);
    reveal(Seq::filter);
    assert(first.drop_last() =~= Seq::empty());
    assert(Seq::<EntryModel>::empty().filter(keep) =~= Seq::empty());
    if keep(entries[0]) {
        assert(first.filter(keep) =~= first);
    } else {
        assert(first.filter(keep) =~= Seq::empty());
        assert(first.filter(keep) + entries.skip(1).filter(keep) =~= entries.skip(1).filter(keep));
    }
}

/// There is only one such order.
#[verifier::spinoff_prover]
pub proof fn lemma_sort_is_unique(left: Seq<EntryModel>, right: Seq<EntryModel>)
    requires
        is_stable_sort(left, right),
        is_stable_sort(right, left),
    ensures
        left == right,
    decreases left.len(),
{
    if left.len() == 0 {
        if right.len() > 0 {
            lemma_with_id_has(right, 0);
            reveal(Seq::filter);
            assert(with_id(left, right[0].row.id) =~= Seq::empty());
            assert(false);
        }
        assert(left =~= right);
    } else {
        lemma_with_id_has(left, 0);
        if right.len() == 0 {
            reveal(Seq::filter);
            assert(with_id(right, left[0].row.id) =~= Seq::empty());
            assert(false);
        }
        lemma_with_id_has(right, 0);
        lemma_member_of_ids(left, right[0].row.id, right[0]);
        lemma_member_of_ids(right, left[0].row.id, left[0]);
        assert(left[0].row.id == right[0].row.id);
        lemma_with_id_rest(left, left[0].row.id);
        lemma_with_id_rest(right, left[0].row.id);
        assert(with_id(left, left[0].row.id)[0] == left[0]);
        assert(with_id(right, left[0].row.id)[0] == right[0]);
        assert forall|id: i64| #[trigger]
            with_id(left.skip(1), id) == with_id(right.skip(1), id) by {
            lemma_with_id_rest(left, id);
            lemma_with_id_rest(right, id);
            assert(with_id(left, id) == with_id(right, id));
            if id == left[0].row.id {
                assert(with_id(left.skip(1), id) =~= with_id(left, id).skip(1));
                assert(with_id(right.skip(1), id) =~= with_id(right, id).skip(1));
            }
        }
        lemma_sort_is_unique(left.skip(1), right.skip(1));
        assert(left =~= seq![left[0]] + left.skip(1));
        assert(right =~= seq![right[0]] + right.skip(1));
    }
}

/// An entry among those with an id has that id and is one of the entries.
proof fn lemma_member_of_ids(entries: Seq<EntryModel>, id: i64, entry: EntryModel)
    requires
        with_id(entries, id).contains(entry),
    ensures
        entry.row.id == id,
        exists|i: int| 0 <= i < entries.len() && entries[i] == entry,
    decreases entries.len(),
{
    if entries.len() == 0 {
        reveal(Seq::filter);
        assert(with_id(entries, id) =~= Seq::empty());
    } else {
        lemma_with_id_rest(entries, id);
        let rest = with_id(entries.skip(1), id);
        let at = choose|i: int| 0 <= i < with_id(entries, id).len() && with_id(entries, id)[i] == entry;
        if entries[0].row.id != id {
            assert(rest[at] == entry);
        } else if at > 0 {
            assert(rest[at - 1] == entry);
        }
        if rest.contains(entry) {
            lemma_member_of_ids(entries.skip(1), id, entry);
            let found = choose|i: int| 0 <= i < entries.skip(1).len() && entries.skip(1)[i] == entry;
            assert(entries[found + 1] == entry);
        } else {
            assert(entries[0] == entry);
        }
    }
}

/// `slice::sort_by_key` with the id of an entry as its key: the entries in the order of their ids,
/// entries with the same id in the order they had.
#[verifier::external_body]
fn sort_entries_by_id(entries: &mut Vec<DirectCodexLogEntry>)
    ensures
        is_stable_sort(entries_of(old(entries)@), entries_of(final(entries)@)),
{
    entries.sort_by_key(|entry| entry.row.id);
}

/// The second from which on observations count for an account: an hour before it was last used or
/// last looked at.
pub open spec fn observation_since(account: AccountModel) -> i64 {
    let looked_at = match account.usage_updated_at {
        Some(updated_at) => updated_at,
        None => 0,
    };
    saturating_difference(greater(account.last_used as int, looked_at as int) as i64, 3600)
}

/// The second from which on observations count for an account.
pub fn direct_observation_since_seconds(account: &CodexAccount) -> (since: i64)
    ensures
        since == observation_since(account@),
{
    let looked_at = match account.usage_updated_at {
        Some(updated_at) => updated_at,
        None => 0,
    };
    saturating_sub(max_i64(account.last_used, looked_at), 3600)
}

/// The second from which on observations count for the account `id`: the last one of that name.
pub open spec fn since_for(accounts: Seq<AccountModel>, id: Seq<char>) -> i64
    decreases accounts.len(),
{
    if accounts.len() == 0 {
        0
    } else if accounts.last().id == id {
        observation_since(accounts.last())
    } else {
        since_for(accounts.drop_last(), id)
    }
}

/// The second from which on observations count for the account `id`.
fn find_since(accounts: &[CodexAccount], id: &str) -> (since: i64)
    ensures
        since == since_for(accounts_of(accounts@), id@),
{
    let ghost all = accounts_of(accounts@);
    let mut left: usize = accounts.len();
    assert(all.take(left as int) =~= all);
    while left > 0
        invariant
            all == accounts_of(accounts@),
            left <= all.len() == accounts@.len(),
            since_for(all, id@) == since_for(all.take(left as int), id@),
        decreases left,
    {
        assert(all.take(left as int).last() == accounts@[left - 1]@);
        assert(all.take(left as int).drop_last() =~= all.take(left - 1));
        if same_text(accounts[left - 1].id.as_str(), id) {
            return direct_observation_since_seconds(&accounts[left - 1]);
        }
        left = left - 1;
    }
    0
}

/// The account that the last of the entries on a thread that names one names.
pub open spec fn last_owner(
    entries: Seq<EntryModel>,
    index: Map<Seq<char>, Seq<char>>,
    thread: Seq<char>,
) -> Option<Seq<char>>
    decreases entries.len(),
{
    if entries.len() == 0 {
        None
    } else if entries.last().row.thread_id == Some(thread) && log_owner(
        entries.last().row.body,
        index,
    ) is Some {
        log_owner(entries.last().row.body, index)
    } else {
        last_owner(entries.drop_last(), index, thread)
    }
}

/// The account of a thread after the first `count` entries: the one named last so far, or else the
/// one named last of all.
pub open spec fn thread_owner(
    entries: Seq<EntryModel>,
    index: Map<Seq<char>, Seq<char>>,
    count: int,
    thread: Seq<char>,
) -> Option<Seq<char>> {
    first_some(
        last_owner(entries.take(count), index, thread),
        last_owner(entries, index, thread),
    )
}

/// What an entry of an account says of its quota, if it is not too old.
pub open spec fn entry_observation(
    accounts: Seq<AccountModel>,
    owner: Seq<char>,
    entry: EntryModel,
) -> Option<ObservationModel> {
    match entry.event {
        Some(event) => match websocket_observation(event, entry.row.ts) {
            Some(observation) => if observation.observed_at < since_for(accounts, owner) {
                None
            } else {
                Some(observation)
            },
            None => None,
        },
        None => None,
    }
}

/// What an entry of an account says of its quota, if it is not too old.
fn observe_entry(accounts: &[CodexAccount], owner: &str, entry: &DirectCodexLogEntry) -> (observation:
    Option<DirectQuotaObservation>)
    ensures
        opt_observation(observation) == entry_observation(accounts_of(accounts@), owner@, entry@),
{
    match &entry.event {
        Some(event) => match parse_direct_quota_observation_from_websocket_event(
            event,
            entry.row.ts,
        ) {
            Some(observation) => if observation.observed_at < find_since(accounts, owner) {
                None
            } else {
                Some(observation)
            },
            None => None,
        },
        None => None,
    }
}

/// What one of the entries says of an account's quota, if the entry is that account's.
pub open spec fn attributed(
    accounts: Seq<AccountModel>,
    entries: Seq<EntryModel>,
    at: int,
    owner: Seq<char>,
) -> Option<ObservationModel> {
    match entries[at].row.thread_id {
        Some(thread) => if thread_owner(entries, identity_index(accounts), at + 1, thread) == Some(
            owner,
        ) {
            entry_observation(accounts, owner, entries[at])
        } else {
            None
        },
        None => None,
    }
}

/// What the first `count` entries say of an account's quota, in their order.
pub open spec fn observations_for(
    accounts: Seq<AccountModel>,
    entries: Seq<EntryModel>,
    count: int,
    owner: Seq<char>,
) -> Seq<ObservationModel>
    decreases count,
{
    if count <= 0 {
        Seq::empty()
    } else {
        let before = observations_for(accounts, entries, count - 1, owner);
        match attributed(accounts, entries, count - 1, owner) {
            Some(observation) => before.push(observation),
            None => before,
        }
    }
}

/// When an observation says that the quota resets, if that is after it was made.
pub open spec fn lasting_reset(observation: ObservationModel) -> Option<i64> {
    match observation_reset(observation) {
        Some(reset_at) => if reset_at > observation.observed_at {
            Some(reset_at)
        } else {
            None
        },
        None => None,
    }
}

/// When an observation says that the quota resets, if that is after it was made.
fn find_lasting_reset(observation: &DirectQuotaObservation) -> (reset_at: Option<i64>)
    ensures
        reset_at == lasting_reset(observation@),
{
    match direct_observation_quota_reset_hint(observation) {
        Some(reset_at) => if reset_at > observation.observed_at {
            Some(reset_at)
        } else {
            None
        },
        None => None,
    }
}

/// The latest reset that any of the observations names.
pub open spec fn latest_reset(observations: Seq<ObservationModel>) -> Option<i64>
    decreases observations.len(),
{
    if observations.len() == 0 {
        None
    } else {
        later_of(latest_reset(observations.drop_last()), lasting_reset(observations.last()))
    }
}

/// The longest wait that counts as a pause before the next try, and not as a quota window.
pub const DIRECT_ERROR_RESET_BACKOFF_MAX_SECONDS: i64 = 60 * 60;

/// The observation is an error of the websocket that names no later reset than a pause before the
/// next try.
pub open spec fn is_short_backoff(observation: ObservationModel) -> bool {
    &&& observation.source == "codex_official_websocket_error"@
    &&& match (observation.reset_after_seconds, observation.reset_at) {
        (Some(seconds), _) => seconds <= DIRECT_ERROR_RESET_BACKOFF_MAX_SECONDS,
        (None, Some(reset_at)) => reset_at <= wrapping_sum(
            observation.observed_at,
            DIRECT_ERROR_RESET_BACKOFF_MAX_SECONDS,
        ),
        (None, None) => false,
    }
}

/// Whether the reset that an error names is only a pause before the next try.
pub fn direct_error_reset_looks_like_short_backoff(observation: &DirectQuotaObservation) -> (short: bool)
    ensures
        short == is_short_backoff(observation@),
{
    if !same_text(observation.source.as_str(), "codex_official_websocket_error") {
        return false;
    }
    match observation.reset_after_seconds {
        Some(seconds) => seconds <= DIRECT_ERROR_RESET_BACKOFF_MAX_SECONDS,
        None => match observation.reset_at {
            Some(reset_at) => reset_at <= wrapping_add(
                observation.observed_at,
                DIRECT_ERROR_RESET_BACKOFF_MAX_SECONDS,
            ),
            None => false,
        },
    }
}

/// The quota with another reset for the windows that are used up.
pub open spec fn quota_with_reset(quota: QuotaModel, reset_at: i64) -> QuotaModel {
    let dated = QuotaModel {
        hourly_reset_time: if hourly_used_up(quota) {
            Some(reset_at)
        } else {
            quota.hourly_reset_time
        },
        weekly_reset_time: if weekly_used_up(quota) {
            Some(reset_at)
        } else {
            quota.weekly_reset_time
        },
        ..quota
    };
    with_raw_field(
        with_raw_field(dated, "reset_at"@, Json::Number(number_of(reset_at))),
        "reset_source"@,
        Json::Text("codex_official_websocket_rate_limits"@),
    )
}

/// The observation with another reset.
pub open spec fn with_reset(observation: ObservationModel, reset_at: i64) -> ObservationModel {
    ObservationModel {
        reset_at: Some(reset_at),
        reset_after_seconds: Some(seconds_until(reset_at, observation.observed_at)),
        quota: match observation.quota {
            Some(quota) => Some(quota_with_reset(quota, reset_at)),
            None => None,
        },
        ..observation
    }
}

/// Gives an observation another reset.
pub fn apply_direct_observation_reset_hint(observation: &mut DirectQuotaObservation, reset_at: i64)
    ensures
        final(observation)@ == with_reset(old(observation)@, reset_at),
{
    observation.reset_at = Some(reset_at);
    observation.reset_after_seconds = Some(time_left(reset_at, observation.observed_at));
    if let Some(quota) = &mut observation.quota {
        let hourly_present = match quota.hourly_window_present {
            Some(present) => present,
            None => false,
        };
        let weekly_present = match quota.weekly_window_present {
            Some(present) => present,
            None => false,
        };
        if hourly_present && quota.hourly_percentage <= 0 {
            quota.hourly_reset_time = Some(reset_at);
        }
        if weekly_present && quota.weekly_percentage <= 0 {
            quota.weekly_reset_time = Some(reset_at);
        }
        set_raw_field(quota, "reset_at", json_integer(reset_at));
        set_raw_field(
            quota,
            "reset_source",
            JsonValue::Text("codex_official_websocket_rate_limits".to_owned()),
        );
    }
}

/// The observation as it stands in the end: where it names only a pause before the next try, it
/// gets the latest reset that is known, if that is later.
pub open spec fn settled(observation: ObservationModel, latest: Option<i64>) -> ObservationModel {
    match latest {
        Some(latest) => if observation.exhausted && is_short_backoff(observation) && !(
        observation.reset_at matches Some(current) && current >= latest) {
            with_reset(observation, latest)
        } else {
            observation
        },
        None => observation,
    }
}

/// Settles the reset of an observation.
fn settle(observation: &mut DirectQuotaObservation, latest: Option<i64>)
    ensures
        final(observation)@ == settled(old(observation)@, latest),
{
    if !observation.exhausted || !direct_error_reset_looks_like_short_backoff(observation) {
        return;
    }
    if let Some(latest) = latest {
        let later = match observation.reset_at {
            Some(current) => latest > current,
            None => true,
        };
        if later {
            apply_direct_observation_reset_hint(observation, latest);
        }
    }
}

/// The value for a key, if there is one.
pub open spec fn lookup<V>(map: Map<Seq<char>, V>, key: Seq<char>) -> Option<V> {
    if map.contains_key(key) {
        Some(map[key])
    } else {
        None
    }
}

/// For each account that the entries say something of, what stands in the end: the best observation,
/// with its reset settled by all of them.
pub open spec fn log_observations(accounts: Seq<AccountModel>, entries: Seq<EntryModel>) -> Map<
    Seq<char>,
    ObservationModel,
> {
    Map::new(
        |owner: Seq<char>|
            observations_for(accounts, entries, entries.len() as int, owner).len() > 0,
        |owner: Seq<char>|
            {
                let observations = observations_for(accounts, entries, entries.len() as int, owner);
                settled(best_of(observations)->0, latest_reset(observations))
            },
    )
}

/// The next row on a thread that names an account changes the owner of its thread.
proof fn lemma_last_owner(
    entries: Seq<EntryModel>,
    index: Map<Seq<char>, Seq<char>>,
    at: int,
    thread: Seq<char>,
)
    requires
        0 <= at < entries.len(),
    ensures
        last_owner(entries.take(at + 1), index, thread) == (if entries[at].row.thread_id == Some(
            thread,
        ) && log_owner(entries[at].row.body, index) is Some {
            log_owner(entries[at].row.body, index)
        } else {
            last_owner(entries.take(at), index, thread)
        }),
{
    assert(entries.take(at + 1).last() == entries[at]);
    assert(entries.take(at + 1).drop_last() =~= entries.take(at));
}

/// The entries with the same keys have the same positions.
proof fn lemma_same_keys<V>(before: Seq<(String, V)>, after: Seq<(String, V)>, key: Seq<char>)
    requires
        before.len() == after.len(),
        forall|i: int| 0 <= i < before.len() ==> (#[trigger] after[i]).0@ == before[i].0@,
    ensures
        entry_index(after, key) == entry_index(before, key),
{
    lemma_entry_index(before, key);
    lemma_entry_index_is(after, key, entry_index(before, key));
}

/// The accounts that the entries of each thread name, the last one last.
fn thread_owners(entries: &Vec<DirectCodexLogEntry>, identity_index: &TextMap<String>) -> (owners: TextMap<
    String,
>)
    ensures
        forall|thread: Seq<char>| #[trigger]
            lookup(owners@, thread) == last_owner(entries_of(entries@), identity_index@, thread),
{
    let ghost all = entries_of(entries@);
    let mut owners: TextMap<String> = TextMap::new();
    let total = entries.len();
    let mut at: usize = 0;
    while at < total
        invariant
            all == entries_of(entries@),
            total == entries@.len() == all.len(),
            at <= total,
            forall|thread: Seq<char>| #[trigger]
                lookup(owners@, thread) == last_owner(all.take(at as int), identity_index@, thread),
        decreases total - at,
    {
        let ghost before = owners@;
        assert(all[at as int] == entries@[at as int]@);
        note_owner(&mut owners, &entries[at].row, identity_index);
        assert forall|thread: Seq<char>| #[trigger]
            lookup(owners@, thread) == last_owner(all.take(at + 1), identity_index@, thread) by {
            lemma_last_owner(all, identity_index@, at as int, thread);
            assert(lookup(before, thread) == last_owner(
                all.take(at as int),
                identity_index@,
                thread,
            ));
        }
        at = at + 1;
    }
    assert(all.take(at as int) =~= all);
    owners
}

/// The owners with the account that a row names set for its thread.
pub open spec fn with_owner(
    owners: Map<Seq<char>, Seq<char>>,
    row: RowModel,
    index: Map<Seq<char>, Seq<char>>,
) -> Map<Seq<char>, Seq<char>> {
    match (row.thread_id, log_owner(row.body, index)) {
        (Some(thread), Some(owner)) => owners.insert(thread, owner),
        _ => owners,
    }
}

/// Sets the account that a row names for its thread.
fn note_owner(
    owners: &mut TextMap<String>,
    row: &DirectCodexLogRow,
    identity_index: &TextMap<String>,
)
    ensures
        final(owners)@ == with_owner(old(owners)@, row@, identity_index@),
{
    if let Some(thread) = &row.thread_id {
        if let Some(owner) = account_id_from_codex_log_identity(row.body.as_str(), identity_index) {
            owners.insert(thread.as_str(), owner);
        }
    }
}

/// Goes on with the next observation of an account: it may put off the account's reset, and it
/// stands if it is better than the one that stood.
fn note_observation(
    observations: &mut TextMap<DirectQuotaObservation>,
    resets: &mut TextMap<i64>,
    owner: &str,
    observation: DirectQuotaObservation,
)
    ensures
        final(observations)@ == (if is_better(
            observation@,
            lookup(old(observations)@, owner@),
        ) {
            old(observations)@.insert(owner@, observation@)
        } else {
            old(observations)@
        }),
        final(resets)@ == (match lasting_reset(observation@) {
            Some(reset_at) => old(resets)@.insert(
                owner@,
                later_of(lookup(old(resets)@, owner@), Some(reset_at))->0,
            ),
            None => old(resets)@,
        }),
{
    if let Some(reset_at) = find_lasting_reset(&observation) {
        let later = match resets.get(owner) {
            Some(known) => max_i64(*known, reset_at),
            None => reset_at,
        };
        resets.insert(owner, later);
    }
    if is_better_direct_quota_observation(&observation, observations.get(owner)) {
        observations.insert(owner, observation);
    }
}

/// For each account that log entries say something of, the observation that stands in the end.
///
/// An account is known by the identities that rows of the same thread name, before or behind the
/// row with the observation.
#[verifier::spinoff_prover]
pub fn latest_direct_quota_observations_from_log_entries(
    accounts: &[CodexAccount],
    entries: Vec<DirectCodexLogEntry>,
) -> (observations: TextMap<DirectQuotaObservation>)
    ensures
        observations@ == log_observations(
            accounts_of(accounts@),
            sorted_entries(entries_of(entries@)),
        ),
{
    let ghost known = accounts_of(accounts@);
    let ghost unsorted = entries_of(entries@);
    let mut entries = entries;
    sort_entries_by_id(&mut entries);
    let ghost all = entries_of(entries@);
    proof {
        let sorted = sorted_entries(unsorted);
        assert(is_stable_sort(unsorted, all));
        assert(is_stable_sort(unsorted, sorted));
        assert forall|id: i64| #[trigger] with_id(all, id) == with_id(sorted, id) by {
            assert(with_id(all, id) == with_id(unsorted, id));
            assert(with_id(sorted, id) == with_id(unsorted, id));
        }
        lemma_sort_is_unique(all, sorted);
    }
    let index = direct_account_identity_index(accounts);
    let mut owners = thread_owners(&entries, &index);
    let mut observations: TextMap<DirectQuotaObservation> = TextMap::new();
    let mut resets: TextMap<i64> = TextMap::new();
    let total = entries.len();
    let mut at: usize = 0;
    assert(all.take(0) =~= Seq::empty());
    while at < total
        invariant
            known == accounts_of(accounts@),
            all == entries_of(entries@),
            total == entries@.len() == all.len(),
            at <= total,
            index@ == identity_index(known),
            forall|thread: Seq<char>| #[trigger]
                lookup(owners@, thread) == thread_owner(all, index@, at as int, thread),
            forall|owner: Seq<char>| #[trigger]
                lookup(observations@, owner) == best_of(
                    observations_for(known, all, at as int, owner),
                ),
            forall|owner: Seq<char>| #[trigger]
                lookup(resets@, owner) == latest_reset(
                    observations_for(known, all, at as int, owner),
                ),
        decreases total - at,
    {
        let entry = &entries[at];
        let ghost owners_before = owners@;
        let ghost observations_before = observations@;
        let ghost resets_before = resets@;
        assert(all[at as int] == entry@);
        note_owner(&mut owners, &entry.row, &index);
        assert forall|thread: Seq<char>| #[trigger]
            lookup(owners@, thread) == thread_owner(all, index@, at + 1, thread) by {
            lemma_last_owner(all, index@, at as int, thread);
            assert(lookup(owners_before, thread) == thread_owner(all, index@, at as int, thread));
        }
        if let Some(thread) = &entry.row.thread_id {
            assert(lookup(owners@, thread@) == thread_owner(all, index@, at + 1, thread@));
            if let Some(owner) = owners.get(thread.as_str()) {
                if let Some(observation) = observe_entry(accounts, owner.as_str(), entry) {
                    assert(attributed(known, all, at as int, owner@) == Some(observation@));
                    note_observation(
                        &mut observations,
                        &mut resets,
                        owner.as_str(),
                        observation,
                    );
                }
            }
        }
        proof {
            assert forall|owner: Seq<char>| #[trigger]
                lookup(observations@, owner) == best_of(
                    observations_for(known, all, at + 1, owner),
                ) && lookup(resets@, owner) == latest_reset(
                    observations_for(known, all, at + 1, owner),
                ) by {
                let before = observations_for(known, all, at as int, owner);
                assert(lookup(observations_before, owner) == best_of(before));
                assert(lookup(resets_before, owner) == latest_reset(before));
                if let Some(observation) = attributed(known, all, at as int, owner) {
                    assert(before.push(observation).drop_last() =~= before);
                    assert(before.push(observation).last() == observation);
                }
            }
            assert forall|owner: Seq<char>| #[trigger]
                lookup(resets@, owner) == latest_reset(
                    observations_for(known, all, at + 1, owner),
                ) by {
                assert(lookup(observations@, owner) == best_of(
                    observations_for(known, all, at + 1, owner),
                ));
            }
        }
        at = at + 1;
    }
    let ghost best = observations.entries@;
    let ghost best_map = observations@;
    let count = observations.entries.len();
    let mut next: usize = 0;
    while next < count
        invariant
            count == observations.entries@.len() == best.len(),
            next <= count,
            forall|i: int|
                0 <= i < count ==> (#[trigger] observations.entries@[i]).0@ == best[i].0@,
            forall|i: int|
                0 <= i < next ==> (#[trigger] observations.entries@[i]).1@ == settled(
                    best[i].1@,
                    lookup(resets@, best[i].0@),
                ),
            forall|i: int|
                next <= i < count ==> (#[trigger] observations.entries@[i]).1@ == best[i].1@,
        decreases count - next,
    {
        let latest = match resets.get(observations.entries[next].0.as_str()) {
            Some(latest) => Some(*latest),
            None => None,
        };
        settle(&mut observations.entries[next].1, latest);
        next = next + 1;
    }
    proof {
        let wanted = log_observations(known, all);
        assert forall|owner: Seq<char>| #[trigger] observations@.contains_key(owner)
            == wanted.contains_key(owner) by {
            lemma_same_keys(best, observations.entries@, owner);
            assert(lookup(best_map, owner) == best_of(
                observations_for(known, all, all.len() as int, owner),
            ));
            lemma_best_exists(observations_for(known, all, all.len() as int, owner));
        }
        assert forall|owner: Seq<char>| #[trigger] observations@.contains_key(owner) implies observations@[owner]
            == wanted[owner] by {
            lemma_same_keys(best, observations.entries@, owner);
            lemma_entry_index(best, owner);
            assert(lookup(best_map, owner) == best_of(
                observations_for(known, all, all.len() as int, owner),
            ));
            assert(lookup(resets@, owner) == latest_reset(
                observations_for(known, all, all.len() as int, owner),
            ));
            assert(observations.entries@[entry_index(best, owner)].1@ == settled(
                best[entry_index(best, owner)].1@,
                lookup(resets@, owner),
            ));
        }
        assert(observations@ =~= wanted);
    }
    observations
}

/// The rows with the events that they hold.
fn read_events(rows: Vec<DirectCodexLogRow>) -> (entries: Vec<DirectCodexLogEntry>)
    ensures
        entries_of(entries@) == with_events(rows_of(rows@)),
{
    let ghost wanted = with_events(rows_of(rows@));
    let mut entries: Vec<DirectCodexLogEntry> = Vec::new();
    for row in iter: rows
        invariant
            iter.seq() == rows@,
            wanted == with_events(rows_of(rows@)),
            entries@.len() == iter.index(),
            forall|i: int| 0 <= i < entries@.len() ==> (#[trigger] entries@[i])@ == wanted[i],
    {
        let event = extract_websocket_event_value(row.body.as_str());
        entries.push(DirectCodexLogEntry { row, event });
    }
    assert(entries_of(entries@) =~= wanted);
    entries
}

/// For each account that log rows say something of, the observation that stands in the end.
pub fn latest_direct_quota_observations_from_codex_log_rows(
    accounts: &[CodexAccount],
    rows: Vec<DirectCodexLogRow>,
) -> (observations: TextMap<DirectQuotaObservation>)
    ensures
        observations@ == log_observations(
            accounts_of(accounts@),
            sorted_entries(with_events(rows_of(rows@))),
        ),
{
    latest_direct_quota_observations_from_log_entries(accounts, read_events(rows))
}

/// One of any observations stands in the end.
proof fn lemma_best_exists(observations: Seq<ObservationModel>)
    ensures
        (best_of(observations) is Some) == (observations.len() > 0),
    decreases observations.len(),
{
    if observations.len() > 1 {
        lemma_best_exists(observations.drop_last());
    }
}

} // verus!
