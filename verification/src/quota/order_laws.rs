//! The order in which rows and accounts are handed in does not matter.
use vstd::prelude::*;

use crate::models::codex::AccountModel;
use crate::quota::identity::{claims, identity_index, is_owner};
use crate::quota::logs::{
    attributed, is_stable_sort, lemma_sort_is_unique, lemma_with_id_rest, log_observations,
    observation_since, observations_for, since_for, sorted_entries, with_events, with_id, EntryModel,
    RowModel,
};

verus! {

/// The same elements, each as often as in the other sequence.
pub open spec fn is_permutation<A>(left: Seq<A>, right: Seq<A>) -> bool {
    left.to_multiset() == right.to_multiset()
}

/// No two entries have the same id.
pub open spec fn entries_differ(entries: Seq<EntryModel>) -> bool {
    forall|i: int, j: int|
        0 <= i < j < entries.len() ==> (#[trigger] entries[i]).row.id != (#[trigger] entries[j]).row.id
}

/// No two rows have the same id.
pub open spec fn rows_differ(rows: Seq<RowModel>) -> bool {
    forall|i: int, j: int|
        0 <= i < j < rows.len() ==> (#[trigger] rows[i]).id != (#[trigger] rows[j]).id
}

/// No two accounts have the same name.
pub open spec fn accounts_differ(accounts: Seq<AccountModel>) -> bool {
    forall|i: int, j: int|
        0 <= i < j < accounts.len() ==> (#[trigger] accounts[i]).id != (#[trigger] accounts[j]).id
}

/// What is in one sequence is in the other.
spec fn same_members<A>(left: Seq<A>, right: Seq<A>) -> bool {
    &&& forall|i: int| 0 <= i < left.len() ==> right.contains(#[trigger] left[i])
    &&& forall|i: int| 0 <= i < right.len() ==> left.contains(#[trigger] right[i])
}

/// A permutation has the same members, and each once where the other has each once.
proof fn lemma_permutation<A>(left: Seq<A>, right: Seq<A>)
    requires
        is_permutation(left, right),
        left.no_duplicates(),
    ensures
        same_members(left, right),
        right.no_duplicates(),
{
    broadcast use vstd::seq_lib::group_to_multiset_ensures;

    left.lemma_multiset_has_no_duplicates();
    right.lemma_multiset_has_no_duplicates_conv();
    assert forall|i: int| 0 <= i < left.len() implies right.contains(#[trigger] left[i]) by {
        assert(left.contains(left[i]));
        assert(left.to_multiset().count(left[i]) > 0);
        assert(right.to_multiset().count(left[i]) > 0);
    }
    assert forall|i: int| 0 <= i < right.len() implies left.contains(#[trigger] right[i]) by {
        assert(right.contains(right[i]));
        assert(right.to_multiset().count(right[i]) > 0);
        assert(left.to_multiset().count(right[i]) > 0);
    }
}

/// Of entries with different ids, the only one with an id.
proof fn lemma_single(entries: Seq<EntryModel>, id: i64)
    requires
        entries_differ(entries),
    ensures
        forall|i: int|
            0 <= i < entries.len() && (#[trigger] entries[i]).row.id == id ==> with_id(entries, id)
                == seq![entries[i]],
        (forall|i: int| 0 <= i < entries.len() ==> (#[trigger] entries[i]).row.id != id) ==> with_id(
            entries,
            id,
        ) == Seq::<EntryModel>::empty(),
    decreases entries.len(),
{
    if entries.len() == 0 {
        reveal(Seq::filter);
        assert(with_id(entries, id) =~= Seq::empty());
    } else {
        let rest = entries.skip(1);
        lemma_with_id_rest(entries, id);
        assert forall|i: int, j: int| 0 <= i < j < rest.len() implies (#[trigger] rest[i]).row.id != (
        #[trigger] rest[j]).row.id by {
            assert(rest[i] == entries[i + 1] && rest[j] == entries[j + 1]);
        }
        lemma_single(rest, id);
        if entries[0].row.id == id {
            assert forall|i: int| 0 <= i < rest.len() implies (#[trigger] rest[i]).row.id != id by {
                assert(rest[i] == entries[i + 1]);
            }
            assert(with_id(entries, id) =~= seq![entries[0]]);
        } else {
            assert forall|i: int|
                0 <= i < entries.len() && (#[trigger] entries[i]).row.id == id implies with_id(
                entries,
                id,
            ) == seq![entries[i]] by {
                assert(rest[i - 1] == entries[i]);
            }
            if forall|i: int| 0 <= i < entries.len() ==> (#[trigger] entries[i]).row.id != id {
                assert forall|i: int| 0 <= i < rest.len() implies (#[trigger] rest[i]).row.id
                    != id by {
                    assert(rest[i] == entries[i + 1]);
                }
            }
        }
    }
}

/// Entries with different ids that are the same but for their order have the same entries of each
/// id.
proof fn lemma_same_with_id(left: Seq<EntryModel>, right: Seq<EntryModel>, id: i64)
    requires
        same_members(left, right),
        entries_differ(left),
        entries_differ(right),
    ensures
        with_id(left, id) == with_id(right, id),
{
    lemma_single(left, id);
    lemma_single(right, id);
    if exists|i: int| 0 <= i < left.len() && (#[trigger] left[i]).row.id == id {
        let i = choose|i: int| 0 <= i < left.len() && (#[trigger] left[i]).row.id == id;
        assert(right.contains(left[i]));
        let j = choose|j: int| 0 <= j < right.len() && right[j] == left[i];
        assert(with_id(right, id) == seq![right[j]]);
    } else {
        assert forall|j: int| 0 <= j < right.len() implies (#[trigger] right[j]).row.id != id by {
            assert(left.contains(right[j]));
        }
    }
}

/// How many of the entries, which are in the order of their ids, have an id up to the given one.
spec fn place_of(sorted: Seq<EntryModel>, id: i64) -> int
    decreases sorted.len(),
{
    if sorted.len() == 0 || sorted.last().row.id <= id {
        sorted.len() as int
    } else {
        place_of(sorted.drop_last(), id)
    }
}

/// Those entries stand in front, the others behind.
proof fn lemma_place(sorted: Seq<EntryModel>, id: i64)
    requires
        forall|i: int, j: int| 0 <= i < j < sorted.len() ==> sorted[i].row.id <= sorted[j].row.id,
    ensures
        0 <= place_of(sorted, id) <= sorted.len(),
        forall|i: int| 0 <= i < place_of(sorted, id) ==> (#[trigger] sorted[i]).row.id <= id,
        forall|i: int| place_of(sorted, id) <= i < sorted.len() ==> (#[trigger] sorted[i]).row.id > id,
    decreases sorted.len(),
{
    if sorted.len() > 0 && sorted.last().row.id > id {
        let front = sorted.drop_last();
        lemma_place(front, id);
        assert forall|i: int| 0 <= i < place_of(sorted, id) implies (#[trigger] sorted[i]).row.id
            <= id by {
            assert(front[i] == sorted[i]);
        }
        assert forall|i: int| place_of(sorted, id) <= i < sorted.len() implies (
        #[trigger] sorted[i]).row.id > id by {
            if i < front.len() {
                assert(front[i] == sorted[i]);
            }
        }
    }
}

/// The entries with an id, in two parts.
proof fn lemma_with_id_parts(left: Seq<EntryModel>, right: Seq<EntryModel>, id: i64)
    ensures
        with_id(left + right, id) == with_id(left, id) + with_id(right, id),
{
    Seq::filter_distributes_over_add(left, right, |entry: EntryModel| entry.row.id == id);
}

/// Where no entry has an id, none is among those with it.
proof fn lemma_without_id(entries: Seq<EntryModel>, id: i64)
    requires
        forall|i: int| 0 <= i < entries.len() ==> (#[trigger] entries[i]).row.id != id,
    ensures
        with_id(entries, id) == Seq::<EntryModel>::empty(),
    decreases entries.len(),
{
    if entries.len() == 0 {
        reveal(Seq::filter);
        assert(with_id(entries, id) =~= Seq::empty());
    } else {
        lemma_with_id_rest(entries, id);
        assert forall|i: int| 0 <= i < entries.skip(1).len() implies (
        #[trigger] entries.skip(1)[i]).row.id != id by {
            assert(entries.skip(1)[i] == entries[i + 1]);
        }
        lemma_without_id(entries.skip(1), id);
    }
}

/// Entries can be put in the order of their ids, those with the same id in the order they had.
pub proof fn lemma_can_be_sorted(entries: Seq<EntryModel>) -> (sorted: Seq<EntryModel>)
    ensures
        is_stable_sort(entries, sorted),
    decreases entries.len(),
{
    if entries.len() == 0 {
        entries
    } else {
        let entry = entries.last();
        let before = lemma_can_be_sorted(entries.drop_last());
        lemma_place(before, entry.row.id);
        let at = place_of(before, entry.row.id);
        let front = before.take(at);
        let back = before.skip(at);
        let one = seq![entry];
        let sorted = front + one + back;
        assert forall|i: int, j: int| 0 <= i < j < sorted.len() implies sorted[i].row.id
            <= sorted[j].row.id by {
            if i < at {
                assert(sorted[i] == before[i]);
            } else if i > at {
                assert(sorted[i] == before[i - 1]);
            }
            if j < at {
                assert(sorted[j] == before[j]);
            } else if j > at {
                assert(sorted[j] == before[j - 1]);
            }
        }
        assert forall|id: i64| #[trigger] with_id(sorted, id) == with_id(entries, id) by {
            assert(entries =~= entries.drop_last() + one);
            assert(before =~= front + back);
            lemma_with_id_parts(entries.drop_last(), one, id);
            lemma_with_id_parts(front, back, id);
            lemma_with_id_parts(front + one, back, id);
            lemma_with_id_parts(front, one, id);
            assert(with_id(before, id) == with_id(entries.drop_last(), id));
            if id == entry.row.id {
                assert forall|i: int| 0 <= i < back.len() implies (#[trigger] back[i]).row.id
                    != id by {
                    assert(back[i] == before[at + i]);
                }
                lemma_without_id(back, id);
            } else {
                lemma_without_id(one, id);
            }
            assert(with_id(sorted, id) =~= with_id(entries, id));
        }
        sorted
    }
}

/// The entries in the order of their ids are in that order, and there is no other.
pub proof fn entries_have_one_order(entries: Seq<EntryModel>, sorted: Seq<EntryModel>)
    ensures
        is_stable_sort(entries, sorted_entries(entries)),
        is_stable_sort(entries, sorted) ==> sorted == sorted_entries(entries),
{
    let known = lemma_can_be_sorted(entries);
    assert(is_stable_sort(entries, known));
    if is_stable_sort(entries, sorted) {
        assert forall|id: i64| #[trigger]
            with_id(sorted, id) == with_id(sorted_entries(entries), id) by {
            assert(with_id(sorted, id) == with_id(entries, id));
            assert(with_id(sorted_entries(entries), id) == with_id(entries, id));
        }
        lemma_sort_is_unique(sorted, sorted_entries(entries));
    }
}

/// Entries that have the same entries of each id are in the same order when sorted.
proof fn lemma_same_sorted(left: Seq<EntryModel>, right: Seq<EntryModel>)
    requires
        forall|id: i64| #[trigger] with_id(left, id) == with_id(right, id),
    ensures
        sorted_entries(left) == sorted_entries(right),
{
    entries_have_one_order(left, sorted_entries(left));
    entries_have_one_order(right, sorted_entries(right));
    assert forall|id: i64| #[trigger]
        with_id(sorted_entries(left), id) == with_id(sorted_entries(right), id) by {
        assert(with_id(sorted_entries(left), id) == with_id(left, id));
        assert(with_id(sorted_entries(right), id) == with_id(right, id));
    }
    lemma_sort_is_unique(sorted_entries(left), sorted_entries(right));
}

/// Who owns an identity does not depend on the order of the accounts.
proof fn lemma_same_owner(
    left: Seq<AccountModel>,
    right: Seq<AccountModel>,
    key: Seq<char>,
    id: Seq<char>,
)
    requires
        same_members(left, right),
        is_owner(left, key, id),
    ensures
        is_owner(right, key, id),
{
    let i = choose|i: int|
        0 <= i < left.len() && #[trigger] left[i].id == id && claims(
            left[i],
            key,
        );
    assert(right.contains(left[i]));
    let j = choose|j: int| 0 <= j < right.len() && right[j] == left[i];
    assert(right[j].id == id);
    assert forall|j: int|
        0 <= j < right.len() && claims(
            #[trigger] right[j],
            key,
        ) implies right[j].id == id by {
        assert(left.contains(right[j]));
    }
}

/// Which identities belong to one account does not depend on the order of the accounts.
proof fn lemma_same_index(left: Seq<AccountModel>, right: Seq<AccountModel>)
    requires
        same_members(left, right),
    ensures
        identity_index(left) == identity_index(right),
{
    assert forall|key: Seq<char>, id: Seq<char>| #[trigger]
        is_owner(left, key, id) == is_owner(right, key, id) by {
        if is_owner(left, key, id) {
            lemma_same_owner(left, right, key, id);
        }
        if is_owner(right, key, id) {
            lemma_same_owner(right, left, key, id);
        }
    }
    assert forall|key: Seq<char>| identity_index(left).contains_key(key) implies identity_index(
        right,
    ).contains_key(key) && identity_index(left)[key] == identity_index(right)[key] by {
        let id = choose|id: Seq<char>| is_owner(left, key, id);
        assert(is_owner(right, key, id));
        let other = choose|id: Seq<char>| is_owner(right, key, id);
        assert(is_owner(right, key, other));
    }
    assert forall|key: Seq<char>| identity_index(right).contains_key(key) implies identity_index(
        left,
    ).contains_key(key) by {
        let id = choose|id: Seq<char>| is_owner(right, key, id);
        assert(is_owner(left, key, id));
    }
    assert(identity_index(left) =~= identity_index(right));
}

/// Of accounts with different names, since when observations count for the one of a name.
proof fn lemma_since(accounts: Seq<AccountModel>, id: Seq<char>)
    requires
        accounts_differ(accounts),
    ensures
        forall|i: int|
            0 <= i < accounts.len() && (#[trigger] accounts[i]).id == id ==> since_for(accounts, id)
                == observation_since(accounts[i]),
        (forall|i: int| 0 <= i < accounts.len() ==> (#[trigger] accounts[i]).id != id) ==> since_for(
            accounts,
            id,
        ) == 0,
    decreases accounts.len(),
{
    if accounts.len() > 0 && accounts.last().id != id {
        let front = accounts.drop_last();
        assert forall|i: int, j: int| 0 <= i < j < front.len() implies (#[trigger] front[i]).id != (
        #[trigger] front[j]).id by {
            assert(front[i] == accounts[i] && front[j] == accounts[j]);
        }
        lemma_since(front, id);
        assert forall|i: int| 0 <= i < accounts.len() && (#[trigger] accounts[i]).id
            == id implies since_for(accounts, id) == observation_since(accounts[i]) by {
            assert(front[i] == accounts[i]);
        }
        if forall|i: int| 0 <= i < accounts.len() ==> (#[trigger] accounts[i]).id != id {
            assert forall|i: int| 0 <= i < front.len() implies (#[trigger] front[i]).id != id by {
                assert(front[i] == accounts[i]);
            }
        }
    }
}

/// Since when observations count for an account does not depend on the order of the accounts.
proof fn lemma_same_since(left: Seq<AccountModel>, right: Seq<AccountModel>, id: Seq<char>)
    requires
        same_members(left, right),
        accounts_differ(left),
        accounts_differ(right),
    ensures
        since_for(left, id) == since_for(right, id),
{
    lemma_since(left, id);
    lemma_since(right, id);
    if exists|i: int| 0 <= i < left.len() && (#[trigger] left[i]).id == id {
        let i = choose|i: int| 0 <= i < left.len() && (#[trigger] left[i]).id == id;
        assert(right.contains(left[i]));
        let j = choose|j: int| 0 <= j < right.len() && right[j] == left[i];
        assert(right[j].id == id);
    } else {
        assert forall|j: int| 0 <= j < right.len() implies (#[trigger] right[j]).id != id by {
            assert(left.contains(right[j]));
        }
    }
}

/// What entries say of an account depends on the accounts by who owns which identity, and by since
/// when observations count for the account.
proof fn lemma_same_observations(
    left: Seq<AccountModel>,
    right: Seq<AccountModel>,
    entries: Seq<EntryModel>,
    count: int,
    owner: Seq<char>,
)
    requires
        identity_index(left) == identity_index(right),
        since_for(left, owner) == since_for(right, owner),
    ensures
        observations_for(left, entries, count, owner) == observations_for(
            right,
            entries,
            count,
            owner,
        ),
    decreases count,
{
    if count > 0 {
        lemma_same_observations(left, right, entries, count - 1, owner);
        assert(attributed(left, entries, count - 1, owner) == attributed(
            right,
            entries,
            count - 1,
            owner,
        ));
    }
}

/// What the accounts' entries say does not depend on the order of the accounts.
proof fn lemma_accounts_in_any_order(
    left: Seq<AccountModel>,
    right: Seq<AccountModel>,
    entries: Seq<EntryModel>,
)
    requires
        is_permutation(left, right),
        accounts_differ(left),
    ensures
        log_observations(left, entries) == log_observations(right, entries),
{
    assert(left.no_duplicates());
    lemma_permutation(left, right);
    assert forall|i: int, j: int| 0 <= i < j < right.len() implies (#[trigger] right[i]).id != (
    #[trigger] right[j]).id by {
        assert(left.contains(right[i]) && left.contains(right[j]));
        assert(right[i] != right[j]);
    }
    lemma_same_index(left, right);
    assert forall|owner: Seq<char>| #[trigger]
        observations_for(left, entries, entries.len() as int, owner) == observations_for(
            right,
            entries,
            entries.len() as int,
            owner,
        ) by {
        lemma_same_since(left, right, owner);
        lemma_same_observations(left, right, entries, entries.len() as int, owner);
    }
    assert(log_observations(left, entries) =~= log_observations(right, entries));
}

/// Entries with different ids are in the same order when sorted, in whatever order they are handed
/// in.
proof fn lemma_entries_in_any_order(left: Seq<EntryModel>, right: Seq<EntryModel>)
    requires
        same_members(left, right),
        right.no_duplicates(),
        entries_differ(left),
    ensures
        sorted_entries(left) == sorted_entries(right),
{
    assert forall|i: int, j: int| 0 <= i < j < right.len() implies (#[trigger] right[i]).row.id != (
    #[trigger] right[j]).row.id by {
        assert(left.contains(right[i]) && left.contains(right[j]));
        assert(right[i] != right[j]);
    }
    assert forall|id: i64| #[trigger] with_id(left, id) == with_id(right, id) by {
        lemma_same_with_id(left, right, id);
    }
    lemma_same_sorted(left, right);
}

/// What the entries of a log say of the accounts does not depend on the order in which entries and
/// accounts are handed in, where no two entries have the same id and no two accounts the same name.
pub proof fn order_does_not_matter(
    accounts: Seq<AccountModel>,
    other_accounts: Seq<AccountModel>,
    entries: Seq<EntryModel>,
    other_entries: Seq<EntryModel>,
)
    requires
        is_permutation(accounts, other_accounts),
        is_permutation(entries, other_entries),
        accounts_differ(accounts),
        entries_differ(entries),
    ensures
        log_observations(accounts, sorted_entries(entries)) == log_observations(
            other_accounts,
            sorted_entries(other_entries),
        ),
{
    assert(entries.no_duplicates());
    lemma_permutation(entries, other_entries);
    lemma_entries_in_any_order(entries, other_entries);
    lemma_accounts_in_any_order(accounts, other_accounts, sorted_entries(entries));
}

/// What the rows of a log say of the accounts does not depend on the order in which rows and accounts
/// are handed in, where no two rows have the same id and no two accounts the same name.
pub proof fn row_order_does_not_matter(
    accounts: Seq<AccountModel>,
    other_accounts: Seq<AccountModel>,
    rows: Seq<RowModel>,
    other_rows: Seq<RowModel>,
)
    requires
        is_permutation(accounts, other_accounts),
        is_permutation(rows, other_rows),
        accounts_differ(accounts),
        rows_differ(rows),
    ensures
        log_observations(accounts, sorted_entries(with_events(rows))) == log_observations(
            other_accounts,
            sorted_entries(with_events(other_rows)),
        ),
{
    assert(rows.no_duplicates());
    lemma_permutation(rows, other_rows);
    let entries = with_events(rows);
    let other_entries = with_events(other_rows);
    assert forall|i: int| 0 <= i < entries.len() implies other_entries.contains(
        #[trigger] entries[i],
    ) by {
        assert(other_rows.contains(rows[i]));
        let j = choose|j: int| 0 <= j < other_rows.len() && other_rows[j] == rows[i];
        assert(other_entries[j] == entries[i]);
    }
    assert forall|i: int| 0 <= i < other_entries.len() implies entries.contains(
        #[trigger] other_entries[i],
    ) by {
        assert(rows.contains(other_rows[i]));
        let j = choose|j: int| 0 <= j < rows.len() && rows[j] == other_rows[i];
        assert(entries[j] == other_entries[i]);
    }
    assert forall|i: int, j: int|
        0 <= i < other_entries.len() && 0 <= j < other_entries.len() && i
            != j implies other_entries[i] != other_entries[j] by {
        assert(other_entries[i].row == other_rows[i] && other_entries[j].row == other_rows[j]);
        assert(other_rows[i] != other_rows[j]);
    }
    assert forall|i: int, j: int| 0 <= i < j < entries.len() implies (#[trigger] entries[i]).row.id
        != (#[trigger] entries[j]).row.id by {
        assert(entries[i].row == rows[i] && entries[j].row == rows[j]);
    }
    lemma_entries_in_any_order(entries, other_entries);
    lemma_accounts_in_any_order(accounts, other_accounts, sorted_entries(entries));
}

} // verus!
