//! Whose log it is: the identities that accounts claim and that log bodies name.
use vstd::prelude::*;

use crate::models::codex::{accounts_of, AccountModel, CodexAccount};
use crate::numbers::first_some;
use crate::text::{
    after_first, as_text, before_first, joined, lower_of, opt_str, opt_text, same_text, split_once,
    to_ascii_lowercase, trim, trim_of,
};
use crate::text_map::{entry_index, lemma_entry_index, TextMap};

verus! {

/// The key of an identity of some kind, unless its value is blank. Case and outer white space of
/// the value play no part.
pub open spec fn identity_key(kind: Seq<char>, value: Seq<char>) -> Option<Seq<char>> {
    let value = trim_of(value);
    if value.len() == 0 {
        None
    } else {
        Some(kind + ":"@ + lower_of(value))
    }
}

/// The key of an optional identity.
pub open spec fn identity_key_in(kind: Seq<char>, value: Option<Seq<char>>) -> Option<Seq<char>> {
    match value {
        Some(value) => identity_key(kind, value),
        None => None,
    }
}

/// The key of an identity of some kind.
pub fn direct_identity_key(kind: &str, value: &str) -> (key: Option<String>)
    ensures
        opt_text(key) == identity_key(kind@, value@),
{
    let value = trim(value);
    if value.is_empty() {
        return None;
    }
    let mut key = joined(kind, ":");
    key.append(to_ascii_lowercase(value).as_str());
    Some(key)
}

/// The key of an optional identity.
fn optional_identity_key(kind: &str, value: Option<&str>) -> (key: Option<String>)
    ensures
        opt_text(key) == identity_key_in(kind@, opt_str(value)),
{
    match value {
        Some(value) => direct_identity_key(kind, value),
        None => None,
    }
}

/// The account goes by an identity.
pub open spec fn claims(account: AccountModel, key: Seq<char>) -> bool {
    ||| identity_key_in("account_id"@, account.account_id) == Some(key)
    ||| identity_key("email"@, account.email) == Some(key)
    ||| identity_key_in("user_id"@, account.user_id) == Some(key)
}

/// The identity is that of the account `id`: an account of that name goes by it, and none of
/// another name does.
pub open spec fn is_owner(accounts: Seq<AccountModel>, key: Seq<char>, id: Seq<char>) -> bool {
    &&& exists|i: int| 0 <= i < accounts.len() && #[trigger] accounts[i].id == id && claims(
        accounts[i],
        key,
    )
    &&& forall|i: int|
        0 <= i < accounts.len() && claims(#[trigger] accounts[i], key) ==> accounts[i].id == id
}

/// The identities that belong to one account, each with the name of that account.
pub open spec fn identity_index(accounts: Seq<AccountModel>) -> Map<Seq<char>, Seq<char>> {
    Map::new(
        |key: Seq<char>| exists|id: Seq<char>| is_owner(accounts, key, id),
        |key: Seq<char>| choose|id: Seq<char>| is_owner(accounts, key, id),
    )
}

/// An identity that accounts of two names go by belongs to neither.
pub proof fn ambiguous_identity_has_no_owner(
    accounts: Seq<AccountModel>,
    key: Seq<char>,
    first: int,
    second: int,
)
    requires
        0 <= first < accounts.len(),
        0 <= second < accounts.len(),
        claims(accounts[first], key),
        claims(accounts[second], key),
        accounts[first].id != accounts[second].id,
    ensures
        !identity_index(accounts).contains_key(key),
{
}

/// An identity that some account goes by, and none of another name, belongs to that account.
pub proof fn unambiguous_identity_has_its_owner(
    accounts: Seq<AccountModel>,
    key: Seq<char>,
    at: int,
)
    requires
        0 <= at < accounts.len(),
        claims(accounts[at], key),
        forall|i: int|
            0 <= i < accounts.len() && claims(#[trigger] accounts[i], key) ==> accounts[i].id
                == accounts[at].id,
    ensures
        identity_index(accounts).contains_key(key),
        identity_index(accounts)[key] == accounts[at].id,
{
    assert(is_owner(accounts, key, accounts[at].id));
    let id = choose|id: Seq<char>| is_owner(accounts, key, id);
    assert(is_owner(accounts, key, id));
}

/// Who goes by an identity: one account, or several of different names.
#[derive(Debug)]
pub enum IdentityClaim {
    One(String),
    Several,
}

impl View for IdentityClaim {
    type V = Option<Seq<char>>;

    open spec fn view(&self) -> Option<Seq<char>> {
        match self {
            IdentityClaim::One(id) => Some(id@),
            IdentityClaim::Several => None,
        }
    }
}

/// The claims with one more added: an identity that is claimed under another name belongs to
/// nobody.
pub open spec fn with_claim(
    index: Map<Seq<char>, Option<Seq<char>>>,
    key: Option<Seq<char>>,
    id: Seq<char>,
) -> Map<Seq<char>, Option<Seq<char>>> {
    match key {
        Some(key) => if !index.contains_key(key) {
            index.insert(key, Some(id))
        } else if index[key] == Some(id) {
            index
        } else {
            index.insert(key, None)
        },
        None => index,
    }
}

/// Adds a claim.
pub fn insert_direct_identity_mapping(
    index: &mut TextMap<IdentityClaim>,
    key: Option<String>,
    account_id: &str,
)
    ensures
        final(index)@ == with_claim(old(index)@, opt_text(key), account_id@),
{
    let key = match key {
        Some(key) => key,
        None => {
            return;
        },
    };
    let claim = match index.get(key.as_str()) {
        Some(existing) => match existing {
            IdentityClaim::One(id) => if same_text(id.as_str(), account_id) {
                return;
            } else {
                IdentityClaim::Several
            },
            IdentityClaim::Several => IdentityClaim::Several,
        },
        None => IdentityClaim::One(account_id.to_owned()),
    };
    index.insert(key.as_str(), claim);
}

/// The account in the given place claims the identity.
spec fn claimed_at(accounts: Seq<AccountModel>, key: Seq<char>, at: int) -> bool {
    0 <= at < accounts.len() && claims(accounts[at], key)
}

/// The claims of the given accounts on an identity are those that `claim` sums up.
spec fn sums_up(
    accounts: Seq<AccountModel>,
    key: Seq<char>,
    claimed: bool,
    claim: Option<Seq<char>>,
) -> bool {
    &&& claimed <==> exists|i: int| claimed_at(accounts, key, i)
    &&& claimed && claim is Some ==> forall|i: int| #[trigger]
        claimed_at(accounts, key, i) ==> accounts[i].id == claim->0
    &&& claimed && claim is None ==> exists|i: int, j: int| #[trigger]
        claimed_at(accounts, key, i) && #[trigger] claimed_at(accounts, key, j) && accounts[i].id
            != accounts[j].id
}

/// The claims of one more account are summed up by adding its keys.
#[verifier::spinoff_prover]
proof fn lemma_sums_up(
    accounts: Seq<AccountModel>,
    at: int,
    before: Map<Seq<char>, Option<Seq<char>>>,
    after: Map<Seq<char>, Option<Seq<char>>>,
    key: Seq<char>,
)
    requires
        0 <= at < accounts.len(),
        sums_up(accounts.take(at), key, before.contains_key(key), before[key]),
        ({
            let account = accounts[at];
            after == with_claim(
                with_claim(
                    with_claim(
                        before,
                        identity_key_in("account_id"@, account.account_id),
                        account.id,
                    ),
                    identity_key("email"@, account.email),
                    account.id,
                ),
                identity_key_in("user_id"@, account.user_id),
                account.id,
            )
        }),
    ensures
        sums_up(accounts.take(at + 1), key, after.contains_key(key), after[key]),
{
    let old_ones = accounts.take(at);
    let new_ones = accounts.take(at + 1);
    let account = accounts[at];
    assert forall|i: int| claimed_at(old_ones, key, i) implies #[trigger] claimed_at(
        new_ones,
        key,
        i,
    ) && new_ones[i] == old_ones[i] by {}
    assert forall|i: int| #[trigger] claimed_at(new_ones, key, i) && i < at implies claimed_at(
        old_ones,
        key,
        i,
    ) && new_ones[i] == old_ones[i] by {}
    assert(new_ones[at] == account);
    let claimed = claims(account, key);
    if claimed {
        assert(claimed_at(new_ones, key, at));
        assert(after.contains_key(key));
        if !before.contains_key(key) {
            assert(after[key] == Some(account.id));
            assert forall|i: int| #[trigger] claimed_at(new_ones, key, i) implies new_ones[i].id
                == account.id by {
                assert(i == at);
            }
        } else if before[key] == Some(account.id) {
            assert(after[key] == Some(account.id));
        } else {
            assert(after[key] is None);
            if before[key] is Some {
                let i = choose|i: int| claimed_at(old_ones, key, i);
                assert(claimed_at(new_ones, key, i));
                assert(new_ones[i].id != new_ones[at].id);
            } else {
                let (i, j) = choose|i: int, j: int| #[trigger]
                    claimed_at(old_ones, key, i) && #[trigger] claimed_at(old_ones, key, j)
                        && old_ones[i].id != old_ones[j].id;
                assert(claimed_at(new_ones, key, i) && claimed_at(new_ones, key, j));
                assert(new_ones[i].id != new_ones[j].id);
            }
        }
    } else {
        assert(!claimed_at(new_ones, key, at));
        assert(after.contains_key(key) == before.contains_key(key));
        if before.contains_key(key) {
            assert(after[key] == before[key]);
            let i = choose|i: int| claimed_at(old_ones, key, i);
            assert(claimed_at(new_ones, key, i));
            if before[key] is None {
                let (i, j) = choose|i: int, j: int| #[trigger]
                    claimed_at(old_ones, key, i) && #[trigger] claimed_at(old_ones, key, j)
                        && old_ones[i].id != old_ones[j].id;
                assert(claimed_at(new_ones, key, i) && claimed_at(new_ones, key, j));
                assert(new_ones[i].id != new_ones[j].id);
            }
        }
    }
}

/// Claims that are summed up tell the owner of an identity.
proof fn lemma_owner(
    accounts: Seq<AccountModel>,
    key: Seq<char>,
    claimed: bool,
    claim: Option<Seq<char>>,
)
    requires
        sums_up(accounts, key, claimed, claim),
    ensures
        identity_index(accounts).contains_key(key) == (claimed && claim is Some),
        claimed && claim is Some ==> identity_index(accounts)[key] == claim->0,
{
    if claimed && claim is Some {
        let i = choose|i: int| claimed_at(accounts, key, i);
        assert(claimed_at(accounts, key, i));
        assert forall|j: int|
            0 <= j < accounts.len() && claims(#[trigger] accounts[j], key) implies accounts[j].id
            == accounts[i].id by {
            assert(claimed_at(accounts, key, j));
        }
        unambiguous_identity_has_its_owner(accounts, key, i);
    } else if claimed {
        let (i, j) = choose|i: int, j: int| #[trigger]
            claimed_at(accounts, key, i) && #[trigger] claimed_at(accounts, key, j) && accounts[i].id
                != accounts[j].id;
        ambiguous_identity_has_no_owner(accounts, key, i, j);
    } else {
        assert forall|id: Seq<char>| !is_owner(accounts, key, id) by {
            if is_owner(accounts, key, id) {
                let i = choose|i: int|
                    0 <= i < accounts.len() && #[trigger] accounts[i].id == id && claims(
                        accounts[i],
                        key,
                    );
                assert(claimed_at(accounts, key, i));
            }
        }
    }
}

/// One of the first `count` entries is for the key.
spec fn listed<V>(entries: Seq<(String, V)>, key: Seq<char>, count: int) -> bool {
    exists|i: int| 0 <= i < count && (#[trigger] entries[i]).0@ == key
}

/// A map has a value for the keys of its entries.
proof fn lemma_listed<V>(entries: Seq<(String, V)>, key: Seq<char>)
    ensures
        listed(entries, key, entries.len() as int) == (entry_index(entries, key) < entries.len()),
{
    lemma_entry_index(entries, key);
    let at = entry_index(entries, key);
    if at < entries.len() {
        assert(entries[at].0@ == key);
    }
}

/// The identities that belong to one account, each with the name of that account.
#[verifier::spinoff_prover]
pub fn direct_account_identity_index(accounts: &[CodexAccount]) -> (index: TextMap<String>)
    ensures
        index@ == identity_index(accounts_of(accounts@)),
{
    let ghost all = accounts_of(accounts@);
    let mut index: TextMap<IdentityClaim> = TextMap::new();
    let total = accounts.len();
    let mut at: usize = 0;
    while at < total
        invariant
            total == accounts@.len() == all.len(),
            all == accounts_of(accounts@),
            at <= total,
            forall|key: Seq<char>|
                sums_up(
                    all.take(at as int),
                    key,
                    #[trigger] index@.contains_key(key),
                    index@[key],
                ),
        decreases total - at,
    {
        let account = &accounts[at];
        let ghost before = index@;
        assert(all[at as int] == account@);
        insert_direct_identity_mapping(
            &mut index,
            optional_identity_key("account_id", as_text(&account.account_id)),
            account.id.as_str(),
        );
        insert_direct_identity_mapping(
            &mut index,
            direct_identity_key("email", account.email.as_str()),
            account.id.as_str(),
        );
        insert_direct_identity_mapping(
            &mut index,
            optional_identity_key("user_id", as_text(&account.user_id)),
            account.id.as_str(),
        );
        assert forall|key: Seq<char>|
            sums_up(all.take(at + 1), key, #[trigger] index@.contains_key(key), index@[key]) by {
            assert(sums_up(all.take(at as int), key, before.contains_key(key), before[key]));
            lemma_sums_up(all, at as int, before, index@, key);
        }
        at = at + 1;
    }
    assert(all.take(at as int) =~= all);
    let mut owners: TextMap<String> = TextMap::new();
    let count = index.entries.len();
    let mut next: usize = 0;
    while next < count
        invariant
            count == index.entries@.len(),
            next <= count,
            forall|key: Seq<char>| #[trigger]
                owners@.contains_key(key) <==> listed(index.entries@, key, next as int)
                    && index@[key] is Some,
            forall|key: Seq<char>| #[trigger]
                owners@.contains_key(key) ==> owners@[key] == index@[key]->0,
        decreases count - next,
    {
        let key = index.entries[next].0.as_str();
        proof {
            lemma_listed(index.entries@, key@);
            assert forall|other: Seq<char>| #[trigger]
                listed(index.entries@, other, next + 1) == (listed(
                    index.entries@,
                    other,
                    next as int,
                ) || other == key@) by {
                assert(index.entries@[next as int].0@ == key@);
                if listed(index.entries@, other, next as int) {
                    let i = choose|i: int| 0 <= i < next && index.entries@[i].0@ == other;
                    assert(index.entries@[i].0@ == other);
                }
            }
            assert(listed(index.entries@, key@, next + 1));
        }
        if let Some(claim) = index.get(key) {
            match claim {
                IdentityClaim::One(id) => {
                    owners.insert(key, id.clone());
                },
                IdentityClaim::Several => {},
            }
        }
        next = next + 1;
    }
    proof {
        assert forall|key: Seq<char>| #[trigger] owners@.contains_key(key) == identity_index(
            all,
        ).contains_key(key) by {
            lemma_listed(index.entries@, key);
            assert(sums_up(all, key, index@.contains_key(key), index@[key]));
            lemma_owner(all, key, index@.contains_key(key), index@[key]);
        }
        assert forall|key: Seq<char>| #[trigger] owners@.contains_key(key) implies owners@[key]
            == identity_index(all)[key] by {
            lemma_listed(index.entries@, key);
            assert(sums_up(all, key, index@.contains_key(key), index@[key]));
            lemma_owner(all, key, index@.contains_key(key), index@[key]);
        }
        assert(owners@ =~= identity_index(all));
    }
    owners
}

/// The value of an attribute in a log body: what stands in quotes behind its first mention, unless
/// that is blank.
pub open spec fn log_attribute(body: Seq<char>, name: Seq<char>) -> Option<Seq<char>> {
    match after_first(body, name + "=\""@) {
        Some(tail) => match before_first(tail, "\""@) {
            Some(value) => if trim_of(value).len() == 0 {
                None
            } else {
                Some(trim_of(value))
            },
            None => None,
        },
        None => None,
    }
}

/// The value of an attribute in a log body.
pub fn extract_quoted_log_attribute(body: &str, name: &str) -> (value: Option<String>)
    ensures
        opt_text(value) == log_attribute(body@, name@),
{
    let marker = joined(name, "=\"");
    match split_once(body, marker.as_str()) {
        Some((_, tail)) => match split_once(tail, "\"") {
            Some((value, _)) => {
                let value = trim(value);
                if value.is_empty() {
                    None
                } else {
                    Some(value.to_owned())
                }
            },
            None => None,
        },
        None => None,
    }
}

/// The owner of the identity that a log body names under an attribute.
pub open spec fn attribute_owner(
    body: Seq<char>,
    kind: Seq<char>,
    name: Seq<char>,
    index: Map<Seq<char>, Seq<char>>,
) -> Option<Seq<char>> {
    match identity_key_in(kind, log_attribute(body, name)) {
        Some(key) => if index.contains_key(key) {
            Some(index[key])
        } else {
            None
        },
        None => None,
    }
}

/// The account that a log body names: by its id, else by its email, else by its user.
pub open spec fn log_owner(body: Seq<char>, index: Map<Seq<char>, Seq<char>>) -> Option<Seq<char>> {
    first_some(
        attribute_owner(body, "account_id"@, "user.account_id"@, index),
        first_some(
            attribute_owner(body, "email"@, "user.email"@, index),
            attribute_owner(body, "user_id"@, "user.id"@, index),
        ),
    )
}

/// The owner of the identity that a log body names under an attribute.
fn find_attribute_owner<'a>(body: &str, kind: &str, name: &str, index: &'a TextMap<String>) -> (owner:
    Option<&'a String>)
    ensures
        attribute_owner(body@, kind@, name@, index@) == (match owner {
            Some(owner) => Some(owner@),
            None => None,
        }),
{
    let value = extract_quoted_log_attribute(body, name);
    match optional_identity_key(kind, as_text(&value)) {
        Some(key) => index.get(key.as_str()),
        None => None,
    }
}

/// The account that a log body names.
pub fn account_id_from_codex_log_identity(body: &str, identity_index: &TextMap<String>) -> (account_id:
    Option<String>)
    ensures
        opt_text(account_id) == log_owner(body@, identity_index@),
{
    if let Some(owner) = find_attribute_owner(body, "account_id", "user.account_id", identity_index) {
        return Some(owner.clone());
    }
    if let Some(owner) = find_attribute_owner(body, "email", "user.email", identity_index) {
        return Some(owner.clone());
    }
    match find_attribute_owner(body, "user_id", "user.id", identity_index) {
        Some(owner) => Some(owner.clone()),
        None => None,
    }
}

} // verus!
