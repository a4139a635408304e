//! What holds of identities: which belong to an account, and which account a log body names.
use vstd::prelude::*;

use crate::models::codex::AccountModel;
use crate::quota::identity::{
    attribute_owner, claims, identity_index, identity_key, identity_key_in, log_attribute, log_owner,
};
use crate::text::{after_first, before_first, has_text, lower_of, trim_of};

verus! {

/// Case and white space around it play no part in an identity, and a blank one is none.
pub proof fn identities_are_told_without_case(kind: Seq<char>, left: Seq<char>, right: Seq<char>)
    ensures
        trim_of(left).len() == 0 ==> identity_key(kind, left) is None,
        trim_of(left).len() > 0 ==> identity_key(kind, left) is Some,
        trim_of(left).len() > 0 && trim_of(right).len() > 0 && lower_of(trim_of(left)) == lower_of(
            trim_of(right),
        ) ==> identity_key(kind, left) == identity_key(kind, right),
        identity_key_in(kind, None) is None,
        identity_key_in(kind, Some(left)) == identity_key(kind, left),
{
}

/// Different identities of a kind have different keys.
pub proof fn different_identities_are_told_apart(
    kind: Seq<char>,
    left: Seq<char>,
    right: Seq<char>,
)
    requires
        identity_key(kind, left) is Some,
        identity_key(kind, left) == identity_key(kind, right),
    ensures
        lower_of(trim_of(left)) == lower_of(trim_of(right)),
{
    let head = kind + ":"@;
    let key = identity_key(kind, left)->0;
    assert(key.skip(head.len() as int) =~= lower_of(trim_of(left)));
    assert(key.skip(head.len() as int) =~= lower_of(trim_of(right)));
}

/// Identities of different kinds are never the same: an account, a user and an email are told apart even
/// where they are spelled alike.
pub proof fn kinds_of_identities_are_told_apart(left: Seq<char>, right: Seq<char>)
    ensures
        identity_key("account_id"@, left) is Some ==> identity_key("account_id"@, left)
            != identity_key("email"@, right) && identity_key("account_id"@, left) != identity_key(
            "user_id"@,
            right,
        ),
        identity_key("email"@, left) is Some ==> identity_key("email"@, left) != identity_key(
            "user_id"@,
            right,
        ),
{
    reveal_strlit("account_id");
    reveal_strlit("email");
    reveal_strlit("user_id");
    if let Some(key) = identity_key("account_id"@, left) {
        assert(key[0] == 'a');
        if let Some(other) = identity_key("email"@, right) {
            assert(other[0] == 'e');
        }
        if let Some(other) = identity_key("user_id"@, right) {
            assert(other[0] == 'u');
        }
    }
    if let Some(key) = identity_key("email"@, left) {
        assert(key[0] == 'e');
        if let Some(other) = identity_key("user_id"@, right) {
            assert(other[0] == 'u');
        }
    }
}

/// An account goes by its account id, its email and its user id, and by nothing else.
pub proof fn accounts_go_by_three_identities(account: AccountModel, key: Seq<char>)
    ensures
        identity_key("email"@, account.email) == Some(key) ==> claims(account, key),
        account.account_id matches Some(id) && identity_key("account_id"@, id) == Some(key)
            ==> claims(account, key),
        account.user_id matches Some(id) && identity_key("user_id"@, id) == Some(key) ==> claims(
            account,
            key,
        ),
        claims(account, key) ==> {
            ||| identity_key("email"@, account.email) == Some(key)
            ||| account.account_id matches Some(id) && identity_key("account_id"@, id) == Some(key)
            ||| account.user_id matches Some(id) && identity_key("user_id"@, id) == Some(key)
        },
{
}

/// The value of an attribute is what stands in quotes behind its first mention, without white space
/// around it; a blank one, or one without a closing quote, is none.
pub proof fn attributes_stand_in_quotes(body: Seq<char>, name: Seq<char>)
    ensures
        !has_text(body, name + "=\""@) ==> log_attribute(body, name) is None,
        after_first(body, name + "=\""@) matches Some(tail) ==> {
            &&& before_first(tail, "\""@) is None ==> log_attribute(body, name) is None
            &&& before_first(tail, "\""@) matches Some(value) ==> {
                &&& trim_of(value).len() > 0 ==> log_attribute(body, name) == Some(trim_of(value))
                &&& trim_of(value).len() == 0 ==> log_attribute(body, name) is None
            }
        },
{
}

/// An attribute names the account that its identity belongs to, if it belongs to one.
pub proof fn attributes_name_their_owner(
    body: Seq<char>,
    kind: Seq<char>,
    name: Seq<char>,
    index: Map<Seq<char>, Seq<char>>,
)
    ensures
        log_attribute(body, name) is None ==> attribute_owner(body, kind, name, index) is None,
        log_attribute(body, name) matches Some(value) ==> {
            &&& identity_key(kind, value) is None ==> attribute_owner(body, kind, name, index) is None
            &&& identity_key(kind, value) matches Some(key) ==> (if index.contains_key(key) {
                attribute_owner(body, kind, name, index) == Some(index[key])
            } else {
                attribute_owner(body, kind, name, index) is None
            })
        },
{
}

/// A log body names an account by its account id; or else by its email; or else by its user.
pub proof fn account_is_named_by_its_id_first(body: Seq<char>, index: Map<Seq<char>, Seq<char>>)
    ensures
        ({
            let by_id = attribute_owner(body, "account_id"@, "user.account_id"@, index);
            let by_email = attribute_owner(body, "email"@, "user.email"@, index);
            let by_user = attribute_owner(body, "user_id"@, "user.id"@, index);
            &&& by_id is Some ==> log_owner(body, index) == by_id
            &&& by_id is None && by_email is Some ==> log_owner(body, index) == by_email
            &&& by_id is None && by_email is None ==> log_owner(body, index) == by_user
        }),
{
}

/// An identity that no account goes by belongs to nobody.
pub proof fn unclaimed_identity_has_no_owner(accounts: Seq<AccountModel>, key: Seq<char>)
    requires
        forall|i: int| 0 <= i < accounts.len() ==> !claims(#[trigger] accounts[i], key),
    ensures
        !identity_index(accounts).contains_key(key),
{
}

} // verus!
