//! What holds of the refresh of an account's quota: what each event leads to, and what is on record in
//! the end.
use vstd::prelude::*;

use crate::models::codex::{AccountModel, CodexAuthMode, QuotaModel};
use crate::quota::apply::{keeps_exhaustion, revised_by_session};
use crate::quota::direct::ObservationModel;
use crate::quota::provider::is_cockpit_account;
use crate::quota::refresh::{
    authorization_of, refresh_step, request_account, token_error_text, with_subscription,
    ActionModel, EventModel, PhaseModel, RefreshModel,
};
use crate::quota::snapshot::with_fetch_error;

verus! {

/// A refresh of the account that has come to a phase.
pub open spec fn refresh_at(account: AccountModel, phase: PhaseModel) -> RefreshModel {
    RefreshModel { account, phase }
}

/// After a lookup that succeeded, the account that is to be saved has the quota that was looked up, as
/// of that time, and no quota error, whatever was on record before; its plan is the one that was told,
/// if one was; and nothing else of it has changed.
pub proof fn successful_lookup_is_saved(
    account: AccountModel,
    quota: QuotaModel,
    plan_type: Option<Seq<char>>,
    now: i64,
)
    ensures
        ({
            let (after, action) = refresh_step(
                refresh_at(account, PhaseModel::Fetching),
                EventModel::Fetched { quota, plan_type },
                now,
            );
            &&& after.phase == PhaseModel::SavingQuota
            &&& after.account.quota == Some(quota)
            &&& after.account.quota_error is None
            &&& after.account.usage_updated_at == Some(now)
            &&& plan_type is Some ==> after.account.plan_type == plan_type
            &&& plan_type is None ==> after.account.plan_type == account.plan_type
            &&& after.account == AccountModel {
                quota: after.account.quota,
                quota_error: after.account.quota_error,
                usage_updated_at: after.account.usage_updated_at,
                plan_type: after.account.plan_type,
                ..account
            }
            &&& action == ActionModel::Save {
                index_changed: plan_type is Some && plan_type != account.plan_type,
            }
        }),
{
    if plan_type is Some && plan_type != account.plan_type {
        assert(with_subscription(account, plan_type, None).plan_type != account.plan_type);
    } else {
        assert(with_subscription(account, plan_type, None) == account);
    }
}

/// A refresh whose lookup succeeded ends with the quota that was looked up, once the account is saved,
/// which then has that quota and no quota error; and it fails if the account cannot be saved.
pub proof fn refresh_ends_with_what_was_looked_up(
    account: AccountModel,
    quota: QuotaModel,
    plan_type: Option<Seq<char>>,
    now: i64,
    later: i64,
    message: Seq<char>,
)
    ensures
        ({
            let fetched = refresh_step(
                refresh_at(account, PhaseModel::Fetching),
                EventModel::Fetched { quota, plan_type },
                now,
            );
            let saved = refresh_step(fetched.0, EventModel::Saved, later);
            let not_saved = refresh_step(fetched.0, EventModel::NotSaved { message }, later);
            &&& saved.1 == ActionModel::Succeed(quota)
            &&& saved.0.phase == PhaseModel::Finished
            &&& saved.0.account == fetched.0.account
            &&& saved.0.account.quota == Some(quota)
            &&& saved.0.account.quota_error is None
            &&& not_saved.1 == ActionModel::Fail(message)
            &&& not_saved.0.phase == PhaseModel::Finished
        }),
{
}

/// A refresh begins with a look at the sessions, or with the tokens if they have expired, and leaves
/// the account as it is; the tokens play no part for an account that signs in with an API key.
pub proof fn refresh_begins_by_the_way_of_signing_in(
    account: AccountModel,
    token_expired: bool,
    now: i64,
)
    ensures
        ({
            let (after, action) = refresh_step(
                refresh_at(account, PhaseModel::Prepared),
                EventModel::Begin { token_expired },
                now,
            );
            &&& account.auth_mode == CodexAuthMode::OAuth ==> {
                &&& after.account == account
                &&& token_expired ==> action == ActionModel::RefreshTokens && after.phase
                    == PhaseModel::RefreshingTokens
                &&& !token_expired ==> action == ActionModel::ScanSessions && after.phase
                    == PhaseModel::ScanningSessions
            }
            &&& account.auth_mode == CodexAuthMode::ApiKey && is_cockpit_account(account) ==> {
                &&& after.account == account
                &&& action == ActionModel::FetchFromProvider
                &&& after.phase == PhaseModel::Fetching
            }
        }),
{
}

/// An account that signs in with an API key, and is not of the Cockpit API, has nothing known of its
/// quota after a refresh, which fails, whether or not the account could be saved.
pub proof fn other_keys_have_no_quota(
    account: AccountModel,
    token_expired: bool,
    now: i64,
    saved: EventModel,
    later: i64,
)
    requires
        account.auth_mode == CodexAuthMode::ApiKey,
        !is_cockpit_account(account),
        saved is Saved || saved is NotSaved,
    ensures
        ({
            let begun = refresh_step(
                refresh_at(account, PhaseModel::Prepared),
                EventModel::Begin { token_expired },
                now,
            );
            let ended = refresh_step(begun.0, saved, later);
            &&& begun.1 == (ActionModel::Save { index_changed: false })
            &&& begun.0.account.quota is None
            &&& begun.0.account.quota_error is None
            &&& begun.0.account.usage_updated_at is None
            &&& begun.0.account == AccountModel {
                quota: None,
                quota_error: None,
                usage_updated_at: None,
                ..account
            }
            &&& ended.1 == ActionModel::Fail("API Key 账号不支持刷新配额，请在网页端查看。"@)
            &&& ended.0.phase == PhaseModel::Finished
            &&& ended.0.account == begun.0.account
        }),
{
}

/// Once the tokens are refreshed, the refresh goes on with the account that has them, and the end of
/// its subscription where the new token tells it; it is saved, and then its sessions are looked at; a
/// refresh whose tokens cannot be saved fails.
pub proof fn refreshed_tokens_are_saved(
    account: AccountModel,
    refreshed: AccountModel,
    active_until: Option<Seq<char>>,
    now: i64,
    later: i64,
    message: Seq<char>,
)
    ensures
        ({
            let (after, action) = refresh_step(
                refresh_at(account, PhaseModel::RefreshingTokens),
                EventModel::TokensRefreshed { account: refreshed, active_until },
                now,
            );
            let saved = refresh_step(after, EventModel::Saved, later);
            let not_saved = refresh_step(after, EventModel::NotSaved { message }, later);
            &&& active_until is Some ==> after.account.subscription_active_until == active_until
            &&& active_until is None ==> after.account == refreshed
            &&& after.account == AccountModel {
                subscription_active_until: after.account.subscription_active_until,
                ..refreshed
            }
            &&& action == ActionModel::Save {
                index_changed: active_until is Some && active_until
                    != refreshed.subscription_active_until,
            }
            &&& saved.1 == ActionModel::ScanSessions
            &&& saved.0 == refresh_at(after.account, PhaseModel::ScanningSessions)
            &&& not_saved.1 == ActionModel::Fail(message)
            &&& not_saved.0.phase == PhaseModel::Finished
        }),
{
    let after = with_subscription(refreshed, None, active_until);
    if active_until is Some && active_until != refreshed.subscription_active_until {
        assert(after.subscription_active_until != refreshed.subscription_active_until);
    } else {
        assert(after == refreshed);
    }
}

/// A refresh whose tokens could not be refreshed fails with the reason, which is on record as the
/// account's last quota error, whether or not the account could be saved; its quota stays as it was.
pub proof fn failed_token_refresh_is_recorded(
    account: AccountModel,
    message: Seq<char>,
    now: i64,
    saved: EventModel,
    later: i64,
)
    requires
        saved is Saved || saved is NotSaved,
    ensures
        ({
            let failed = refresh_step(
                refresh_at(account, PhaseModel::RefreshingTokens),
                EventModel::TokensNotRefreshed { message },
                now,
            );
            let ended = refresh_step(failed.0, saved, later);
            &&& failed.1 == (ActionModel::Save { index_changed: false })
            &&& failed.0.account.quota == account.quota
            &&& failed.0.account.usage_updated_at == account.usage_updated_at
            &&& failed.0.account.quota_error matches Some(error)
            &&& error.message == message
            &&& error.timestamp == now
            &&& failed.0.account == AccountModel {
                quota_error: failed.0.account.quota_error,
                ..account
            }
            &&& ended.1 == ActionModel::Fail(message)
            &&& ended.0 == refresh_at(failed.0.account, PhaseModel::Finished)
        }),
{
}

/// A refresh whose lookup failed records the failure on the account, saves it and fails with the
/// message, and tells so even where the account cannot be saved.
pub proof fn failed_lookup_ends_the_refresh(
    account: AccountModel,
    message: Seq<char>,
    now: i64,
    saved: EventModel,
    later: i64,
)
    requires
        saved is Saved || saved is NotSaved,
    ensures
        ({
            let failed = refresh_step(
                refresh_at(account, PhaseModel::Fetching),
                EventModel::NotFetched { message },
                now,
            );
            let ended = refresh_step(failed.0, saved, later);
            &&& failed.1 == (ActionModel::Save { index_changed: false })
            &&& failed.0.account == with_fetch_error(account, message, now)
            &&& ended.1 == ActionModel::Fail(message)
            &&& ended.0 == refresh_at(failed.0.account, PhaseModel::Finished)
        }),
{
}

/// News of a used-up quota in the sessions end the refresh with the quota then on record, once the
/// account is saved; without such news the quota is looked up, unless it is known to be used up.
pub proof fn sessions_decide_on_the_lookup(
    account: AccountModel,
    observation: Option<ObservationModel>,
    now: i64,
    later: i64,
    message: Seq<char>,
)
    ensures
        ({
            let (after, action) = refresh_step(
                refresh_at(account, PhaseModel::ScanningSessions),
                EventModel::SessionsScanned { observation },
                now,
            );
            let saved = refresh_step(after, EventModel::Saved, later);
            let not_saved = refresh_step(after, EventModel::NotSaved { message }, later);
            let news = revised_by_session(account, observation, now);
            &&& news matches Some(revised) ==> {
                &&& after == refresh_at(revised, PhaseModel::SavingObservation)
                &&& action == (ActionModel::Save { index_changed: false })
                &&& revised.quota is Some ==> saved.1 == ActionModel::Succeed(revised.quota->0)
                    && saved.0 == refresh_at(revised, PhaseModel::Finished)
                &&& not_saved.1 == ActionModel::Fail(message)
                &&& not_saved.0.phase == PhaseModel::Finished
            }
            &&& news is None && keeps_exhaustion(account, now) ==> {
                &&& after == refresh_at(account, PhaseModel::Finished)
                &&& action == ActionModel::Succeed(account.quota->0)
            }
            &&& news is None && !keeps_exhaustion(account, now) ==> {
                &&& after == refresh_at(account, PhaseModel::Fetching)
                &&& action == ActionModel::FetchUsage
            }
        }),
{
}

/// The event is one that a refresh in that phase waits for.
pub open spec fn is_waited_for(phase: PhaseModel, event: EventModel) -> bool {
    match phase {
        PhaseModel::Prepared => event is Begin,
        PhaseModel::RefreshingTokens => event is TokensRefreshed || event is TokensNotRefreshed,
        PhaseModel::ScanningSessions => event is SessionsScanned,
        PhaseModel::Fetching => event is Fetched || event is NotFetched,
        PhaseModel::SavingTokens => event is Saved || event is NotSaved,
        PhaseModel::SavingObservation => event is Saved || event is NotSaved,
        PhaseModel::SavingQuota => event is Saved || event is NotSaved,
        PhaseModel::SavingFailure(_) => event is Saved || event is NotSaved,
        PhaseModel::Finished => false,
    }
}

/// An event that is not waited for changes nothing, and nothing is done; in particular nothing happens
/// once a refresh is over.
pub proof fn other_events_change_nothing(state: RefreshModel, event: EventModel, now: i64)
    requires
        !is_waited_for(state.phase, event),
    ensures
        refresh_step(state, event, now) == (state, ActionModel::Wait),
{
}

/// Saving never changes an account, and neither does a failure to save it.
pub proof fn saving_changes_no_account(state: RefreshModel, event: EventModel, now: i64)
    requires
        event is Saved || event is NotSaved,
    ensures
        refresh_step(state, event, now).0.account == state.account,
{
}

/// No step changes what an account is: its name, its way of signing in, its keys and, but for a refresh
/// of the tokens, its tokens stay.
pub proof fn refresh_keeps_the_account(state: RefreshModel, event: EventModel, now: i64)
    requires
        !(event is TokensRefreshed),
    ensures
        ({
            let after = refresh_step(state, event, now).0.account;
            &&& after.id == state.account.id
            &&& after.email == state.account.email
            &&& after.auth_mode == state.account.auth_mode
            &&& after.tokens == state.account.tokens
            &&& after.account_id == state.account.account_id
            &&& after.user_id == state.account.user_id
            &&& after.openai_api_key == state.account.openai_api_key
            &&& after.api_base_url == state.account.api_base_url
            &&& after.api_provider_id == state.account.api_provider_id
            &&& after.subscription_active_until == state.account.subscription_active_until
            &&& after.last_used == state.account.last_used
        }),
{
}

/// A request is for the account on record, or else for the one that the token names, unless that is
/// empty.
pub proof fn request_is_for_the_account_on_record(
    account: AccountModel,
    token_account_id: Option<Seq<char>>,
)
    ensures
        account.account_id matches Some(id) ==> request_account(account, token_account_id) == (if id.len()
            > 0 {
            Some(id)
        } else {
            None
        }),
        account.account_id is None ==> (match token_account_id {
            Some(id) => request_account(account, token_account_id) == (if id.len() > 0 {
                Some(id)
            } else {
                None
            }),
            None => request_account(account, token_account_id) is None,
        }),
{
}

/// A plan and an end of subscription that are told replace those on record, each for itself, and those
/// that are not told do not; nothing else of the account changes.
pub proof fn told_subscription_replaces_the_old(
    account: AccountModel,
    plan_type: Option<Seq<char>>,
    active_until: Option<Seq<char>>,
)
    ensures
        ({
            let after = with_subscription(account, plan_type, active_until);
            &&& plan_type is Some ==> after.plan_type == plan_type
            &&& plan_type is None ==> after.plan_type == account.plan_type
            &&& active_until is Some ==> after.subscription_active_until == active_until
            &&& active_until is None ==> after.subscription_active_until
                == account.subscription_active_until
            &&& after == AccountModel {
                plan_type: after.plan_type,
                subscription_active_until: after.subscription_active_until,
                ..account
            }
        }),
{
}

/// A refresh that is being saved before it fails fails with its message, whatever came of the saving;
/// and one whose quota is being saved ends with the account's quota once it is.
pub proof fn saving_ends_the_refresh(
    account: AccountModel,
    message: Seq<char>,
    quota: QuotaModel,
    saved: EventModel,
    now: i64,
)
    requires
        saved is Saved || saved is NotSaved,
    ensures
        refresh_step(refresh_at(account, PhaseModel::SavingFailure(message)), saved, now) == (
            refresh_at(account, PhaseModel::Finished),
            ActionModel::Fail(message),
        ),
        account.quota == Some(quota) ==> refresh_step(
            refresh_at(account, PhaseModel::SavingQuota),
            EventModel::Saved,
            now,
        ) == (refresh_at(account, PhaseModel::Finished), ActionModel::Succeed(quota)),
{
}

/// A request carries the account's access token, and a failed refresh of the tokens is reported with
/// its reason before and the error behind.
pub proof fn token_is_carried_and_its_failure_reported(
    account: AccountModel,
    reason: Seq<char>,
    error: Seq<char>,
)
    ensures
        authorization_of(account).take(7) == "Bearer "@,
        authorization_of(account).skip(7) == account.tokens.access_token,
        token_error_text(reason, error).len() == reason.len() + "，刷新 Token 失败: "@.len()
            + error.len(),
        token_error_text(reason, error).subrange(
            reason.len() as int,
            token_error_text(reason, error).len() - error.len(),
        ) == "，刷新 Token 失败: "@,
        token_error_text(reason, error).take(reason.len() as int) == reason,
        token_error_text(reason, error).skip(
            token_error_text(reason, error).len() - error.len(),
        ) == error,
{
    reveal_strlit("Bearer ");
    let carried = authorization_of(account);
    assert(carried.take(7) =~= "Bearer "@);
    assert(carried.skip(7) =~= account.tokens.access_token);
    let text = token_error_text(reason, error);
    assert(text.take(reason.len() as int) =~= reason);
    assert(text.skip(text.len() - error.len()) =~= error);
    assert(text.subrange(reason.len() as int, text.len() - error.len())
        =~= "，刷新 Token 失败: "@);
}

} // verus!
