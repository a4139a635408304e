//! The refresh of an account's quota, step by step.
//!
//! What the outside world has to do is asked for by an action and answered by an event: the machine
//! decides what to do next, and keeps the account as it is to be saved.
use vstd::prelude::*;

use crate::models::codex::{AccountModel, CodexAccount, CodexAuthMode, CodexQuota, QuotaModel};
use crate::numbers::first_some;
use crate::quota::apply::{
    apply_latest_direct_oauth_observation_at, keeps_exhaustion, revised_by_session,
    should_keep_existing_quota_exhaustion,
};
use crate::quota::direct::{opt_observation, DirectQuotaObservation, ObservationModel};
use crate::quota::provider::{is_cockpit_account, is_new_api_account};
use crate::quota::snapshot::{
    with_fetch_error, with_quota_error, write_quota_error_at, write_quota_fetch_error_at,
};
use crate::quota::usage::FetchQuotaResult;
use crate::text::{as_text, is_text, joined, opt_str, opt_text};

verus! {

/// What a request for an account's quota carries: the authorization, and the account it is for.
#[derive(Debug)]
pub struct QuotaRequest {
    pub authorization: String,
    pub account_id: Option<String>,
}

/// The account that a request is for: the one on record, or else the one in the token, unless that
/// is empty.
pub open spec fn request_account(
    account: AccountModel,
    token_account_id: Option<Seq<char>>,
) -> Option<Seq<char>> {
    match first_some(account.account_id, token_account_id) {
        Some(id) => if id.len() == 0 {
            None
        } else {
            Some(id)
        },
        None => None,
    }
}

/// The authorization of a request for an account's quota.
pub open spec fn authorization_of(account: AccountModel) -> Seq<char> {
    "Bearer "@ + account.tokens.access_token
}

/// What a request for an account's quota carries.
pub fn quota_request(account: &CodexAccount, token_account_id: Option<&str>) -> (request: QuotaRequest)
    ensures
        request.authorization@ == authorization_of(account@),
        request.authorization@ == "Bearer "@ + account@.tokens.access_token,
        opt_text(request.account_id) == request_account(account@, opt_str(token_account_id)),
{
    let id = match &account.account_id {
        Some(id) => Some(id.as_str()),
        None => token_account_id,
    };
    let account_id = match id {
        Some(id) => if id.is_empty() {
            None
        } else {
            Some(id.to_owned())
        },
        None => None,
    };
    QuotaRequest {
        authorization: joined("Bearer ", account.tokens.access_token.as_str()),
        account_id,
    }
}

/// The account with the plan and the end of its subscription that are known anew.
pub open spec fn with_subscription(
    account: AccountModel,
    plan_type: Option<Seq<char>>,
    active_until: Option<Seq<char>>,
) -> AccountModel {
    AccountModel {
        plan_type: first_some(plan_type, account.plan_type),
        subscription_active_until: first_some(active_until, account.subscription_active_until),
        ..account
    }
}

/// Takes over the plan and the end of the subscription where they are known, and says whether that
/// changed the account.
pub fn sync_subscription_from_token(
    account: &mut CodexAccount,
    plan_type: Option<String>,
    subscription_active_until: Option<String>,
) -> (changed: bool)
    ensures
        final(account)@ == with_subscription(
            old(account)@,
            opt_text(plan_type),
            opt_text(subscription_active_until),
        ),
        changed == (final(account)@ != old(account)@),
{
    let mut changed = false;
    if let Some(plan_type) = plan_type {
        if !is_text(as_text(&account.plan_type), plan_type.as_str()) {
            account.plan_type = Some(plan_type);
            changed = true;
            assert(account@.plan_type != old(account)@.plan_type);
        }
    }
    if let Some(active_until) = subscription_active_until {
        if !is_text(as_text(&account.subscription_active_until), active_until.as_str()) {
            account.subscription_active_until = Some(active_until);
            changed = true;
            assert(account@.subscription_active_until != old(account)@.subscription_active_until);
        }
    }
    changed
}

/// What a failed refresh of the tokens is reported as.
pub open spec fn token_error_text(reason: Seq<char>, error: Seq<char>) -> Seq<char> {
    reason + "，刷新 Token 失败: "@ + error
}

/// What a failed refresh of the tokens is reported as.
pub fn token_refresh_error(reason: &str, error: &str) -> (message: String)
    ensures
        message@ == token_error_text(reason@, error@),
        message@ == reason@ + "，刷新 Token 失败: "@ + error@,
{
    let mut message = joined(reason, "，刷新 Token 失败: ");
    message.append(error);
    message
}

/// How far a refresh has come.
#[derive(Debug)]
pub enum RefreshPhase {
    /// The account was prepared.
    Prepared,
    /// The tokens are being refreshed.
    RefreshingTokens,
    /// The refreshed tokens are being saved.
    SavingTokens,
    /// The sessions of Codex are being looked at.
    ScanningSessions,
    /// An observation of the sessions is being saved.
    SavingObservation,
    /// The quota is being looked up.
    Fetching,
    /// The quota is being saved.
    SavingQuota,
    /// The account is being saved before the refresh fails with the message.
    SavingFailure(String),
    /// There is nothing left to do.
    Finished,
}

pub ghost enum PhaseModel {
    Prepared,
    RefreshingTokens,
    SavingTokens,
    ScanningSessions,
    SavingObservation,
    Fetching,
    SavingQuota,
    SavingFailure(Seq<char>),
    Finished,
}

impl View for RefreshPhase {
    type V = PhaseModel;

    open spec fn view(&self) -> PhaseModel {
        match self {
            RefreshPhase::Prepared => PhaseModel::Prepared,
            RefreshPhase::RefreshingTokens => PhaseModel::RefreshingTokens,
            RefreshPhase::SavingTokens => PhaseModel::SavingTokens,
            RefreshPhase::ScanningSessions => PhaseModel::ScanningSessions,
            RefreshPhase::SavingObservation => PhaseModel::SavingObservation,
            RefreshPhase::Fetching => PhaseModel::Fetching,
            RefreshPhase::SavingQuota => PhaseModel::SavingQuota,
            RefreshPhase::SavingFailure(message) => PhaseModel::SavingFailure(message@),
            RefreshPhase::Finished => PhaseModel::Finished,
        }
    }
}

/// What happened outside.
#[derive(Debug)]
pub enum RefreshEvent {
    /// The refresh begins; the access token has expired or not.
    Begin { token_expired: bool },
    /// The tokens were refreshed: the account as it is now, and the end of its subscription where
    /// the new token tells it.
    TokensRefreshed { account: CodexAccount, active_until: Option<String> },
    /// The tokens could not be refreshed.
    TokensNotRefreshed { message: String },
    /// The account was saved.
    Saved,
    /// The account could not be saved.
    NotSaved { message: String },
    /// The sessions of Codex were looked at: the best observation, if they are this account's and
    /// hold one.
    SessionsScanned { observation: Option<DirectQuotaObservation> },
    /// The quota was looked up.
    Fetched { result: FetchQuotaResult },
    /// The quota could not be looked up.
    NotFetched { message: String },
}

pub ghost enum EventModel {
    Begin { token_expired: bool },
    TokensRefreshed { account: AccountModel, active_until: Option<Seq<char>> },
    TokensNotRefreshed { message: Seq<char> },
    Saved,
    NotSaved { message: Seq<char> },
    SessionsScanned { observation: Option<ObservationModel> },
    Fetched { quota: QuotaModel, plan_type: Option<Seq<char>> },
    NotFetched { message: Seq<char> },
}

impl View for RefreshEvent {
    type V = EventModel;

    open spec fn view(&self) -> EventModel {
        match self {
            RefreshEvent::Begin { token_expired } => EventModel::Begin {
                token_expired: *token_expired,
            },
            RefreshEvent::TokensRefreshed {
                account,
                active_until,
            } => EventModel::TokensRefreshed {
                account: account@,
                active_until: opt_text(*active_until),
            },
            RefreshEvent::TokensNotRefreshed { message } => EventModel::TokensNotRefreshed {
                message: message@,
            },
            RefreshEvent::Saved => EventModel::Saved,
            RefreshEvent::NotSaved { message } => EventModel::NotSaved { message: message@ },
            RefreshEvent::SessionsScanned { observation } => EventModel::SessionsScanned {
                observation: opt_observation(*observation),
            },
            RefreshEvent::Fetched { result } => EventModel::Fetched {
                quota: result.quota@,
                plan_type: opt_text(result.plan_type),
            },
            RefreshEvent::NotFetched { message } => EventModel::NotFetched { message: message@ },
        }
    }
}

/// What is to be done outside.
#[derive(Debug)]
pub enum RefreshAction {
    /// Nothing: the event was not waited for.
    Wait,
    /// Refresh the account's tokens.
    RefreshTokens,
    /// Save the account, and first note its subscription in the index if that changed.
    Save { index_changed: bool },
    /// Look at the sessions of Codex.
    ScanSessions,
    /// Look up the quota at the Cockpit API.
    FetchFromProvider,
    /// Look up the quota at the usage endpoint.
    FetchUsage,
    /// End with the quota.
    Succeed(CodexQuota),
    /// End with an error.
    Fail(String),
}

pub ghost enum ActionModel {
    Wait,
    RefreshTokens,
    Save { index_changed: bool },
    ScanSessions,
    FetchFromProvider,
    FetchUsage,
    Succeed(QuotaModel),
    Fail(Seq<char>),
}

impl View for RefreshAction {
    type V = ActionModel;

    open spec fn view(&self) -> ActionModel {
        match self {
            RefreshAction::Wait => ActionModel::Wait,
            RefreshAction::RefreshTokens => ActionModel::RefreshTokens,
            RefreshAction::Save { index_changed } => ActionModel::Save {
                index_changed: *index_changed,
            },
            RefreshAction::ScanSessions => ActionModel::ScanSessions,
            RefreshAction::FetchFromProvider => ActionModel::FetchFromProvider,
            RefreshAction::FetchUsage => ActionModel::FetchUsage,
            RefreshAction::Succeed(quota) => ActionModel::Succeed(quota@),
            RefreshAction::Fail(message) => ActionModel::Fail(message@),
        }
    }
}

/// A refresh of an account's quota.
#[derive(Debug)]
pub struct QuotaRefresh {
    pub account: CodexAccount,
    pub phase: RefreshPhase,
}

pub ghost struct RefreshModel {
    pub account: AccountModel,
    pub phase: PhaseModel,
}

impl View for QuotaRefresh {
    type V = RefreshModel;

    open spec fn view(&self) -> RefreshModel {
        RefreshModel { account: self.account@, phase: self.phase@ }
    }
}

/// What an account that signs in with an API key is told, unless it is one of the Cockpit API.
pub open spec fn unsupported_message() -> Seq<char> {
    "API Key 账号不支持刷新配额，请在网页端查看。"@
}

/// The account without anything known of its quota.
pub open spec fn without_quota(account: AccountModel) -> AccountModel {
    AccountModel { quota: None, quota_error: None, usage_updated_at: None, ..account }
}

/// The account with a quota that was looked up at `now`.
pub open spec fn with_fetched(
    account: AccountModel,
    quota: QuotaModel,
    plan_type: Option<Seq<char>>,
    now: i64,
) -> AccountModel {
    AccountModel {
        quota: Some(quota),
        quota_error: None,
        usage_updated_at: Some(now),
        ..with_subscription(account, plan_type, None)
    }
}

/// The refresh goes on with another phase.
pub open spec fn goes_on(account: AccountModel, phase: PhaseModel, action: ActionModel) -> (
    RefreshModel,
    ActionModel,
) {
    (RefreshModel { account, phase }, action)
}

/// The refresh is over.
pub open spec fn ends(account: AccountModel, action: ActionModel) -> (RefreshModel, ActionModel) {
    goes_on(account, PhaseModel::Finished, action)
}

/// How a refresh begins: by the Cockpit API or not at all for an account that signs in with an API
/// key, else by the tokens if they have expired, else by the sessions of Codex.
pub open spec fn begun(account: AccountModel, token_expired: bool) -> (RefreshModel, ActionModel) {
    if account.auth_mode == CodexAuthMode::ApiKey {
        if is_cockpit_account(account) {
            goes_on(account, PhaseModel::Fetching, ActionModel::FetchFromProvider)
        } else {
            goes_on(
                without_quota(account),
                PhaseModel::SavingFailure(unsupported_message()),
                ActionModel::Save { index_changed: false },
            )
        }
    } else if token_expired {
        goes_on(account, PhaseModel::RefreshingTokens, ActionModel::RefreshTokens)
    } else {
        goes_on(account, PhaseModel::ScanningSessions, ActionModel::ScanSessions)
    }
}

/// How a refresh goes on after a look at the sessions: with what they say, if it is news of a
/// used-up quota; not at all while the quota is known to be used up; else by the usage endpoint.
pub open spec fn scanned(
    account: AccountModel,
    observation: Option<ObservationModel>,
    now: i64,
) -> (RefreshModel, ActionModel) {
    match revised_by_session(account, observation, now) {
        Some(after) => goes_on(
            after,
            PhaseModel::SavingObservation,
            ActionModel::Save { index_changed: false },
        ),
        None => if keeps_exhaustion(account, now) {
            ends(account, ActionModel::Succeed(account.quota->0))
        } else {
            goes_on(account, PhaseModel::Fetching, ActionModel::FetchUsage)
        },
    }
}

/// The next state of a refresh and what is to be done, after an event at `now`. An event that is
/// not waited for changes nothing.
pub open spec fn refresh_step(state: RefreshModel, event: EventModel, now: i64) -> (
    RefreshModel,
    ActionModel,
) {
    let account = state.account;
    match (state.phase, event) {
        (PhaseModel::Prepared, EventModel::Begin { token_expired }) => begun(
            account,
            token_expired,
        ),
        (
            PhaseModel::RefreshingTokens,
            EventModel::TokensRefreshed { account: refreshed, active_until },
        ) => {
            let after = with_subscription(refreshed, None, active_until);
            goes_on(
                after,
                PhaseModel::SavingTokens,
                ActionModel::Save { index_changed: after != refreshed },
            )
        },
        (PhaseModel::RefreshingTokens, EventModel::TokensNotRefreshed { message }) => goes_on(
            with_quota_error(account, message, now),
            PhaseModel::SavingFailure(message),
            ActionModel::Save { index_changed: false },
        ),
        (PhaseModel::SavingTokens, EventModel::Saved) => goes_on(
            account,
            PhaseModel::ScanningSessions,
            ActionModel::ScanSessions,
        ),
        (PhaseModel::SavingTokens, EventModel::NotSaved { message }) => ends(
            account,
            ActionModel::Fail(message),
        ),
        (PhaseModel::ScanningSessions, EventModel::SessionsScanned { observation }) => scanned(
            account,
            observation,
            now,
        ),
        (PhaseModel::SavingObservation, EventModel::Saved) => match account.quota {
            Some(quota) => ends(account, ActionModel::Succeed(quota)),
            None => goes_on(account, PhaseModel::Fetching, ActionModel::FetchUsage),
        },
        (PhaseModel::SavingObservation, EventModel::NotSaved { message }) => ends(
            account,
            ActionModel::Fail(message),
        ),
        (PhaseModel::Fetching, EventModel::Fetched { quota, plan_type }) => goes_on(
            with_fetched(account, quota, plan_type, now),
            PhaseModel::SavingQuota,
            ActionModel::Save {
                index_changed: with_subscription(account, plan_type, None) != account,
            },
        ),
        (PhaseModel::Fetching, EventModel::NotFetched { message }) => goes_on(
            with_fetch_error(account, message, now),
            PhaseModel::SavingFailure(message),
            ActionModel::Save { index_changed: false },
        ),
        (PhaseModel::SavingQuota, EventModel::Saved) => match account.quota {
            Some(quota) => ends(account, ActionModel::Succeed(quota)),
            None => (state, ActionModel::Wait),
        },
        (PhaseModel::SavingQuota, EventModel::NotSaved { message }) => ends(
            account,
            ActionModel::Fail(message),
        ),
        (PhaseModel::SavingFailure(message), EventModel::Saved) => ends(
            account,
            ActionModel::Fail(message),
        ),
        (PhaseModel::SavingFailure(message), EventModel::NotSaved { .. }) => ends(
            account,
            ActionModel::Fail(message),
        ),
        _ => (state, ActionModel::Wait),
    }
}

/// What holds of a refresh between its steps: a quota that is being saved is the account's, and a
/// quota that came from the sessions too.
pub open spec fn is_sound(state: RefreshModel) -> bool {
    (state.phase == PhaseModel::SavingQuota || state.phase == PhaseModel::SavingObservation)
        ==> state.account.quota is Some
}

/// Each step keeps a refresh sound, and a refresh that ends well hands out the quota that the
/// account has in the end.
pub proof fn refresh_hands_out_the_quota_on_record(state: RefreshModel, event: EventModel, now: i64)
    requires
        is_sound(state),
    ensures
        is_sound(refresh_step(state, event, now).0),
        refresh_step(state, event, now).1 matches ActionModel::Succeed(quota) ==> refresh_step(
            state,
            event,
            now,
        ).0.account.quota == Some(quota),
{
}

/// While an account is known to have used up its quota, and its sessions hold no news, its quota is
/// not looked up: the refresh ends well with what is on record and leaves the account as it is.
pub proof fn exhaustion_on_record_is_not_overwritten(
    account: AccountModel,
    observation: Option<ObservationModel>,
    now: i64,
)
    requires
        keeps_exhaustion(account, now),
        revised_by_session(account, observation, now) is None,
    ensures
        ({
            let state = RefreshModel { account, phase: PhaseModel::ScanningSessions };
            let (after, action) = refresh_step(
                state,
                EventModel::SessionsScanned { observation },
                now,
            );
            &&& after.account == account
            &&& after.phase == PhaseModel::Finished
            &&& action == ActionModel::Succeed(account.quota->0)
        }),
{
}

/// A refresh whose lookup failed ends with the message of the failure, which is then on record as
/// the account's last quota error, whether or not the account could be saved.
pub proof fn failed_lookup_is_recorded_and_reported(
    account: AccountModel,
    message: Seq<char>,
    now: i64,
    saved: EventModel,
    later: i64,
)
    requires
        saved is Saved || saved is NotSaved,
    ensures
        ({
            let fetching = RefreshModel { account, phase: PhaseModel::Fetching };
            let failed = refresh_step(fetching, EventModel::NotFetched { message }, now);
            let ended = refresh_step(failed.0, saved, later);
            &&& failed.1 == (ActionModel::Save { index_changed: false })
            &&& ended.1 == ActionModel::Fail(message)
            &&& ended.0.account.quota_error matches Some(error)
            &&& error.message == message
            &&& error.timestamp == now
        }),
{
}

impl QuotaRefresh {
    /// A refresh of a prepared account.
    pub fn new(account: CodexAccount) -> (refresh: Self)
        ensures
            refresh@ == (RefreshModel { account: account@, phase: PhaseModel::Prepared }),
            is_sound(refresh@),
    {
        QuotaRefresh { account, phase: RefreshPhase::Prepared }
    }

    /// Sets the phase and hands the action on.
    fn go_on(&mut self, phase: RefreshPhase, action: RefreshAction) -> (next: RefreshAction)
        ensures
            (final(self)@, next@) == goes_on(old(self)@.account, phase@, action@),
    {
        self.phase = phase;
        action
    }

    /// Begins the refresh.
    fn begin(&mut self, token_expired: bool) -> (action: RefreshAction)
        ensures
            (final(self)@, action@) == begun(old(self)@.account, token_expired),
    {
        if self.account.is_api_key_auth() {
            if is_new_api_account(&self.account) {
                return self.go_on(RefreshPhase::Fetching, RefreshAction::FetchFromProvider);
            }
            self.account.quota = None;
            self.account.quota_error = None;
            self.account.usage_updated_at = None;
            return self.go_on(
                RefreshPhase::SavingFailure(
                    "API Key 账号不支持刷新配额，请在网页端查看。".to_owned(),
                ),
                RefreshAction::Save { index_changed: false },
            );
        }
        if token_expired {
            self.go_on(RefreshPhase::RefreshingTokens, RefreshAction::RefreshTokens)
        } else {
            self.go_on(RefreshPhase::ScanningSessions, RefreshAction::ScanSessions)
        }
    }

    /// Goes on after a look at the sessions.
    fn scan(&mut self, observation: Option<DirectQuotaObservation>, now: i64) -> (action: RefreshAction)
        ensures
            (final(self)@, action@) == scanned(
                old(self)@.account,
                opt_observation(observation),
                now,
            ),
    {
        let best = match &observation {
            Some(observation) => Some(observation),
            None => None,
        };
        if apply_latest_direct_oauth_observation_at(&mut self.account, best, now) {
            return self.go_on(
                RefreshPhase::SavingObservation,
                RefreshAction::Save { index_changed: false },
            );
        }
        if should_keep_existing_quota_exhaustion(&self.account, now) {
            let known = match &self.account.quota {
                Some(quota) => Some(quota.clone()),
                None => None,
            };
            if let Some(quota) = known {
                return self.go_on(RefreshPhase::Finished, RefreshAction::Succeed(quota));
            }
        }
        self.go_on(RefreshPhase::Fetching, RefreshAction::FetchUsage)
    }

    /// Takes over a quota that was looked up.
    fn take_over(&mut self, result: FetchQuotaResult, now: i64) -> (action: RefreshAction)
        ensures
            (final(self)@, action@) == goes_on(
                with_fetched(
                    old(self)@.account,
                    result.quota@,
                    opt_text(result.plan_type),
                    now,
                ),
                PhaseModel::SavingQuota,
                ActionModel::Save {
                    index_changed: with_subscription(
                        old(self)@.account,
                        opt_text(result.plan_type),
                        None,
                    ) != old(self)@.account,
                },
            ),
    {
        let index_changed = sync_subscription_from_token(
            &mut self.account,
            result.plan_type,
            None,
        );
        self.account.quota = Some(result.quota);
        self.account.quota_error = None;
        self.account.usage_updated_at = Some(now);
        self.go_on(RefreshPhase::SavingQuota, RefreshAction::Save { index_changed })
    }

    /// Goes on after the account was saved.
    fn saved(&mut self, now: i64) -> (action: RefreshAction)
        ensures
            (final(self)@, action@) == refresh_step(old(self)@, EventModel::Saved, now),
    {
        let quota = match &self.account.quota {
            Some(quota) => Some(quota.clone()),
            None => None,
        };
        match &self.phase {
            RefreshPhase::SavingTokens => self.go_on(
                RefreshPhase::ScanningSessions,
                RefreshAction::ScanSessions,
            ),
            RefreshPhase::SavingObservation => match quota {
                Some(quota) => self.go_on(RefreshPhase::Finished, RefreshAction::Succeed(quota)),
                None => self.go_on(RefreshPhase::Fetching, RefreshAction::FetchUsage),
            },
            RefreshPhase::SavingQuota => match quota {
                Some(quota) => self.go_on(RefreshPhase::Finished, RefreshAction::Succeed(quota)),
                None => RefreshAction::Wait,
            },
            RefreshPhase::SavingFailure(message) => {
                let message = message.clone();
                self.go_on(RefreshPhase::Finished, RefreshAction::Fail(message))
            },
            _ => RefreshAction::Wait,
        }
    }

    /// Goes on after the account could not be saved.
    fn not_saved(&mut self, message: String, now: i64) -> (action: RefreshAction)
        ensures
            (final(self)@, action@) == refresh_step(
                old(self)@,
                EventModel::NotSaved { message: message@ },
                now,
            ),
    {
        match &self.phase {
            RefreshPhase::SavingTokens => self.go_on(
                RefreshPhase::Finished,
                RefreshAction::Fail(message),
            ),
            RefreshPhase::SavingObservation => self.go_on(
                RefreshPhase::Finished,
                RefreshAction::Fail(message),
            ),
            RefreshPhase::SavingQuota => self.go_on(
                RefreshPhase::Finished,
                RefreshAction::Fail(message),
            ),
            RefreshPhase::SavingFailure(failure) => {
                let failure = failure.clone();
                self.go_on(RefreshPhase::Finished, RefreshAction::Fail(failure))
            },
            _ => RefreshAction::Wait,
        }
    }

    /// Goes on after an event at `now`, and says what is to be done.
    pub fn advance(&mut self, event: RefreshEvent, now: i64) -> (action: RefreshAction)
        ensures
            (final(self)@, action@) == refresh_step(old(self)@, event@, now),
            is_sound(old(self)@) ==> is_sound(final(self)@),
    {
        match event {
            RefreshEvent::Begin { token_expired } => match &self.phase {
                RefreshPhase::Prepared => self.begin(token_expired),
                _ => RefreshAction::Wait,
            },
            RefreshEvent::TokensRefreshed { account, active_until } => match &self.phase {
                RefreshPhase::RefreshingTokens => {
                    self.account = account;
                    let index_changed = sync_subscription_from_token(
                        &mut self.account,
                        None,
                        active_until,
                    );
                    self.go_on(RefreshPhase::SavingTokens, RefreshAction::Save { index_changed })
                },
                _ => RefreshAction::Wait,
            },
            RefreshEvent::TokensNotRefreshed { message } => match &self.phase {
                RefreshPhase::RefreshingTokens => {
                    write_quota_error_at(&mut self.account, message.clone(), now);
                    self.go_on(
                        RefreshPhase::SavingFailure(message),
                        RefreshAction::Save { index_changed: false },
                    )
                },
                _ => RefreshAction::Wait,
            },
            RefreshEvent::Saved => self.saved(now),
            RefreshEvent::NotSaved { message } => self.not_saved(message, now),
            RefreshEvent::SessionsScanned { observation } => match &self.phase {
                RefreshPhase::ScanningSessions => self.scan(observation, now),
                _ => RefreshAction::Wait,
            },
            RefreshEvent::Fetched { result } => match &self.phase {
                RefreshPhase::Fetching => self.take_over(result, now),
                _ => RefreshAction::Wait,
            },
            RefreshEvent::NotFetched { message } => match &self.phase {
                RefreshPhase::Fetching => {
                    write_quota_fetch_error_at(&mut self.account, message.clone(), now);
                    self.go_on(
                        RefreshPhase::SavingFailure(message),
                        RefreshAction::Save { index_changed: false },
                    )
                },
                _ => RefreshAction::Wait,
            },
        }
    }
}

} // verus!
