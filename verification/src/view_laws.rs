//! What holds of the models of the library's values: each shows all that the value holds.
use vstd::prelude::*;

use crate::json::{
    fields_of, items_of, lemma_array_view, lemma_object_view, opt_json, opt_json_ref, texts_of, Json,
    JsonValue,
};
use crate::models::codex::{
    accounts_of, opt_error, opt_quota, CodexAccount, CodexQuota, CodexQuotaErrorInfo, CodexTokens,
    QuotaModel,
};
use crate::quota::direct::{opt_observation, opt_observation_ref, DirectQuotaObservation};
use crate::quota::logs::{entries_of, rows_of, DirectCodexLogEntry, DirectCodexLogRow};
use crate::quota::refresh::{
    ActionModel, EventModel, QuotaRefresh, RefreshAction, RefreshEvent,
};
use crate::quota::provider::{quota_result, text_result};
use crate::quota::sessions::{observations_of, strs_of};
use crate::quota::usage::{FetchQuotaResult, UsageResponse};
use crate::text::{opt_str, opt_text, strings_of};
use crate::text_map::TextMap;
use crate::urls::UrlParts;

verus! {

/// Texts and other optional values are shown as what they are.
pub proof fn optional_values_are_shown(
    text: Option<String>,
    borrowed: Option<&str>,
    json: Option<JsonValue>,
    quota: Option<CodexQuota>,
    error: Option<CodexQuotaErrorInfo>,
    observation: Option<DirectQuotaObservation>,
)
    ensures
        text matches Some(text) ==> opt_text(Some(text)) == Some(text@),
        opt_text(None) is None,
        borrowed matches Some(text) ==> opt_str(Some(text)) == Some(text@),
        opt_str(None) is None,
        json matches Some(json) ==> opt_json(Some(json)) == Some(json@),
        opt_json(None) is None,
        quota matches Some(quota) ==> opt_quota(Some(quota)) == Some(quota@),
        opt_quota(None) is None,
        error matches Some(error) ==> opt_error(Some(error)) == Some(error@),
        opt_error(None) is None,
        observation matches Some(observation) ==> opt_observation(Some(observation)) == Some(
            observation@,
        ),
        opt_observation(None) is None,
{
}

/// A JSON value is shown with all of its parts.
pub proof fn json_is_shown(value: JsonValue)
    ensures
        value is Null ==> value@ == Json::Null,
        value matches JsonValue::Bool(truth) ==> value@ == Json::Bool(truth),
        value matches JsonValue::Number(number) ==> value@ == Json::Number(number),
        value matches JsonValue::Text(text) ==> value@ == Json::Text(text@),
        value matches JsonValue::Array(items) ==> value@ == Json::Array(items_of(items@)),
        value matches JsonValue::Object(fields) ==> value@ == Json::Object(fields_of(fields@)),
{
    match value {
        JsonValue::Array(items) => {
            lemma_array_view(items);
        },
        JsonValue::Object(fields) => {
            lemma_object_view(fields);
        },
        _ => {},
    }
}

/// The items of an array and the fields of an object are shown one by one.
pub proof fn json_parts_are_shown(
    items: Seq<JsonValue>,
    fields: Seq<(String, JsonValue)>,
    at: int,
)
    ensures
        items_of(items).len() == items.len(),
        0 <= at < items.len() ==> items_of(items)[at] == items[at]@,
        fields_of(fields).len() == fields.len(),
        0 <= at < fields.len() ==> fields_of(fields)[at] == (fields[at].0@, fields[at].1@),
{
}

/// A quota is shown with all that it holds.
pub proof fn quota_is_shown(quota: CodexQuota)
    ensures
        quota@.hourly_percentage == quota.hourly_percentage,
        quota@.hourly_reset_time == quota.hourly_reset_time,
        quota@.hourly_window_minutes == quota.hourly_window_minutes,
        quota@.hourly_window_present == quota.hourly_window_present,
        quota@.weekly_percentage == quota.weekly_percentage,
        quota@.weekly_reset_time == quota.weekly_reset_time,
        quota@.weekly_window_minutes == quota.weekly_window_minutes,
        quota@.weekly_window_present == quota.weekly_window_present,
        quota@.raw_data == opt_json(quota.raw_data),
{
}

/// An account is shown with all that it holds, and so are its tokens and its last error.
pub proof fn account_is_shown(account: CodexAccount, tokens: CodexTokens, error: CodexQuotaErrorInfo)
    ensures
        account@.id == account.id@,
        account@.email == account.email@,
        account@.auth_mode == account.auth_mode,
        account@.openai_api_key == opt_text(account.openai_api_key),
        account@.api_base_url == opt_text(account.api_base_url),
        account@.api_provider_id == opt_text(account.api_provider_id),
        account@.user_id == opt_text(account.user_id),
        account@.plan_type == opt_text(account.plan_type),
        account@.subscription_active_until == opt_text(account.subscription_active_until),
        account@.account_id == opt_text(account.account_id),
        account@.tokens == account.tokens@,
        account@.quota == opt_quota(account.quota),
        account@.quota_error == opt_error(account.quota_error),
        account@.usage_updated_at == account.usage_updated_at,
        account@.last_used == account.last_used,
        tokens@.id_token == tokens.id_token@,
        tokens@.access_token == tokens.access_token@,
        tokens@.refresh_token == opt_text(tokens.refresh_token),
        error@.code == opt_text(error.code),
        error@.message == error.message@,
        error@.timestamp == error.timestamp,
{
}

/// Accounts and rows are shown one by one.
pub proof fn lists_are_shown(
    accounts: Seq<CodexAccount>,
    rows: Seq<DirectCodexLogRow>,
    at: int,
)
    ensures
        accounts_of(accounts).len() == accounts.len(),
        0 <= at < accounts.len() ==> accounts_of(accounts)[at] == accounts[at]@,
        rows_of(rows).len() == rows.len(),
        0 <= at < rows.len() ==> rows_of(rows)[at] == rows[at]@,
{
}

/// Other lists are shown one by one too.
pub proof fn more_lists_are_shown(
    entries: Seq<DirectCodexLogEntry>,
    observations: Seq<DirectQuotaObservation>,
    texts: Seq<String>,
    borrowed: Seq<&str>,
    at: int,
)
    ensures
        entries_of(entries).len() == entries.len(),
        0 <= at < entries.len() ==> entries_of(entries)[at] == entries[at]@,
        observations_of(observations).len() == observations.len(),
        0 <= at < observations.len() ==> observations_of(observations)[at] == observations[at]@,
        strings_of(texts).len() == texts.len(),
        0 <= at < texts.len() ==> strings_of(texts)[at] == texts[at]@,
        strs_of(borrowed).len() == borrowed.len(),
        0 <= at < borrowed.len() ==> strs_of(borrowed)[at] == borrowed[at]@,
        texts_of(borrowed).len() == borrowed.len(),
        0 <= at < borrowed.len() ==> texts_of(borrowed)[at] == borrowed[at]@,
{
}

/// Borrowed values and results are shown as what they are.
pub proof fn results_are_shown(
    json: &JsonValue,
    observation: &DirectQuotaObservation,
    text: String,
    result: FetchQuotaResult,
)
    ensures
        opt_json_ref(Some(json)) == Some(json@),
        opt_json_ref(None) is None,
        opt_observation_ref(Some(observation)) == Some(observation@),
        opt_observation_ref(None) is None,
        text_result(Ok(text)) == Ok::<Seq<char>, Seq<char>>(text@),
        text_result(Err(text)) == Err::<Seq<char>, Seq<char>>(text@),
        quota_result(Ok(result)) == Ok::<(QuotaModel, Option<Seq<char>>), Seq<char>>(
            (result.quota@, opt_text(result.plan_type)),
        ),
        quota_result(Err(text)) == Err::<(QuotaModel, Option<Seq<char>>), Seq<char>>(text@),
{
}

/// An observation is shown with all that it holds.
pub proof fn observation_is_shown(observation: DirectQuotaObservation)
    ensures
        observation@.observed_at == observation.observed_at,
        observation@.reset_at == observation.reset_at,
        observation@.reset_after_seconds == observation.reset_after_seconds,
        observation@.error_type == opt_text(observation.error_type),
        observation@.source == observation.source@,
        observation@.quota == opt_quota(observation.quota),
        observation@.exhausted == observation.exhausted,
{
}

/// An answer of the endpoint is shown with all that it holds.
pub proof fn usage_is_shown(usage: UsageResponse)
    ensures
        usage@.plan_type == opt_text(usage.plan_type),
        usage@.rate_limit == usage.rate_limit,
        usage@.code_review_rate_limit == usage.code_review_rate_limit,
        usage@.rate_limit_reached_type == opt_json(usage.rate_limit_reached_type),
{
}

/// Rows and entries of the log are shown with all that they hold.
pub proof fn log_is_shown(row: DirectCodexLogRow, entry: DirectCodexLogEntry)
    ensures
        row@.id == row.id,
        row@.ts == row.ts,
        row@.thread_id == opt_text(row.thread_id),
        row@.body == row.body@,
        entry@.row == entry.row@,
        entry@.event == opt_json(entry.event),
{
}

/// The parts of a URL are shown as they are.
pub proof fn url_is_shown(parts: UrlParts)
    ensures
        parts@.scheme == parts.scheme@,
        parts@.host == opt_text(parts.host),
        parts@.port == parts.port,
        parts@.path == parts.path@,
        parts@.query == opt_text(parts.query),
        parts@.fragment == opt_text(parts.fragment),
        parts@.length == parts.length,
{
}

/// A refresh is shown as it is, with its events and actions.
pub proof fn refresh_is_shown(refresh: QuotaRefresh, event: RefreshEvent, action: RefreshAction)
    ensures
        refresh@.account == refresh.account@,
        refresh@.phase == refresh.phase@,
        event matches RefreshEvent::Begin { token_expired } ==> event@ == (EventModel::Begin {
            token_expired,
        }),
        event matches RefreshEvent::TokensRefreshed { account, active_until } ==> event@ == (
        EventModel::TokensRefreshed { account: account@, active_until: opt_text(active_until) }),
        event matches RefreshEvent::TokensNotRefreshed { message } ==> event@ == (
        EventModel::TokensNotRefreshed { message: message@ }),
        event is Saved ==> event@ == EventModel::Saved,
        event matches RefreshEvent::NotSaved { message } ==> event@ == (EventModel::NotSaved {
            message: message@,
        }),
        event matches RefreshEvent::SessionsScanned { observation } ==> event@ == (
        EventModel::SessionsScanned { observation: opt_observation(observation) }),
        event matches RefreshEvent::Fetched { result } ==> event@ == (EventModel::Fetched {
            quota: result.quota@,
            plan_type: opt_text(result.plan_type),
        }),
        event matches RefreshEvent::NotFetched { message } ==> event@ == (EventModel::NotFetched {
            message: message@,
        }),
        action matches RefreshAction::Save { index_changed } ==> action@ == (ActionModel::Save {
            index_changed,
        }),
        action matches RefreshAction::Succeed(quota) ==> action@ == ActionModel::Succeed(quota@),
        action matches RefreshAction::Fail(message) ==> action@ == ActionModel::Fail(message@),
        action is FetchUsage ==> action@ == ActionModel::FetchUsage,
        action is FetchFromProvider ==> action@ == ActionModel::FetchFromProvider,
        action is ScanSessions ==> action@ == ActionModel::ScanSessions,
        action is RefreshTokens ==> action@ == ActionModel::RefreshTokens,
        action is Wait ==> action@ == ActionModel::Wait,
{
}

/// A map shows, for each key, the value of the first entry for it.
pub proof fn map_is_shown<V: View>(map: TextMap<V>, key: Seq<char>, at: int)
    requires
        0 <= at < map.entries@.len(),
        map.entries@[at].0@ == key,
        forall|i: int| 0 <= i < at ==> (#[trigger] map.entries@[i]).0@ != key,
    ensures
        map@.contains_key(key),
        map@[key] == map.entries@[at].1@,
{
    crate::text_map::lemma_entry_index_is(map.entries@, key, at);
}

} // verus!
