//! What holds of quotas of the Cockpit API.
use vstd::prelude::*;

use crate::double::share_is_near_the_exact_one;
use crate::json::{i64_or_zero, json_get, json_of_text, number_of, Json};
use crate::json_laws::ordered_field_is_found;
use crate::models::codex::{AccountModel, CodexAuthMode, QuotaModel};
use crate::quota::laws::provider_origin_is_in_key_order;
use crate::quota::provider::{
    available_percent, filled, is_cockpit_account, is_cockpit_url, is_named,
    is_refreshable, profile_url, provider_request, provider_response, provider_result,
    refreshable_ids, url_key,
};
use crate::text::{
    decimal_of, lemma_digits_spell, lower_char, lower_of, trim_end_matches_of, trim_of,
};
use crate::urls::{
    front_length, has_room_for, url_of, url_with_path, url_without_fragment, url_without_query, UrlModel,
};

verus! {

/// All of an unlimited quota is left, whatever is granted, used or available.
pub proof fn unlimited_quota_is_never_used_up(available: i64, total: i64)
    ensures
        available_percent(available, total, true) == 100,
{
}

/// Nothing is left of a limited quota that grants nothing, or of which nothing is available; all of
/// one of which all is; and in between as much as is available of what is granted, to the nearest
/// percent but for thousandths.
pub proof fn limited_quota_is_what_is_available(available: i64, total: i64)
    ensures
        ({
            let percent = available_percent(available, total, false);
            &&& 0 <= percent <= 100
            &&& total <= 0 ==> percent == 0
            &&& total > 0 && available <= 0 ==> percent == 0
            &&& total > 0 && available >= total ==> percent == 100
            &&& 0 <= available <= total && total > 0 ==> {
                &&& 1000 * (percent * total) <= 100_000 * available + 502 * total
                &&& 1000 * (percent * total) >= 100_000 * available - 502 * total
            }
        }),
{
    if total > 0 {
        share_is_near_the_exact_one(
            (if available > 0 {
                available
            } else {
                0
            }) as nat,
            total as nat,
        );
    }
}

/// What a response describes: its `data` where it has one, else all of it.
pub open spec fn described_in(root: Json) -> Json {
    match json_get(root, "data"@) {
        Some(data) => data,
        None => root,
    }
}

/// A response that says that it failed is an error with its message, or a common one where it has
/// none; so is a response without a usage. Any other response describes a quota.
pub proof fn response_fails_as_it_says(root: Json)
    ensures
        json_get(root, "success"@) == Some(Json::Bool(false)) ==> (match json_get(root, "message"@) {
            Some(Json::Text(message)) => provider_result(root) == Err::<
                (QuotaModel, Option<Seq<char>>),
                Seq<char>,
            >(message),
            _ => provider_result(root) is Err,
        }),
        json_get(root, "success"@) != Some(Json::Bool(false)) ==> provider_result(root) is Ok == json_get(
            described_in(root),
            "usage"@,
        ) is Some,
{
}

/// The quota that a response describes: one window, of what its usage says is available, that resets
/// when the usage expires if that is known; there is no weekly window.
pub proof fn response_describes_one_window(root: Json, usage: Json)
    requires
        json_get(root, "success"@) != Some(Json::Bool(false)),
        json_get(described_in(root), "usage"@) == Some(usage),
    ensures
        provider_result(root) matches Ok((quota, plan)) && ({
            let expires_at = i64_or_zero(usage, "expires_at"@);
            &&& quota.hourly_window_present == Some(true)
            &&& quota.hourly_percentage == available_percent(
                i64_or_zero(usage, "total_available"@),
                i64_or_zero(usage, "total_granted"@),
                json_get(usage, "unlimited_quota"@) == Some(Json::Bool(true)),
            )
            &&& expires_at > 0 ==> quota.hourly_reset_time == Some(expires_at)
            &&& expires_at <= 0 ==> quota.hourly_reset_time is None
            &&& quota.hourly_window_minutes is None
            &&& quota.weekly_window_present == Some(false)
            &&& quota.weekly_percentage == 0
            &&& quota.weekly_reset_time is None
            &&& quota.weekly_window_minutes is None
        }),
{
    let available = i64_or_zero(usage, "total_available"@);
    let total = i64_or_zero(usage, "total_granted"@);
    limited_quota_is_what_is_available(available, total);
    unlimited_quota_is_never_used_up(available, total);
}

/// The plan that a response names is the account's, without white space around it; a plan that is
/// missing or blank is that of the Cockpit API.
pub proof fn response_names_the_plan(root: Json)
    requires
        provider_result(root) is Ok,
    ensures
        provider_result(root)->Ok_0.1 matches Some(plan) && (match json_get(
            described_in(root),
            "plan_type"@,
        ) {
            Some(Json::Text(named)) => if trim_of(named).len() > 0 {
                plan == trim_of(named)
            } else {
                plan == "Cockpit Api"@
            },
            _ => plan == "Cockpit Api"@,
        }),
{
}

/// What a quota of the Cockpit API records of its origin: what the response described, and the
/// numbers that were read from it.
pub proof fn response_is_recorded(root: Json, usage: Json)
    requires
        json_get(root, "success"@) != Some(Json::Bool(false)),
        json_get(described_in(root), "usage"@) == Some(usage),
    ensures
        provider_result(root)->Ok_0.0.raw_data matches Some(raw) && ({
            &&& json_get(raw, "object"@) == Some(Json::Text("codex_cockpit_api_quota"@))
            &&& json_get(raw, "provider"@) == Some(Json::Text("cockpit-api"@))
            &&& json_get(raw, "profile"@) == Some(described_in(root))
            &&& json_get(raw, "usage"@) == Some(usage)
            &&& json_get(raw, "total_available"@) == Some(
                Json::Number(number_of(i64_or_zero(usage, "total_available"@))),
            )
            &&& json_get(raw, "total_granted"@) == Some(
                Json::Number(number_of(i64_or_zero(usage, "total_granted"@))),
            )
            &&& json_get(raw, "total_used"@) == Some(
                Json::Number(number_of(i64_or_zero(usage, "total_used"@))),
            )
            &&& json_get(raw, "unlimited_quota"@) == Some(
                Json::Bool(json_get(usage, "unlimited_quota"@) == Some(Json::Bool(true))),
            )
        }),
{
    let raw = provider_result(root)->Ok_0.0.raw_data->0;
    provider_origin_is_in_key_order(described_in(root), usage);
    let fields = raw->Object_0;
    ordered_field_is_found(fields, 0);
    ordered_field_is_found(fields, 1);
    ordered_field_is_found(fields, 2);
    ordered_field_is_found(fields, 3);
    ordered_field_is_found(fields, 4);
    ordered_field_is_found(fields, 5);
    ordered_field_is_found(fields, 6);
    ordered_field_is_found(fields, 7);
}

/// Only a response with the status of a success describes a quota, and it describes what its body
/// does; a body that is no JSON and any other status are errors.
pub proof fn only_successes_describe_a_quota(status: u16, body: Seq<char>)
    ensures
        status < 200 || status > 299 ==> provider_response(status, body) == Err::<
            (QuotaModel, Option<Seq<char>>),
            Seq<char>,
        >("Cockpit Api 额度接口返回 HTTP "@ + decimal_of(status as int)),
        200 <= status <= 299 ==> (match json_of_text(body) {
            Ok(root) => provider_response(status, body) == provider_result(root),
            Err(_) => provider_response(status, body) is Err,
        }),
{
}

/// A name is told without case and without white space around it.
pub proof fn names_are_told_without_case(text: Seq<char>, first: Seq<char>, second: Seq<char>)
    ensures
        lower_of(trim_of(text)) == lower_of(first) ==> is_named(Some(text), first, second),
        lower_of(trim_of(text)) == lower_of(second) ==> is_named(Some(text), first, second),
        is_named(Some(text), first, second) ==> lower_of(trim_of(text)) == lower_of(first)
            || lower_of(trim_of(text)) == lower_of(second),
        !is_named(None, first, second),
{
}

/// An account is one of the Cockpit API by its provider, its plan or its base URL, each alone; and by
/// nothing else.
pub proof fn cockpit_accounts_are_known(account: AccountModel)
    ensures
        account.api_provider_id matches Some(provider) && lower_of(trim_of(provider)) == lower_of(
            "cockpit_api"@,
        ) ==> is_cockpit_account(account),
        account.api_provider_id matches Some(provider) && lower_of(trim_of(provider)) == lower_of(
            "new_api"@,
        ) ==> is_cockpit_account(account),
        account.plan_type matches Some(plan) && lower_of(trim_of(plan)) == lower_of("Cockpit Api"@)
            ==> is_cockpit_account(account),
        account.plan_type matches Some(plan) && lower_of(trim_of(plan)) == lower_of(
            "NEW_API_EXCLUSIVE"@,
        ) ==> is_cockpit_account(account),
        is_cockpit_url(account.api_base_url) ==> is_cockpit_account(account),
        account.api_provider_id is None && account.plan_type is None && !is_cockpit_url(
            account.api_base_url,
        ) ==> !is_cockpit_account(account),
        is_cockpit_account(account) ==> {
            ||| is_cockpit_url(account.api_base_url)
            ||| account.api_provider_id matches Some(provider) && (lower_of(trim_of(provider))
                == lower_of("cockpit_api"@) || lower_of(trim_of(provider)) == lower_of("new_api"@))
            ||| account.plan_type matches Some(plan) && (lower_of(trim_of(plan)) == lower_of(
                "Cockpit Api"@,
            ) || lower_of(trim_of(plan)) == lower_of("NEW_API_EXCLUSIVE"@))
        },
{
}

/// Base URLs are told apart by scheme, host, port and path alone, and only those of the web that have
/// a host are told at all: two of the same such parts have one key, whatever stands behind the path.
pub proof fn base_urls_are_told_by_their_parts(left: UrlModel, right: UrlModel)
    requires
        left.scheme == right.scheme,
        left.host == right.host,
        left.port == right.port,
        trim_end_matches_of(left.path, '/') == trim_end_matches_of(right.path, '/'),
    ensures
        url_key(left) == url_key(right),
        (left.scheme == "http"@ || left.scheme == "https"@) && left.host is Some ==> url_key(
            left,
        ) is Some,
        left.scheme != "http"@ && left.scheme != "https"@ ==> url_key(left) is None,
        left.host is None ==> url_key(left) is None,
{
}

/// A base URL is that of the Cockpit API if it has the same key as its address, and a text that is no
/// URL never is.
pub proof fn cockpit_url_is_known(raw: Seq<char>)
    ensures
        url_of(trim_of(raw)) is Err ==> !is_cockpit_url(Some(raw)),
        !is_cockpit_url(None),
        url_of(trim_of(raw)) matches Ok(parts) && url_of(
            trim_of("https://chongcodex.cn/v1"@),
        ) matches Ok(known) && url_key(parts) is Some && url_key(parts) == url_key(known)
            ==> is_cockpit_url(Some(raw)),
        url_of(trim_of(raw)) matches Ok(parts) && url_of(
            trim_of("https://chongcodex.cn/v1"@),
        ) matches Ok(known) && url_key(parts) != url_key(known) ==> !is_cockpit_url(Some(raw)),
{
}

/// The quota of every account can be looked up but of those that sign in with an API key and are not
/// of the Cockpit API.
pub proof fn accounts_to_refresh(account: AccountModel)
    ensures
        account.auth_mode == CodexAuthMode::OAuth ==> is_refreshable(account),
        account.auth_mode == CodexAuthMode::ApiKey ==> is_refreshable(account) == is_cockpit_account(
            account,
        ),
{
}

/// The accounts to refresh are all those whose quota can be looked up, and no others, in their order:
/// each account adds its name behind those before it, or nothing.
pub proof fn every_account_to_refresh_is_listed(
    before: Seq<AccountModel>,
    account: AccountModel,
    after: Seq<AccountModel>,
)
    ensures
        refreshable_ids(before + seq![account] + after) == refreshable_ids(before) + (
        if is_refreshable(account) {
            seq![account.id]
        } else {
            Seq::empty()
        }) + refreshable_ids(after),
    decreases after.len(),
{
    let all = before + seq![account] + after;
    let own = if is_refreshable(account) {
        seq![account.id]
    } else {
        Seq::empty()
    };
    if after.len() == 0 {
        assert(all.drop_last() =~= before);
        assert(all.last() == account);
        assert(refreshable_ids(all) =~= refreshable_ids(before) + own + refreshable_ids(after));
    } else {
        every_account_to_refresh_is_listed(before, account, after.drop_last());
        assert(all.drop_last() =~= before + seq![account] + after.drop_last());
        assert(all.last() == after.last());
        assert(refreshable_ids(all) =~= refreshable_ids(before) + own + refreshable_ids(after));
    }
}

/// A text without white space around it, unless it is blank.
pub proof fn blank_texts_count_as_missing(text: Seq<char>)
    ensures
        trim_of(text).len() > 0 ==> filled(Some(text)) == Some(trim_of(text)),
        trim_of(text).len() == 0 ==> filled(Some(text)) is None,
        filled(None) is None,
{
}

/// A quota can be looked up under a base URL of the web that leaves room for the path, and under no
/// other; a request needs a key too, which it carries without white space around it.
pub proof fn request_needs_a_key_and_a_web_url(account: AccountModel)
    ensures
        filled(account.openai_api_key) is None ==> provider_request(account) is Err,
        filled(account.api_base_url) is None ==> provider_request(account) is Err,
        filled(account.api_base_url) matches Some(base) && url_of(base) is Err ==> provider_request(
            account,
        ) is Err,
        filled(account.api_base_url) matches Some(base) && url_of(base) matches Ok(parts)
            && parts.scheme != "http"@ && parts.scheme != "https"@ ==> provider_request(
            account,
        ) is Err,
        filled(account.api_base_url) matches Some(base) && url_of(base) matches Ok(parts) && filled(
            account.openai_api_key,
        ) is Some && (parts.scheme == "http"@ || parts.scheme == "https"@) && has_room_for(parts, "/api/cockpit-tools/token-profile"@)
            ==> provider_request(account) is Ok && Some(
            provider_request(account)->Ok_0.0,
        ) == filled(account.openai_api_key) && profile_url(account.api_base_url) == Ok::<Seq<char>, Seq<char>>(
            provider_request(account)->Ok_0.1,
        ),
        filled(account.openai_api_key) is Some && profile_url(account.api_base_url) is Err
            ==> provider_request(account) is Err && provider_request(account)->Err_0 == profile_url(
            account.api_base_url,
        )->Err_0,
{
}

/// The key of a base URL of the web is its scheme, its host, its port where it has an own one, and its
/// path without slashes at the end, in small letters.
pub proof fn base_url_key_is_made_of_its_parts(parts: UrlModel, host: Seq<char>)
    requires
        parts.scheme == "http"@ || parts.scheme == "https"@,
        parts.host == Some(host),
    ensures
        parts.port is None ==> url_key(parts) == Some(
            lower_of(parts.scheme + "://"@ + host + trim_end_matches_of(parts.path, '/')),
        ),
        parts.port matches Some(port) ==> url_key(parts) == Some(
            lower_of(
                parts.scheme + "://"@ + host + (":"@ + decimal_of(port as int)) + trim_end_matches_of(
                    parts.path,
                    '/',
                ),
            ),
        ),
{
    assert(parts.scheme + "://"@ + host + Seq::<char>::empty() =~= parts.scheme + "://"@ + host);
}

/// Base URLs on different ports are told apart.
pub proof fn ports_are_told_apart(parts: UrlModel, left: u16, right: u16)
    requires
        parts.scheme == "http"@ || parts.scheme == "https"@,
        parts.host is Some,
        left != right,
    ensures
        url_key(UrlModel { port: Some(left), ..parts }) != url_key(
            UrlModel { port: Some(right), ..parts },
        ),
{
    let host = parts.host->0;
    let first = UrlModel { port: Some(left), ..parts };
    let second = UrlModel { port: Some(right), ..parts };
    base_url_key_is_made_of_its_parts(first, host);
    base_url_key_is_made_of_its_parts(second, host);
    let head = parts.scheme + "://"@ + host;
    let path = trim_end_matches_of(parts.path, '/');
    let left_digits = decimal_of(left as int);
    let right_digits = decimal_of(right as int);
    if url_key(first) == url_key(second) {
        reveal_strlit(":");
        let key = url_key(first)->0;
        let from = (head.len() + 1) as int;
        let left_text = head + (":"@ + left_digits) + path;
        let right_text = head + (":"@ + right_digits) + path;
        assert(key == lower_of(left_text) && key == lower_of(right_text));
        assert(key.len() == left_text.len() && key.len() == right_text.len());
        assert(left_digits.len() == right_digits.len());
        lemma_digits_spell(left as nat);
        lemma_digits_spell(right as nat);
        assert forall|i: int| 0 <= i < left_digits.len() implies left_digits[i] == right_digits[i] by {
            assert(crate::text::is_digit(left_digits[i]));
            assert(crate::text::is_digit(right_digits[i]));
            assert(left_text[from + i] == left_digits[i]);
            assert(right_text[from + i] == right_digits[i]);
            assert(key[from + i] == lower_char(left_digits[i]));
            assert(key[from + i] == lower_char(right_digits[i]));
        }
        assert(left_digits =~= right_digits);
    }
}

/// A URL with a quota under it has the path of the quota, and neither a query nor a fragment.
pub proof fn quota_stands_under_its_path(base: Seq<char>)
    requires
        trim_of(base).len() > 0,
        profile_url(Some(base)) is Ok,
    ensures
        profile_url(Some(base))->Ok_0 == url_without_fragment(
            url_without_query(url_with_path(trim_of(base), "/api/cockpit-tools/token-profile"@)),
        ),
{
}

/// A URL of some four gigabytes at most, with the path that it is to take, has room for it; and there is
/// none where the path, old or new, would end beyond.
pub proof fn short_urls_have_room(parts: UrlModel, path: Seq<char>)
    ensures
        front_length(parts) >= 0 && parts.length + path.len() <= 0xffff_ffff ==> has_room_for(
            parts,
            path,
        ),
        parts.query is None && parts.fragment is None ==> has_room_for(parts, path) == (parts.length
            <= 0xffff_ffff && parts.length - parts.path.len() + path.len() <= 0xffff_ffff),
        parts.query is None && parts.fragment is None && parts.length > 0xffff_ffff ==> !has_room_for(
            parts,
            path,
        ),
{
}

/// What a base URL under which no quota can be looked up is told, by what is wrong with it.
pub proof fn unusable_base_urls_are_told(raw: Option<Seq<char>>)
    ensures
        filled(raw) is None ==> profile_url(raw) == Err::<Seq<char>, Seq<char>>(
            "Cockpit Api 账号缺少 Base URL"@,
        ),
        filled(raw) matches Some(base) ==> {
            &&& url_of(base) matches Err(message) ==> profile_url(raw) == Err::<Seq<char>, Seq<char>>(
                "Cockpit Api Base URL 无效: "@ + message,
            )
            &&& url_of(base) matches Ok(parts) ==> {
                &&& parts.scheme != "http"@ && parts.scheme != "https"@ ==> profile_url(raw)
                    == Err::<Seq<char>, Seq<char>>("Cockpit Api Base URL 仅支持 http/https"@)
                &&& (parts.scheme == "http"@ || parts.scheme == "https"@) && !has_room_for(
                    parts,
                    "/api/cockpit-tools/token-profile"@,
                ) ==> profile_url(raw) == Err::<Seq<char>, Seq<char>>(
                    "Cockpit Api Base URL 无效: URLs more than 4 GB are not supported"@,
                )
            }
        },
{
}

/// What a response without a quota is told, by what is wrong with it.
pub proof fn responses_without_a_quota_are_told(root: Json, account: AccountModel)
    ensures
        json_get(root, "success"@) == Some(Json::Bool(false)) && !(json_get(
            root,
            "message"@,
        ) matches Some(Json::Text(_))) ==> provider_result(root) == Err::<
            (QuotaModel, Option<Seq<char>>),
            Seq<char>,
        >("Cockpit Api 额度接口返回失败"@),
        json_get(root, "success"@) != Some(Json::Bool(false)) && json_get(
            described_in(root),
            "usage"@,
        ) is None ==> provider_result(root) == Err::<(QuotaModel, Option<Seq<char>>), Seq<char>>(
            "Cockpit Api 额度响应缺少 usage"@,
        ),
        filled(account.openai_api_key) is None ==> provider_request(account) == Err::<
            (Seq<char>, Seq<char>),
            Seq<char>,
        >("Cockpit Api 账号缺少 OPENAI_API_KEY"@),
{
}

/// A body that is no JSON is told with what the parser says of it.
pub proof fn unreadable_bodies_are_told(status: u16, body: Seq<char>)
    requires
        200 <= status <= 299,
    ensures
        json_of_text(body) matches Err(message) ==> provider_response(status, body) == Err::<
            (QuotaModel, Option<Seq<char>>),
            Seq<char>,
        >("解析 Cockpit Api 额度 JSON 失败: "@ + message),
{
}

} // verus!
