//! Accounts of the Cockpit API: which they are, and what their quota is.
use vstd::prelude::*;

use crate::double::{percentage_of, share_in_percent};
use crate::json::{
    fields_of, i64_or_zero, json_bool_in, json_get, json_integer, json_object, json_of_text,
    json_text_in, number_of, parse_json, read_bool, read_i64, text_field, Json, JsonValue,
};
use crate::models::codex::{
    accounts_of, AccountModel, CodexAccount, CodexAuthMode, CodexQuota, QuotaModel,
};
use crate::quota::usage::FetchQuotaResult;
use crate::text::{
    as_text, decimal, decimal_of, is_text, joined, lower_of, opt_str, opt_text, same_ignoring_case,
    same_text, strings_of, to_ascii_lowercase, trim, trim_end_matches, trim_end_matches_of, trim_of,
};
use crate::urls::{
    can_take_path, fragmentless, has_room_for, is_plain_path, is_web_scheme, moved, parse_url,
    parts_of, queryless, spells, url_of, url_with_path, url_without_fragment, url_without_query,
    with_path, without_fragment, without_query, UrlModel, UrlParts,
};

verus! {

/// Whether a scheme is one of the web.
fn has_web_scheme(parts: &UrlParts) -> (web: bool)
    ensures
        web == is_web_scheme(parts@.scheme),
{
    same_text(parts.scheme.as_str(), "http") || same_text(parts.scheme.as_str(), "https")
}

/// What a base URL is told from others by: scheme, host, port and path in small letters, without
/// slashes at the end. Only URLs of the web with a host have it.
pub open spec fn url_key(parts: UrlModel) -> Option<Seq<char>> {
    match parts.host {
        Some(host) => if is_web_scheme(parts.scheme) {
            let port = match parts.port {
                Some(port) => ":"@ + decimal_of(port as int),
                None => Seq::empty(),
            };
            Some(
                lower_of(
                    parts.scheme + "://"@ + host + port + trim_end_matches_of(parts.path, '/'),
                ),
            )
        } else {
            None
        },
        None => None,
    }
}

/// What a base URL is told from others by.
pub fn key_of_url(parts: &UrlParts) -> (key: Option<String>)
    ensures
        opt_text(key) == url_key(parts@),
{
    if !has_web_scheme(parts) {
        return None;
    }
    let host = match &parts.host {
        Some(host) => host,
        None => {
            return None;
        },
    };
    let mut key = joined(parts.scheme.as_str(), "://");
    key.append(host.as_str());
    let ghost start = key@;
    if let Some(port) = parts.port {
        key.append(":");
        key.append(decimal(port as i128).as_str());
    }
    proof {
        let port = match parts.port {
            Some(port) => ":"@ + decimal_of(port as int),
            None => Seq::empty(),
        };
        assert(key@ =~= start + port);
    }
    key.append(trim_end_matches(parts.path.as_str(), '/'));
    Some(to_ascii_lowercase(key.as_str()))
}

/// What an optional base URL is told from others by.
pub open spec fn base_url_key(raw: Option<Seq<char>>) -> Option<Seq<char>> {
    match raw {
        Some(raw) => match url_of(trim_of(raw)) {
            Ok(parts) => url_key(parts),
            Err(_) => None,
        },
        None => None,
    }
}

/// What an optional base URL is told from others by.
pub fn normalize_api_base_url_for_match(raw: Option<&str>) -> (key: Option<String>)
    ensures
        opt_text(key) == base_url_key(opt_str(raw)),
{
    match raw {
        Some(raw) => match parse_url(trim(raw)) {
            Ok(parts) => key_of_url(&parts),
            Err(_) => None,
        },
        None => None,
    }
}

/// The base URL of the Cockpit API.
pub open spec fn cockpit_base_url() -> Seq<char> {
    "https://chongcodex.cn/v1"@
}

/// The base URL is that of the Cockpit API.
pub open spec fn is_cockpit_url(raw: Option<Seq<char>>) -> bool {
    base_url_key(raw) is Some && base_url_key(raw) == base_url_key(Some(cockpit_base_url()))
}

/// Whether a base URL is that of the Cockpit API.
pub fn is_cockpit_api_base_url(raw: Option<&str>) -> (cockpit: bool)
    ensures
        cockpit == is_cockpit_url(opt_str(raw)),
{
    let expected = normalize_api_base_url_for_match(Some("https://chongcodex.cn/v1"));
    match normalize_api_base_url_for_match(raw) {
        Some(actual) => is_text(as_text(&expected), actual.as_str()),
        None => false,
    }
}

/// The optional text is one of two names, but for case and outer white space.
pub open spec fn is_named(text: Option<Seq<char>>, first: Seq<char>, second: Seq<char>) -> bool {
    text matches Some(text) && (lower_of(trim_of(text)) == lower_of(first) || lower_of(
        trim_of(text),
    ) == lower_of(second))
}

/// Whether an optional text is one of two names.
fn has_name(text: Option<&str>, first: &str, second: &str) -> (named: bool)
    ensures
        named == is_named(opt_str(text), first@, second@),
{
    match text {
        Some(text) => same_ignoring_case(trim(text), first) || same_ignoring_case(
            trim(text),
            second,
        ),
        None => false,
    }
}

/// The account is one of the Cockpit API: by its provider, its base URL or its plan.
pub open spec fn is_cockpit_account(account: AccountModel) -> bool {
    ||| is_named(account.api_provider_id, "cockpit_api"@, "new_api"@)
    ||| is_cockpit_url(account.api_base_url)
    ||| is_named(account.plan_type, "Cockpit Api"@, "NEW_API_EXCLUSIVE"@)
}

/// Whether an account is one of the Cockpit API.
pub fn is_new_api_account(account: &CodexAccount) -> (cockpit: bool)
    ensures
        cockpit == is_cockpit_account(account@),
{
    has_name(as_text(&account.api_provider_id), "cockpit_api", "new_api")
        || is_cockpit_api_base_url(as_text(&account.api_base_url)) || has_name(
        as_text(&account.plan_type),
        "Cockpit Api",
        "NEW_API_EXCLUSIVE",
    )
}

/// The quota of the account can be looked up.
pub open spec fn is_refreshable(account: AccountModel) -> bool {
    account.auth_mode != CodexAuthMode::ApiKey || is_cockpit_account(account)
}

/// The names of the accounts whose quota can be looked up, in their order.
pub open spec fn refreshable_ids(accounts: Seq<AccountModel>) -> Seq<Seq<char>>
    decreases accounts.len(),
{
    if accounts.len() == 0 {
        Seq::empty()
    } else {
        let before = refreshable_ids(accounts.drop_last());
        if is_refreshable(accounts.last()) {
            before.push(accounts.last().id)
        } else {
            before
        }
    }
}

/// The names of the accounts whose quota can be looked up, in their order.
pub fn quota_refresh_targets(accounts: &[CodexAccount]) -> (ids: Vec<String>)
    ensures
        strings_of(ids@) == refreshable_ids(
            accounts_of(accounts@),
        ),
{
    let ghost all = accounts_of(accounts@);
    let mut ids: Vec<String> = Vec::new();
    let total = accounts.len();
    let mut at: usize = 0;
    assert(strings_of(ids@) =~= Seq::empty());
    while at < total
        invariant
            all == accounts_of(accounts@),
            total == accounts@.len() == all.len(),
            at <= total,
            strings_of(ids@) == refreshable_ids(all.take(at as int)),
        decreases total - at,
    {
        let account = &accounts[at];
        let ghost before = strings_of(ids@);
        assert(all.take(at + 1).last() == account@);
        assert(all.take(at + 1).drop_last() =~= all.take(at as int));
        if !account.is_api_key_auth() || is_new_api_account(account) {
            ids.push(account.id.clone());
            assert(strings_of(ids@) =~= before.push(account@.id));
        }
        at = at + 1;
    }
    assert(all.take(at as int) =~= all);
    ids
}

/// An optional text without outer white space, unless it is blank.
pub open spec fn filled(text: Option<Seq<char>>) -> Option<Seq<char>> {
    match text {
        Some(text) => if trim_of(text).len() == 0 {
            None
        } else {
            Some(trim_of(text))
        },
        None => None,
    }
}

/// An optional text without outer white space, unless it is blank.
fn trim_filled(text: &Option<String>) -> (trimmed: Option<&str>)
    ensures
        opt_str(trimmed) == filled(opt_text(*text)),
{
    match text {
        Some(text) => {
            let trimmed = trim(text.as_str());
            if trimmed.is_empty() {
                None
            } else {
                Some(trimmed)
            }
        },
        None => None,
    }
}

/// The path under which an account's quota is looked up.
pub open spec fn profile_path() -> Seq<char> {
    "/api/cockpit-tools/token-profile"@
}

/// Why a base URL cannot have a quota under it, if it cannot: only URLs of the web can, with room
/// for the path.
pub open spec fn base_url_flaw(parts: UrlModel) -> Option<Seq<char>> {
    if !is_web_scheme(parts.scheme) {
        Some("Cockpit Api Base URL 仅支持 http/https"@)
    } else if !has_room_for(parts, profile_path()) {
        Some("Cockpit Api Base URL 无效: URLs more than 4 GB are not supported"@)
    } else {
        None
    }
}

/// Why a base URL cannot have a quota under it, if it cannot.
pub fn find_base_url_flaw(parts: &UrlParts) -> (flaw: Option<String>)
    ensures
        opt_text(flaw) == base_url_flaw(parts@),
{
    if !has_web_scheme(parts) {
        Some("Cockpit Api Base URL 仅支持 http/https".to_owned())
    } else if !can_take_path(parts, "/api/cockpit-tools/token-profile") {
        Some("Cockpit Api Base URL 无效: URLs more than 4 GB are not supported".to_owned())
    } else {
        None
    }
}

/// The URL of a quota under a base URL: with the path of the quota, and nothing behind it.
pub open spec fn profile_url_under(base_url: Seq<char>) -> Seq<char> {
    url_without_fragment(url_without_query(url_with_path(base_url, profile_path())))
}

/// The URL of an account's quota, from its base URL; or why there is none.
pub open spec fn profile_url(base_url: Option<Seq<char>>) -> Result<Seq<char>, Seq<char>> {
    match filled(base_url) {
        Some(base_url) => match url_of(base_url) {
            Ok(parts) => match base_url_flaw(parts) {
                Some(flaw) => Err(flaw),
                None => Ok(profile_url_under(base_url)),
            },
            Err(message) => Err("Cockpit Api Base URL 无效: "@ + message),
        },
        None => Err("Cockpit Api 账号缺少 Base URL"@),
    }
}

/// A result of a text or an error, as characters.
pub open spec fn text_result(result: Result<String, String>) -> Result<Seq<char>, Seq<char>> {
    match result {
        Ok(text) => Ok(text@),
        Err(message) => Err(message@),
    }
}

/// The URL of an account's quota: scheme, host and port are those of the base URL.
pub fn build_new_api_profile_url(account: &CodexAccount) -> (url: Result<String, String>)
    ensures
        text_result(url) == profile_url(account@.api_base_url),
        url matches Ok(url) ==> spells(
            url@,
            fragmentless(
                queryless(moved(parts_of(filled(account@.api_base_url)->Some_0), profile_path())),
            ),
        ),
{
    let base_url = match trim_filled(&account.api_base_url) {
        Some(base_url) => base_url,
        None => {
            return Err("Cockpit Api 账号缺少 Base URL".to_owned());
        },
    };
    let parts = match parse_url(base_url) {
        Ok(parts) => parts,
        Err(message) => {
            return Err(joined("Cockpit Api Base URL 无效: ", message.as_str()));
        },
    };
    if let Some(flaw) = find_base_url_flaw(&parts) {
        return Err(flaw);
    }
    proof {
        reveal_strlit("/api/cockpit-tools/token-profile");
        assert(is_plain_path(profile_path()));
    }
    let under = with_path(base_url, "/api/cockpit-tools/token-profile");
    let bare = without_query(under.as_str());
    Ok(without_fragment(bare.as_str()))
}

/// What is left of a quota, in percent: all of an unlimited one, nothing of one that grants
/// nothing.
pub open spec fn available_percent(available: i64, total: i64, unlimited: bool) -> int {
    if unlimited {
        100
    } else if total <= 0 {
        0
    } else {
        share_in_percent(
            (if available > 0 {
                available
            } else {
                0
            }) as nat,
            total as nat,
        )
    }
}

/// What is left of a quota, in percent.
pub fn new_api_percentage(available: i64, total: i64, unlimited: bool) -> (percent: i32)
    ensures
        percent == available_percent(available, total, unlimited),
        0 <= percent <= 100,
{
    if unlimited {
        return 100;
    }
    if total <= 0 {
        return 0;
    }
    let part: u64 = if available > 0 {
        available as u64
    } else {
        0
    };
    percentage_of(part, total as u64)
}

/// What a request for an account's quota needs: the key and the URL; or why it cannot be made.
pub open spec fn provider_request(account: AccountModel) -> Result<(Seq<char>, Seq<char>), Seq<char>> {
    match filled(account.openai_api_key) {
        Some(api_key) => match profile_url(account.api_base_url) {
            Ok(url) => Ok((api_key, url)),
            Err(message) => Err(message),
        },
        None => Err("Cockpit Api 账号缺少 OPENAI_API_KEY"@),
    }
}

/// What a request for an account's quota needs.
pub fn new_api_quota_request(account: &CodexAccount) -> (request: Result<(String, String), String>)
    ensures
        provider_request(account@) == (match request {
            Ok(request) => Ok((request.0@, request.1@)),
            Err(message) => Err(message@),
        }),
{
    let api_key = match trim_filled(&account.openai_api_key) {
        Some(api_key) => api_key,
        None => {
            return Err("Cockpit Api 账号缺少 OPENAI_API_KEY".to_owned());
        },
    };
    match build_new_api_profile_url(account) {
        Ok(url) => Ok((api_key.to_owned(), url)),
        Err(message) => Err(message),
    }
}

/// The plan of an account, as the response names it.
pub open spec fn provider_plan(data: Json) -> Seq<char> {
    match filled(json_text_in(json_get(data, "plan_type"@))) {
        Some(plan) => plan,
        None => "Cockpit Api"@,
    }
}

/// What a quota of the Cockpit API records of its origin.
pub open spec fn provider_raw_data(data: Json, usage: Json) -> Json {
    Json::Object(
        seq![
            ("object"@, Json::Text("codex_cockpit_api_quota"@)),
            ("profile"@, data),
            ("provider"@, Json::Text("cockpit-api"@)),
            ("total_available"@, Json::Number(number_of(i64_or_zero(usage, "total_available"@)))),
            ("total_granted"@, Json::Number(number_of(i64_or_zero(usage, "total_granted"@)))),
            ("total_used"@, Json::Number(number_of(i64_or_zero(usage, "total_used"@)))),
            (
                "unlimited_quota"@,
                Json::Bool(json_bool_in(json_get(usage, "unlimited_quota"@)) == Some(true)),
            ),
            ("usage"@, usage),
        ],
    )
}

/// The quota that a usage of the Cockpit API describes: one window, of what is available.
pub open spec fn provider_quota(data: Json, usage: Json) -> QuotaModel {
    let expires_at = i64_or_zero(usage, "expires_at"@);
    QuotaModel {
        hourly_percentage: available_percent(
            i64_or_zero(usage, "total_available"@),
            i64_or_zero(usage, "total_granted"@),
            json_bool_in(json_get(usage, "unlimited_quota"@)) == Some(true),
        ) as i32,
        hourly_reset_time: if expires_at > 0 {
            Some(expires_at)
        } else {
            None
        },
        hourly_window_minutes: None,
        hourly_window_present: Some(true),
        weekly_percentage: 0,
        weekly_reset_time: None,
        weekly_window_minutes: None,
        weekly_window_present: Some(false),
        raw_data: Some(provider_raw_data(data, usage)),
    }
}

/// The quota and the plan that a response of the Cockpit API describes, or its message if it says
/// that it failed.
pub open spec fn provider_result(root: Json) -> Result<(QuotaModel, Option<Seq<char>>), Seq<char>> {
    if json_bool_in(json_get(root, "success"@)) == Some(false) {
        Err(
            match json_text_in(json_get(root, "message"@)) {
                Some(message) => message,
                None => "Cockpit Api 额度接口返回失败"@,
            },
        )
    } else {
        let data = match json_get(root, "data"@) {
            Some(data) => data,
            None => root,
        };
        match json_get(data, "usage"@) {
            Some(usage) => Ok((provider_quota(data, usage), Some(provider_plan(data)))),
            None => Err("Cockpit Api 额度响应缺少 usage"@),
        }
    }
}

/// A quota and a plan, or an error, mathematically.
pub open spec fn quota_result(result: Result<FetchQuotaResult, String>) -> Result<
    (QuotaModel, Option<Seq<char>>),
    Seq<char>,
> {
    match result {
        Ok(result) => Ok((result.quota@, opt_text(result.plan_type))),
        Err(message) => Err(message@),
    }
}

/// The quota and the plan that a response of the Cockpit API describes.
pub fn new_api_quota_from_json(root: &JsonValue) -> (result: Result<FetchQuotaResult, String>)
    ensures
        quota_result(result) == provider_result(root@),
{
    let failed = match root.get("success") {
        Some(item) => match item.as_bool() {
            Some(success) => !success,
            None => false,
        },
        None => false,
    };
    if failed {
        return match text_field(root, "message") {
            Some(message) => Err(message.to_owned()),
            None => Err("Cockpit Api 额度接口返回失败".to_owned()),
        };
    }
    let data = match root.get("data") {
        Some(data) => data,
        None => root,
    };
    let usage = match data.get("usage") {
        Some(usage) => usage,
        None => {
            return Err("Cockpit Api 额度响应缺少 usage".to_owned());
        },
    };
    let total = read_i64(usage, "total_granted");
    let used = read_i64(usage, "total_used");
    let available = read_i64(usage, "total_available");
    let unlimited = read_bool(usage, "unlimited_quota");
    let percentage = new_api_percentage(available, total, unlimited);
    let expires_at = read_i64(usage, "expires_at");
    let reset_time = if expires_at > 0 {
        Some(expires_at)
    } else {
        None
    };
    let raw_fields: Vec<(String, JsonValue)> = vec![
        ("object".to_owned(), JsonValue::Text("codex_cockpit_api_quota".to_owned())),
        ("profile".to_owned(), data.clone()),
        ("provider".to_owned(), JsonValue::Text("cockpit-api".to_owned())),
        ("total_available".to_owned(), json_integer(available)),
        ("total_granted".to_owned(), json_integer(total)),
        ("total_used".to_owned(), json_integer(used)),
        ("unlimited_quota".to_owned(), JsonValue::Bool(unlimited)),
        ("usage".to_owned(), usage.clone()),
    ];
    proof {
        assert(fields_of(raw_fields@) =~= provider_raw_data(data@, usage@)->Object_0);
    }
    let plan = match text_field(data, "plan_type") {
        Some(plan) => {
            let plan = trim(plan);
            if plan.is_empty() {
                "Cockpit Api".to_owned()
            } else {
                plan.to_owned()
            }
        },
        None => "Cockpit Api".to_owned(),
    };
    Ok(
        FetchQuotaResult {
            quota: CodexQuota {
                hourly_percentage: percentage,
                hourly_reset_time: reset_time,
                hourly_window_minutes: None,
                hourly_window_present: Some(true),
                weekly_percentage: 0,
                weekly_reset_time: None,
                weekly_window_minutes: None,
                weekly_window_present: Some(false),
                raw_data: Some(json_object(raw_fields)),
            },
            plan_type: Some(plan),
        },
    )
}

/// The quota and the plan in a response of the Cockpit API with the given status, or why there is
/// none: only the status of a success has one.
pub open spec fn provider_response(status: u16, body: Seq<char>) -> Result<
    (QuotaModel, Option<Seq<char>>),
    Seq<char>,
> {
    if 200 <= status < 300 {
        match json_of_text(body) {
            Ok(root) => provider_result(root),
            Err(message) => Err("解析 Cockpit Api 额度 JSON 失败: "@ + message),
        }
    } else {
        Err("Cockpit Api 额度接口返回 HTTP "@ + decimal_of(status as int))
    }
}

/// The quota and the plan in a response of the Cockpit API.
pub fn new_api_quota_from_response(status: u16, body: &str) -> (result: Result<
    FetchQuotaResult,
    String,
>)
    ensures
        quota_result(result) == provider_response(status, body@),
{
    if status < 200 || status >= 300 {
        return Err(
            joined("Cockpit Api 额度接口返回 HTTP ", decimal(status as i128).as_str()),
        );
    }
    match parse_json(body) {
        Ok(root) => new_api_quota_from_json(&root),
        Err(message) => Err(
            joined("解析 Cockpit Api 额度 JSON 失败: ", message.as_str()),
        ),
    }
}

} // verus!
