use codex_quota::json::parse_json;
use codex_quota::models::codex::{CodexAccount, CodexAuthMode, CodexTokens};
use codex_quota::quota::provider::{
    build_new_api_profile_url, find_base_url_flaw, is_cockpit_api_base_url, is_new_api_account, key_of_url,
    new_api_percentage, new_api_quota_from_json, new_api_quota_from_response, new_api_quota_request,
    normalize_api_base_url_for_match, quota_refresh_targets,
};
use codex_quota::urls::{can_take_path, UrlParts};

fn account(id: &str) -> CodexAccount {
    CodexAccount::new_at(
        id.to_string(),
        "p@example.com".to_string(),
        CodexTokens {
            id_token: String::new(),
            access_token: String::new(),
            refresh_token: None,
        },
        1,
    )
}

#[test]
fn base_urls_are_compared_without_case_and_slashes() {
    let key = |raw: &str| normalize_api_base_url_for_match(Some(raw));
    assert_eq!(key(" HTTPS://Example.COM:443/V1// "), Some("https://example.com/v1".to_string()));
    assert_eq!(key("http://example.com:8080"), Some("http://example.com:8080".to_string()));
    assert_eq!(key("https://example.com/a?b#c"), Some("https://example.com/a".to_string()));
    assert_eq!(key("ftp://example.com/"), None);
    assert_eq!(key("no url"), None);
    assert_eq!(normalize_api_base_url_for_match(None), None);
    assert!(is_cockpit_api_base_url(Some("https://ChongCodex.cn/v1/")));
    assert!(!is_cockpit_api_base_url(Some("https://chongcodex.cn/v2")));
    assert!(!is_cockpit_api_base_url(Some("http://chongcodex.cn/v1")));
    assert!(!is_cockpit_api_base_url(None));
    let parts = |scheme: &str, host: Option<&str>| UrlParts {
        scheme: scheme.to_string(),
        host: host.map(|host| host.to_string()),
        port: Some(81),
        path: "/A/".to_string(),
        query: None,
        fragment: None,
        length: 20,
    };
    assert_eq!(key_of_url(&parts("http", Some("H"))), Some("http://h:81/a".to_string()));
    assert_eq!(key_of_url(&parts("http", None)), None);
    assert_eq!(find_base_url_flaw(&parts("https", None)), None);
    assert_eq!(
        find_base_url_flaw(&parts("ws", Some("H"))),
        Some("Cockpit Api Base URL 仅支持 http/https".to_string())
    );
    assert_eq!(key_of_url(&parts("ws", Some("H"))), None);
}

#[test]
fn a_path_fits_where_its_end_is_counted_in_32_bits() {
    let limit: usize = 0xffff_ffff;
    let path = "/api/cockpit-tools/token-profile";
    assert_eq!(path.len(), 32);
    let parts = |old: &str, query: Option<&str>, fragment: Option<&str>, length: usize| UrlParts {
        scheme: "http".to_string(),
        host: Some("h".to_string()),
        port: None,
        path: old.to_string(),
        query: query.map(|query| query.to_string()),
        fragment: fragment.map(|fragment| fragment.to_string()),
        length,
    };
    let too_long = Some("Cockpit Api Base URL 无效: URLs more than 4 GB are not supported".to_string());
    for (parts, room) in [
        // A short path grows by 31 bytes, and what stands behind it does not count.
        (parts("/", None, None, limit - 31), true),
        (parts("/", None, None, limit - 30), false),
        (parts("/", Some("abc"), None, limit - 31 + 4), true),
        (parts("/", Some("abc"), None, limit - 30 + 4), false),
        (parts("/", None, Some("abc"), limit - 31 + 4), true),
        (parts("/", None, Some("abc"), limit - 30 + 4), false),
        // The fragment still begins within the limit.
        (parts("/", Some("abc"), Some("d"), limit - 31 + 2), true),
        (parts("/", Some("abc"), Some("d"), limit - 30 + 2), false),
        // A longer path has to end within the limit itself.
        (parts("/api/cockpit-tools/token-profile/more", None, None, limit), true),
        (parts("/api/cockpit-tools/token-profile/more", None, None, limit + 1), false),
    ] {
        assert_eq!(can_take_path(&parts, path), room, "{:?}", parts);
        assert_eq!(find_base_url_flaw(&parts), if room { None } else { too_long.clone() });
    }
}

#[test]
fn cockpit_accounts_are_told_by_provider_url_or_plan() {
    assert!(!is_new_api_account(&account("a")));
    for provider in [" Cockpit_API ", "new_api"] {
        let mut known = account("a");
        known.api_provider_id = Some(provider.to_string());
        assert!(is_new_api_account(&known), "{}", provider);
    }
    for plan in ["cockpit api", "NEW_API_EXCLUSIVE"] {
        let mut known = account("a");
        known.plan_type = Some(plan.to_string());
        assert!(is_new_api_account(&known), "{}", plan);
    }
    let mut known = account("a");
    known.api_base_url = Some("https://chongcodex.cn/v1".to_string());
    assert!(is_new_api_account(&known));
    known.api_base_url = Some("https://api.openai.com/v1".to_string());
    assert!(!is_new_api_account(&known));
}

#[test]
fn accounts_with_a_quota_to_look_up_are_refreshed() {
    let plain = account("plain");
    let mut keyed = account("keyed");
    keyed.auth_mode = CodexAuthMode::ApiKey;
    let mut cockpit = account("cockpit");
    cockpit.auth_mode = CodexAuthMode::ApiKey;
    cockpit.api_provider_id = Some("cockpit_api".to_string());
    assert_eq!(
        quota_refresh_targets(&[plain, keyed, cockpit]),
        vec!["plain".to_string(), "cockpit".to_string()]
    );
}

#[test]
fn profile_urls_are_built_from_base_urls() {
    let build = |base: Option<&str>| {
        let mut known = account("a");
        known.api_base_url = base.map(|base| base.to_string());
        build_new_api_profile_url(&known)
    };
    assert_eq!(
        build(Some(" https://u:p@Example.com:444/v1?x=1#y ")),
        Ok("https://u:p@example.com:444/api/cockpit-tools/token-profile".to_string())
    );
    for base in [
        "HTTP://example.com",
        "http://example.com/?x=1",
        "http://example.com#y?x=1",
        "http://example.com/a/../b//?x=ß#ß",
        "http://example.com/api/cockpit-tools/token-profile/more?#",
    ] {
        assert_eq!(
            build(Some(base)),
            Ok("http://example.com/api/cockpit-tools/token-profile".to_string())
        );
    }
    assert_eq!(build(None), Err("Cockpit Api 账号缺少 Base URL".to_string()));
    assert_eq!(build(Some("  ")), Err("Cockpit Api 账号缺少 Base URL".to_string()));
    assert_eq!(
        build(Some("ftp://example.com")),
        Err("Cockpit Api Base URL 仅支持 http/https".to_string())
    );
    assert_eq!(
        build(Some("example")),
        Err("Cockpit Api Base URL 无效: relative URL without a base".to_string())
    );
}

#[test]
fn requests_need_a_key_and_a_url() {
    let mut known = account("a");
    assert_eq!(
        new_api_quota_request(&known),
        Err("Cockpit Api 账号缺少 OPENAI_API_KEY".to_string())
    );
    known.openai_api_key = Some(" k ".to_string());
    assert_eq!(new_api_quota_request(&known), Err("Cockpit Api 账号缺少 Base URL".to_string()));
    known.api_base_url = Some("http://h".to_string());
    assert_eq!(
        new_api_quota_request(&known),
        Ok(("k".to_string(), "http://h/api/cockpit-tools/token-profile".to_string()))
    );
}

#[test]
fn percentages_are_rounded_like_doubles() {
    assert_eq!(new_api_percentage(1, 3, false), 33);
    assert_eq!(new_api_percentage(2, 3, false), 67);
    assert_eq!(new_api_percentage(1, 200, false), 1);
    assert_eq!(new_api_percentage(1, 201, false), 0);
    assert_eq!(new_api_percentage(5, 3, false), 100);
    assert_eq!(new_api_percentage(-5, 3, false), 0);
    assert_eq!(new_api_percentage(5, 0, false), 0);
    assert_eq!(new_api_percentage(0, 0, true), 100);
    assert_eq!(new_api_percentage(i64::MAX, i64::MAX, false), 100);
    let reference = |available: i64, total: i64| {
        let percentage = (available.max(0) as f64 / total.max(1) as f64) * 100.0;
        percentage.round().clamp(0.0, 100.0) as i32
    };
    let mut seed: u64 = 12_345;
    for _ in 0..4_000 {
        seed = seed.wrapping_mul(6_364_136_223_846_793_005).wrapping_add(1_442_695_040_888_963_407);
        let total = ((seed >> 1) >> (seed % 61)) as i64 + 1;
        seed = seed.wrapping_mul(6_364_136_223_846_793_005).wrapping_add(1_442_695_040_888_963_407);
        let available = ((seed >> 1) % (total as u64)) as i64;
        assert_eq!(new_api_percentage(available, total, false), reference(available, total), "{} of {}", available, total);
    }
    for total in 1..300i64 {
        for available in 0..=total {
            assert_eq!(new_api_percentage(available, total, false), reference(available, total));
        }
    }
}

#[test]
fn responses_of_the_provider_are_read() {
    let body = r#"{"success":true,"data":{"plan_type":" Pro ","usage":{"total_granted":200,"total_used":150,"total_available":50,"expires_at":1700000000}}}"#;
    let result = new_api_quota_from_response(200, body).expect("quota");
    assert_eq!(result.plan_type.as_deref(), Some("Pro"));
    let quota = result.quota;
    assert_eq!(quota.hourly_percentage, 25);
    assert_eq!(quota.hourly_reset_time, Some(1_700_000_000));
    assert_eq!(quota.hourly_window_present, Some(true));
    assert_eq!(quota.weekly_percentage, 0);
    assert_eq!(quota.weekly_window_present, Some(false));
    let raw = quota.raw_data.expect("raw data");
    assert_eq!(raw.get("provider").and_then(|value| value.as_str()), Some("cockpit-api"));
    assert_eq!(raw.get("object").and_then(|value| value.as_str()), Some("codex_cockpit_api_quota"));
    assert_eq!(raw.get("total_used").and_then(|value| value.as_i64()), Some(150));
    assert_eq!(raw.get("unlimited_quota").and_then(|value| value.as_bool()), Some(false));
    let profile = raw.get("profile").and_then(|value| value.get("usage")).expect("profile");
    assert_eq!(profile.get("total_granted").and_then(|value| value.as_i64()), Some(200));

    let bare = parse_json(r#"{"usage":{"unlimited_quota":true}}"#).unwrap();
    let result = new_api_quota_from_json(&bare).expect("quota");
    assert_eq!(result.plan_type.as_deref(), Some("Cockpit Api"));
    assert_eq!(result.quota.hourly_percentage, 100);
    assert_eq!(result.quota.hourly_reset_time, None);
}

#[test]
fn responses_of_the_provider_fail() {
    let fail = |status: u16, body: &str| new_api_quota_from_response(status, body).err();
    assert_eq!(fail(404, "{}"), Some("Cockpit Api 额度接口返回 HTTP 404".to_string()));
    assert_eq!(fail(199, "{}"), Some("Cockpit Api 额度接口返回 HTTP 199".to_string()));
    assert_eq!(fail(300, "{}"), Some("Cockpit Api 额度接口返回 HTTP 300".to_string()));
    assert_eq!(fail(299, r#"{"success":false,"message":"no"}"#), Some("no".to_string()));
    assert_eq!(fail(200, r#"{"success":false}"#), Some("Cockpit Api 额度接口返回失败".to_string()));
    assert_eq!(fail(200, r#"{"data":{}}"#), Some("Cockpit Api 额度响应缺少 usage".to_string()));
    let message = fail(200, "{").expect("error");
    assert!(message.starts_with("解析 Cockpit Api 额度 JSON 失败: EOF while parsing"), "{}", message);
}
