use codex_quota::json::{parse_json, JsonNumber, JsonValue};
use codex_quota::models::codex::CodexQuota;
use codex_quota::quota::direct::{
    direct_window_is_weekly, direct_window_minutes, direct_window_remaining_percentage,
    direct_window_reset_at, parse_direct_rate_limits_observation, read_f64_field,
    DirectQuotaObservation,
};
use codex_quota::quota::events::{
    direct_quota_observation_from_session_event, extract_websocket_event_value,
    find_usage_limit_object, parse_direct_error_observation,
    parse_direct_quota_observation_from_session_line,
    parse_direct_quota_observation_from_websocket_event, parse_session_timestamp_seconds,
    set_direct_observation_source, value_has_usage_limit_marker,
};
use codex_quota::quota::logs::apply_direct_observation_reset_hint;
use codex_quota::quota::preference::{
    direct_observation_quota_reset_hint, is_better_direct_quota_observation,
    quota_remaining_for_direct_observation, quota_reset_time_for_preservation,
};
use codex_quota::quota::usage::{
    is_exhausted_rate_limit_reached_type, is_weekly_window, normalize_remaining_percentage,
    normalize_reset_time, normalize_reset_time_at, normalize_window_minutes,
    parse_quota_from_usage_at, quota_result_from_usage, rate_limit_marks_exhausted,
    read_rate_limit_reached_type, RateLimitInfo, UsageResponse, WindowInfo,
};
use codex_quota::text::comes_before;

fn json(text: &str) -> JsonValue {
    parse_json(text).expect("json")
}

fn window(used: Option<i32>, seconds: Option<i64>, after: Option<i64>, at: Option<i64>) -> WindowInfo {
    WindowInfo {
        used_percent: used,
        limit_window_seconds: seconds,
        reset_after_seconds: after,
        reset_at: at,
    }
}

fn quota(hourly: i32, hourly_present: Option<bool>, weekly: i32, weekly_present: Option<bool>) -> CodexQuota {
    CodexQuota {
        hourly_percentage: hourly,
        hourly_reset_time: None,
        hourly_window_minutes: None,
        hourly_window_present: hourly_present,
        weekly_percentage: weekly,
        weekly_reset_time: None,
        weekly_window_minutes: None,
        weekly_window_present: weekly_present,
        raw_data: None,
    }
}

fn keys(value: &JsonValue) -> Vec<&str> {
    match value {
        JsonValue::Object(fields) => fields.iter().map(|field| field.0.as_str()).collect(),
        _ => Vec::new(),
    }
}

#[test]
fn texts_are_ordered_like_strings() {
    let texts = ["", "a", "ab", "b", "reset_after", "reset_at", "z", "ä", "\u{ffff}", "\u{10000}"];
    for left in texts {
        for right in texts {
            assert_eq!(comes_before(left, right), left < right, "{:?} {:?}", left, right);
        }
    }
}

#[test]
fn fields_stand_in_the_order_of_their_keys() {
    let mut value = json(r#"{"source":"s","observed_at":1}"#);
    assert_eq!(keys(&value), ["observed_at", "source"]);
    for key in ["reset_source", "reset_at", "zone", "a", "reset_at_least", "ä"] {
        value.insert(key, JsonValue::Bool(true));
        assert_eq!(value.get(key).and_then(|field| field.as_bool()), Some(true), "{}", key);
    }
    let expected =
        ["a", "observed_at", "reset_at", "reset_at_least", "reset_source", "source", "zone", "ä"];
    assert_eq!(keys(&value), expected);
    value.insert("source", JsonValue::Null);
    assert_eq!(keys(&value), expected);
    assert!(matches!(value.get("source"), Some(JsonValue::Null)));
    assert_eq!(value.get("observed_at").and_then(|field| field.as_i64()), Some(1));

    let mut text = JsonValue::Text("t".to_string());
    text.insert("a", JsonValue::Null);
    assert_eq!(text.as_str(), Some("t"));
}

#[test]
fn a_reset_is_recorded_in_its_place() {
    let limits = json(r#"{"primary":{"used_percent":100,"reset_at":900}}"#);
    let mut observation = parse_direct_rate_limits_observation(&limits, 100).expect("observation");
    let recorded = |observation: &DirectQuotaObservation| {
        let raw = observation.quota.as_ref().unwrap().raw_data.as_ref().unwrap();
        keys(raw).join(" ")
    };
    assert_eq!(
        recorded(&observation),
        "observed_at plan_type quota_exhausted rate_limit_reached_type source"
    );
    apply_direct_observation_reset_hint(&mut observation, 950);
    assert_eq!(
        recorded(&observation),
        "observed_at plan_type quota_exhausted rate_limit_reached_type reset_at reset_source source"
    );
}

#[test]
fn windows_are_measured() {
    assert_eq!(normalize_remaining_percentage(&window(Some(40), None, None, None)), 60);
    assert_eq!(normalize_remaining_percentage(&window(Some(-3), None, None, None)), 100);
    assert_eq!(normalize_remaining_percentage(&window(Some(130), None, None, None)), 0);
    assert_eq!(normalize_remaining_percentage(&window(None, None, None, None)), 100);
    assert_eq!(normalize_window_minutes(&window(None, Some(18_000), None, None)), Some(300));
    assert_eq!(normalize_window_minutes(&window(None, Some(61), None, None)), Some(2));
    assert_eq!(normalize_window_minutes(&window(None, Some(0), None, None)), None);
    assert!(is_weekly_window(&window(None, Some(8_640 * 60), None, None)));
    assert!(is_weekly_window(&window(None, Some(8_640 * 60 - 59), None, None)));
    assert!(!is_weekly_window(&window(None, Some(8_640 * 60 - 60), None, None)));
    assert_eq!(normalize_reset_time_at(&window(None, None, Some(60), None), 1_000), Some(1_060));
    assert_eq!(normalize_reset_time_at(&window(None, None, Some(60), Some(5)), 1_000), Some(5));
    assert_eq!(normalize_reset_time_at(&window(None, None, Some(-1), None), 1_000), None);
    assert_eq!(normalize_reset_time_at(&window(None, None, None, None), 1_000), None);
    assert!(normalize_reset_time(&window(None, None, Some(0), None)).unwrap() > 1_700_000_000);
}

#[test]
fn of_two_windows_in_a_slot_the_scarcer_one_stays() {
    let usage = UsageResponse {
        plan_type: Some("pro".to_string()),
        rate_limit: Some(RateLimitInfo {
            allowed: None,
            limit_reached: None,
            primary_window: Some(window(Some(10), Some(18_000), Some(60), None)),
            secondary_window: Some(window(Some(70), Some(3_600), Some(90), None)),
        }),
        code_review_rate_limit: None,
        rate_limit_reached_type: None,
    };
    let quota = parse_quota_from_usage_at(&usage, r#"{"a":1}"#, 1_000).unwrap();
    assert_eq!(quota.hourly_percentage, 30);
    assert_eq!(quota.hourly_reset_time, Some(1_090));
    assert_eq!(quota.hourly_window_minutes, Some(60));
    assert_eq!(quota.hourly_window_present, Some(true));
    assert_eq!(quota.weekly_percentage, 100);
    assert_eq!(quota.weekly_window_present, Some(false));
    assert_eq!(quota.raw_data.and_then(|raw| raw.get("a").and_then(|a| a.as_i64())), Some(1));
    let result = quota_result_from_usage(&usage, "not json", 1_000).unwrap();
    assert_eq!(result.plan_type.as_deref(), Some("pro"));
    assert!(result.quota.raw_data.is_none());
}

#[test]
fn reached_types_are_read_and_judged() {
    let kind = |text: &str| read_rate_limit_reached_type(&json(text));
    assert_eq!(kind(r#"" Rate_Limit_Reached ""#), Some("rate_limit_reached".to_string()));
    assert_eq!(kind(r#""  ""#), Some(String::new()));
    assert_eq!(kind(r#"{"type":"A","kind":"B"}"#), Some("a".to_string()));
    assert_eq!(kind(r#"{"type":1,"kind":"B"}"#), None);
    assert_eq!(kind(r#"{"kind":" B "}"#), Some("b".to_string()));
    assert_eq!(kind(r#"{"kind":"  "}"#), None);
    assert_eq!(kind("7"), None);
    for word in [
        "rate_limit_reached",
        "workspace_owner_credits_depleted",
        "workspace_member_credits_depleted",
        "workspace_owner_usage_limit_reached",
        "workspace_member_usage_limit_reached",
        "usage_limit_reached",
        "credits_depleted",
    ] {
        let value = JsonValue::Text(word.to_string());
        assert!(is_exhausted_rate_limit_reached_type(Some(&value)), "{}", word);
    }
    assert!(!is_exhausted_rate_limit_reached_type(Some(&json(r#""other""#))));
    assert!(!is_exhausted_rate_limit_reached_type(None));
    let limit = |allowed, reached| RateLimitInfo {
        allowed,
        limit_reached: reached,
        primary_window: None,
        secondary_window: None,
    };
    assert!(rate_limit_marks_exhausted(Some(&limit(Some(false), None))));
    assert!(rate_limit_marks_exhausted(Some(&limit(None, Some(true)))));
    assert!(!rate_limit_marks_exhausted(Some(&limit(Some(true), Some(false)))));
    assert!(!rate_limit_marks_exhausted(None));
}

#[test]
fn numbers_and_spelled_numbers_are_read() {
    let read = |text: &str| read_f64_field(&json(text), "n");
    assert!(matches!(read(r#"{"n":7}"#), Some(JsonNumber::Unsigned(7))));
    assert!(matches!(read(r#"{"n":-7}"#), Some(JsonNumber::Negative(-7))));
    let half = 0.5f64.to_bits();
    assert!(matches!(read(r#"{"n":0.5}"#), Some(JsonNumber::Double(bits)) if bits == half));
    assert!(matches!(read(r#"{"n":" 0.5 "}"#), Some(JsonNumber::Double(bits)) if bits == half));
    assert!(read(r#"{"n":"x"}"#).is_none());
    assert!(read(r#"{"n":true}"#).is_none());
    assert!(read("{}").is_none());
}

#[test]
fn what_is_left_of_a_window_is_rounded_like_a_double() {
    let left = |text: &str| direct_window_remaining_percentage(&json(text), false);
    assert_eq!(left(r#"{"used_percent":56}"#), Some(44));
    assert_eq!(left(r#"{"used_percent":0.5}"#), Some(100));
    assert_eq!(left(r#"{"used_percent":0.50001}"#), Some(99));
    assert_eq!(left(r#"{"used_percent":99.5}"#), Some(1));
    assert_eq!(left(r#"{"used_percent":99.51}"#), Some(0));
    assert_eq!(left(r#"{"used_percent":1e308}"#), Some(0));
    assert_eq!(left(r#"{"used_percent":-3.5}"#), Some(100));
    assert_eq!(left(r#"{"used_percent":"nan"}"#), Some(0));
    assert_eq!(left(r#"{"used_percent":"inf"}"#), Some(0));
    assert_eq!(left(r#"{"used_percent":"-inf"}"#), Some(100));
    assert_eq!(left("{}"), None);
    assert_eq!(direct_window_remaining_percentage(&json("{}"), true), Some(0));
    for step in 0u32..2_000 {
        let used = f64::from(step) * 0.0731 - 10.0;
        let expected = (100.0 - used.clamp(0.0, 100.0)).round().clamp(0.0, 100.0) as i32;
        let text = format!("{{\"used_percent\":{:?}}}", used);
        assert_eq!(left(&text), Some(expected), "{}", used);
    }
}

#[test]
fn windows_of_the_log_are_measured() {
    assert_eq!(direct_window_minutes(&json(r#"{"window_minutes":300}"#)), Some(300));
    assert_eq!(direct_window_minutes(&json(r#"{"window_minutes":0,"window_seconds":61}"#)), Some(2));
    assert_eq!(direct_window_minutes(&json(r#"{"limitWindowSeconds":"3600"}"#)), Some(60));
    assert_eq!(direct_window_minutes(&json(r#"{"limit_window_seconds":-1}"#)), None);
    assert!(direct_window_is_weekly(&json(r#"{"limitWindowMinutes":8640}"#)));
    assert!(!direct_window_is_weekly(&json(r#"{"limitWindowMinutes":8639}"#)));
    assert_eq!(direct_window_reset_at(&json(r#"{"resetAt":1700000360000}"#), 1), Some(1_700_000_360));
    assert_eq!(direct_window_reset_at(&json(r#"{"retry_after":30}"#), 100), Some(130));
    assert_eq!(direct_window_reset_at(&json(r#"{"retry_after":-30}"#), 100), None);
}

#[test]
fn rate_limits_without_a_measured_window_say_nothing() {
    let observe = |text: &str| parse_direct_rate_limits_observation(&json(text), 100);
    assert!(observe("{}").is_none());
    assert!(observe(r#"{"primary":{}}"#).is_none());
    assert!(observe(r#"{"primary":{},"limit_reached":false}"#).is_none());
    let exhausted = observe(r#"{"primary":{},"limit_reached":true}"#).expect("observation");
    assert!(exhausted.exhausted);
    assert_eq!(exhausted.error_type.as_deref(), Some("usage_limit_reached"));
    assert_eq!(exhausted.reset_at, None);
    assert_eq!(exhausted.reset_after_seconds, None);
}

#[test]
fn rate_limits_are_observed_in_full() {
    let limits = json(
        r#"{"primary":{"used_percent":20,"window_minutes":300,"resets_at":500},
            "secondary":{"used_percent":100.0,"window_minutes":10080,"reset_after_seconds":900},
            "plan_type":"plus"}"#,
    );
    let observation = parse_direct_rate_limits_observation(&limits, 100).expect("observation");
    assert!(observation.exhausted);
    assert_eq!(observation.reset_at, Some(1_000));
    assert_eq!(observation.reset_after_seconds, Some(900));
    let quota = observation.quota.expect("quota");
    assert_eq!((quota.hourly_percentage, quota.weekly_percentage), (0, 0));
    assert_eq!((quota.hourly_reset_time, quota.weekly_reset_time), (Some(500), Some(1_000)));
    let raw = quota.raw_data.expect("raw data");
    assert_eq!(raw.get("plan_type").and_then(|value| value.as_str()), Some("plus"));
    assert_eq!(raw.get("observed_at").and_then(|value| value.as_i64()), Some(100));
    assert_eq!(raw.get("quota_exhausted").and_then(|value| value.as_bool()), Some(true));
    assert_eq!(
        raw.get("rate_limit_reached_type").and_then(|value| value.as_str()),
        Some("usage_limit_reached")
    );
}

#[test]
fn limit_errors_are_found_anywhere_in_objects_and_their_arrays() {
    let find = |text: &str| {
        let root = json(text);
        find_usage_limit_object(&root).and_then(|found| found.get("n").and_then(|n| n.as_i64()))
    };
    assert_eq!(find(r#"{"type":"Usage_Limit_Reached","n":1}"#), Some(1));
    assert_eq!(find(r#"{"code":"insufficient_quota","n":2}"#), Some(2));
    assert_eq!(find(r#"{"type":"x","code":"insufficient_quota","n":2}"#), None);
    assert_eq!(find(r#"{"a":{"b":{"type":"credits_depleted","n":3}}}"#), Some(3));
    assert_eq!(find(r#"{"a":[1,{"type":"credits_depleted","n":4}]}"#), Some(4));
    assert_eq!(find(r#"{"a":[[{"type":"credits_depleted","n":5}]]}"#), None);
    assert_eq!(find(r#"[{"type":"credits_depleted","n":6}]"#), None);
    assert_eq!(
        find(r#"{"z":{"type":"credits_depleted","n":7},"a":{"type":"credits_depleted","n":8}}"#),
        Some(8)
    );
    assert!(value_has_usage_limit_marker(&json(r#""WORKSPACE_OWNER_CREDITS_DEPLETED""#)));
    assert!(!value_has_usage_limit_marker(&json(r#""rate_limit_reached""#)));
    assert!(!value_has_usage_limit_marker(&json("1")));
    let observation =
        parse_direct_error_observation(&json(r#"{"code":"Credits_Depleted","resets_at":9}"#), 5)
            .expect("observation");
    assert_eq!(observation.error_type.as_deref(), Some("credits_depleted"));
    assert_eq!(observation.reset_at, Some(9));
    assert_eq!(observation.reset_after_seconds, None);
    assert!(observation.quota.is_none());
}

#[test]
fn session_lines_need_a_date_and_a_message() {
    let event = r#""payload":{"type":"error","error":{"code":"usage_limit_reached"}}"#;
    let line = |head: &str| parse_direct_quota_observation_from_session_line(&format!("{{{}{}}}", head, event));
    assert_eq!(
        line(r#""timestamp":"1970-01-01T01:00:10+01:00","type":"event_msg","#).map(|seen| seen.observed_at),
        Some(10)
    );
    assert!(line(r#""timestamp":"yesterday","type":"event_msg","#).is_none());
    assert!(line(r#""type":"event_msg","#).is_none());
    assert!(line(r#""timestamp":"1970-01-01T00:00:10Z","type":"other","#).is_none());
    assert!(parse_direct_quota_observation_from_session_line("usage_limit_reached").is_none());
    assert!(parse_direct_quota_observation_from_session_line("").is_none());
    assert_eq!(
        parse_session_timestamp_seconds(&json(r#"{"timestamp":"1970-01-02T00:00:00.999Z"}"#)),
        Some(86_400)
    );
    let counted = json(r#"{"type":"event_msg","payload":{"type":"token_count"}}"#);
    assert!(direct_quota_observation_from_session_event(&counted, 1).is_none());
}

#[test]
fn websocket_events_are_cut_out_and_read() {
    let event = extract_websocket_event_value("x websocket event: \u{2003}{\"type\":\"a\"} trailing {")
        .expect("event");
    assert_eq!(event.get("type").and_then(|value| value.as_str()), Some("a"));
    assert!(extract_websocket_event_value("websocket event: nothing").is_none());
    assert!(extract_websocket_event_value("no event").is_none());

    let observe = |text: &str| parse_direct_quota_observation_from_websocket_event(&json(text), 50);
    assert!(observe("{}").is_none());
    assert!(observe(r#"{"type":"codex.rate_limits"}"#).is_none());
    assert!(observe(r#"{"type":"other","code":"usage_limit_reached"}"#).is_none());
    let named = observe(
        r#"{"type":"codex.rate_limits","plan_type":"team","rate_limit_reached_type":"credits_depleted",
            "rate_limits":{"plan_type":"free","primary":{"used_percent":1}}}"#,
    )
    .expect("observation");
    assert!(named.exhausted);
    assert_eq!(named.error_type.as_deref(), Some("credits_depleted"));
    assert_eq!(named.source, "codex_official_websocket_rate_limits");
    let raw = named.quota.and_then(|quota| quota.raw_data).expect("raw data");
    assert_eq!(raw.get("plan_type").and_then(|value| value.as_str()), Some("free"));
    assert_eq!(
        raw.get("source").and_then(|value| value.as_str()),
        Some("codex_official_websocket_rate_limits")
    );
    for text in [
        r#"{"type":"x.ERROR","a":{"code":"usage_limit_reached"}}"#,
        r#"{"type":"x.Failed","a":{"code":"usage_limit_reached"}}"#,
        r#"{"type":"x","error":{"code":"usage_limit_reached"}}"#,
        r#"{"type":"x","response":{"error":{"code":"usage_limit_reached"}}}"#,
    ] {
        let seen = observe(text).expect("observation");
        assert_eq!(seen.source, "codex_official_websocket_error");
        assert_eq!(seen.observed_at, 50);
    }
    let mut bare = observe(r#"{"type":"x","error":{"code":"usage_limit_reached"}}"#).unwrap();
    set_direct_observation_source(&mut bare, "elsewhere");
    assert_eq!(bare.source, "elsewhere");
}

fn seen(observed_at: i64, exhausted: bool, quota: Option<CodexQuota>) -> DirectQuotaObservation {
    DirectQuotaObservation {
        observed_at,
        reset_at: None,
        reset_after_seconds: None,
        error_type: None,
        source: "test".to_string(),
        quota,
        exhausted,
    }
}

#[test]
fn what_is_left_of_a_quota_is_its_scarcest_window() {
    assert_eq!(quota_remaining_for_direct_observation(&quota(30, None, 20, None)), Some(20));
    assert_eq!(quota_remaining_for_direct_observation(&quota(30, None, 20, Some(false))), Some(30));
    assert_eq!(quota_remaining_for_direct_observation(&quota(30, Some(false), 120, None)), Some(100));
    assert_eq!(quota_remaining_for_direct_observation(&quota(-5, Some(true), 20, None)), Some(0));
    assert_eq!(quota_remaining_for_direct_observation(&quota(1, Some(false), 2, Some(false))), None);
    let mut misplaced = quota(97, Some(true), 0, Some(false));
    misplaced.hourly_window_minutes = Some(10_080);
    assert_eq!(quota_remaining_for_direct_observation(&misplaced), Some(97));
    let mut dated = quota(1, None, 2, None);
    assert_eq!(quota_reset_time_for_preservation(&dated), None);
    dated.hourly_reset_time = Some(5);
    assert_eq!(quota_reset_time_for_preservation(&dated), Some(5));
    dated.weekly_reset_time = Some(9);
    assert_eq!(quota_reset_time_for_preservation(&dated), Some(9));
    let mut observation = seen(1, false, Some(quota(1, None, 2, None)));
    observation.reset_at = Some(3);
    assert_eq!(direct_observation_quota_reset_hint(&observation), Some(3));
    observation.quota = Some(dated);
    assert_eq!(direct_observation_quota_reset_hint(&observation), Some(9));
}

#[test]
fn observations_are_ranked() {
    let better = |left: &DirectQuotaObservation, right: &DirectQuotaObservation| {
        is_better_direct_quota_observation(left, Some(right))
    };
    let spent = seen(1, true, None);
    let spent_later = seen(2, true, None);
    let known = seen(3, false, Some(quota(50, None, 60, None)));
    let known_later = seen(4, false, Some(quota(50, None, 60, None)));
    let scarcer = seen(0, false, Some(quota(50, None, 40, None)));
    let unknown = seen(9, false, None);
    assert!(is_better_direct_quota_observation(&unknown, None));
    assert!(better(&spent, &known) && !better(&known, &spent));
    assert!(better(&spent_later, &spent) && !better(&spent, &spent_later));
    assert!(better(&scarcer, &known) && !better(&known, &scarcer));
    assert!(better(&known_later, &known) && !better(&known, &known_later));
    assert!(better(&known, &unknown) && !better(&unknown, &known));
    assert!(!better(&spent, &spent) && !better(&known, &known) && !better(&unknown, &unknown));
}
