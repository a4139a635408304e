//! Events that carry quota observations: lines of session files and websocket messages.
use vstd::prelude::*;

use crate::clock::{parse_rfc3339_seconds, rfc3339_seconds};
use crate::json::{
    fields_of, first_i64, items_of, json_at_start, json_get, json_get_in, json_of_text, json_text,
    json_text_in, json_with, lemma_array_view, lemma_object_view, opt_json, opt_json_ref,
    parse_json, parse_json_start, text_field, Json, JsonValue,
};
use crate::models::codex::{CodexQuota, QuotaModel};
use crate::numbers::{first_some, not_negative};
use crate::quota::direct::{
    direct_reset, direct_window_reset_at, opt_observation, parse_direct_rate_limits_observation,
    rate_limits_observation, read_reset_after, reset_after_keys, DirectQuotaObservation,
    ObservationModel,
};
use crate::text::{
    after_first, contains, has_text, is_text, lower_of, same_text, split_once, to_ascii_lowercase,
    trim_start, trim_start_of,
};

verus! {

/// The values that mark an error as one of a used-up quota.
pub open spec fn is_limit_marker(kind: Seq<char>) -> bool {
    ||| kind == "usage_limit_reached"@
    ||| kind == "insufficient_quota"@
    ||| kind == "workspace_owner_credits_depleted"@
    ||| kind == "workspace_member_credits_depleted"@
    ||| kind == "workspace_owner_usage_limit_reached"@
    ||| kind == "workspace_member_usage_limit_reached"@
    ||| kind == "credits_depleted"@
}

/// The value is a text that marks a used-up quota, in whatever case.
pub open spec fn has_limit_marker(value: Json) -> bool {
    json_text(value) matches Some(text) && is_limit_marker(lower_of(text))
}

/// Whether a value is a text that marks a used-up quota.
pub fn value_has_usage_limit_marker(value: &JsonValue) -> (marked: bool)
    ensures
        marked == has_limit_marker(value@),
{
    match value.as_str() {
        Some(text) => {
            let lower = to_ascii_lowercase(text);
            let lower = lower.as_str();
            same_text(lower, "usage_limit_reached") || same_text(lower, "insufficient_quota")
                || same_text(lower, "workspace_owner_credits_depleted") || same_text(
                lower,
                "workspace_member_credits_depleted",
            ) || same_text(lower, "workspace_owner_usage_limit_reached") || same_text(
                lower,
                "workspace_member_usage_limit_reached",
            ) || same_text(lower, "credits_depleted")
        },
        None => false,
    }
}

/// What an error calls itself: its type, or its code where it has no type.
pub open spec fn error_kind(error: Json) -> Option<Json> {
    first_some(json_get(error, "type"@), json_get(error, "code"@))
}

/// What an error calls itself.
fn read_error_kind(error: &JsonValue) -> (kind: Option<&JsonValue>)
    ensures
        opt_json_ref(kind) == error_kind(error@),
{
    match error.get("type") {
        Some(kind) => Some(kind),
        None => error.get("code"),
    }
}

/// The value calls itself an error of a used-up quota.
pub open spec fn is_limit_error(value: Json) -> bool {
    error_kind(value) matches Some(kind) && has_limit_marker(kind)
}

/// The first object in a tree that calls itself an error of a used-up quota: the value itself,
/// else the first found in its fields, in their order. Arrays are searched one level deep.
pub open spec fn limit_error_in(value: Json) -> Option<Json>
    decreases value,
{
    match value {
        Json::Object(fields) => if is_limit_error(value) {
            Some(value)
        } else {
            limit_error_in_fields(fields)
        },
        _ => None,
    }
}

/// The first error of a used-up quota in the fields of an object.
pub open spec fn limit_error_in_fields(fields: Seq<(Seq<char>, Json)>) -> Option<Json>
    decreases fields,
{
    if fields.len() == 0 {
        None
    } else {
        let here = match fields[0].1 {
            Json::Object(_) => limit_error_in(fields[0].1),
            Json::Array(items) => limit_error_in_items(items),
            _ => None,
        };
        first_some(here, limit_error_in_fields(fields.skip(1)))
    }
}

/// The first error of a used-up quota among the items of an array.
pub open spec fn limit_error_in_items(items: Seq<Json>) -> Option<Json>
    decreases items,
{
    if items.len() == 0 {
        None
    } else {
        first_some(limit_error_in(items[0]), limit_error_in_items(items.skip(1)))
    }
}

/// The first object in a tree that calls itself an error of a used-up quota.
pub fn find_usage_limit_object(value: &JsonValue) -> (found: Option<&JsonValue>)
    ensures
        opt_json_ref(found) == limit_error_in(value@),
    decreases value,
{
    match value {
        JsonValue::Object(fields) => {
            proof {
                lemma_object_view(*fields);
            }
            if let Some(kind) = read_error_kind(value) {
                if value_has_usage_limit_marker(kind) {
                    return Some(value);
                }
            }
            let ghost all = fields_of(fields@);
            let total = fields.len();
            let mut at: usize = 0;
            assert(all.skip(0) =~= all);
            while at < total
                invariant
                    *value == JsonValue::Object(*fields),
                    all == fields_of(fields@),
                    total == fields@.len(),
                    at <= total,
                    limit_error_in(value@) == limit_error_in_fields(all.skip(at as int)),
                decreases total - at,
            {
                assert(decreases_to!(*value => value->Object_0));
                assert(decreases_to!(*fields => fields@));
                assert(decreases_to!(fields@ => fields@[at as int]));
                assert(decreases_to!(fields@[at as int] => fields@[at as int].1));
                let item = &fields[at].1;
                assert(all.skip(at as int)[0] == (fields@[at as int].0@, item@));
                assert(all.skip(at as int).skip(1) =~= all.skip(at + 1));
                match item {
                    JsonValue::Object(inner) => {
                        proof {
                            lemma_object_view(*inner);
                        }
                        let found = find_usage_limit_object(item);
                        if found.is_some() {
                            return found;
                        }
                    },
                    JsonValue::Array(items) => {
                        proof {
                            lemma_array_view(*items);
                        }
                        assert(decreases_to!(*item => item->Array_0));
                        let found = find_usage_limit_item(items);
                        if found.is_some() {
                            return found;
                        }
                    },
                    _ => {},
                }
                at = at + 1;
            }
            None
        },
        _ => {
            proof {
                if let JsonValue::Array(items) = value {
                    lemma_array_view(*items);
                }
            }
            None
        },
    }
}

/// The first error of a used-up quota among the items of an array.
fn find_usage_limit_item(items: &Vec<JsonValue>) -> (found: Option<&JsonValue>)
    ensures
        opt_json_ref(found) == limit_error_in_items(items_of(items@)),
    decreases items,
{
    let ghost all = items_of(items@);
    let total = items.len();
    let mut at: usize = 0;
    assert(all.skip(0) =~= all);
    while at < total
        invariant
            all == items_of(items@),
            total == items@.len(),
            at <= total,
            limit_error_in_items(all) == limit_error_in_items(all.skip(at as int)),
        decreases total - at,
    {
        assert(decreases_to!(*items => items@));
        assert(decreases_to!(items@ => items@[at as int]));
        assert(all.skip(at as int)[0] == items@[at as int]@);
        assert(all.skip(at as int).skip(1) =~= all.skip(at + 1));
        let found = find_usage_limit_object(&items[at]);
        if found.is_some() {
            return found;
        }
        at = at + 1;
    }
    None
}

/// What an error of a used-up quota seen at `observed_at` says.
pub open spec fn limit_error_observation(error: Json, observed_at: i64) -> ObservationModel {
    ObservationModel {
        observed_at,
        reset_at: direct_reset(error, observed_at),
        reset_after_seconds: not_negative(first_i64(error, reset_after_keys())),
        error_type: Some(
            match json_text_in(error_kind(error)) {
                Some(kind) => lower_of(kind),
                None => "usage_limit_reached"@,
            },
        ),
        source: "codex_session_error"@,
        quota: None,
        exhausted: true,
    }
}

/// What the first error of a used-up quota in a tree says.
pub open spec fn error_observation(root: Json, observed_at: i64) -> Option<ObservationModel> {
    match limit_error_in(root) {
        Some(error) => Some(limit_error_observation(error, observed_at)),
        None => None,
    }
}

/// What the first error of a used-up quota in a tree says.
pub fn parse_direct_error_observation(root: &JsonValue, observed_at: i64) -> (observation: Option<
    DirectQuotaObservation,
>)
    ensures
        opt_observation(observation) == error_observation(root@, observed_at),
{
    let error = match find_usage_limit_object(root) {
        Some(error) => error,
        None => {
            return None;
        },
    };
    let kind = match read_error_kind(error) {
        Some(kind) => kind.as_str(),
        None => None,
    };
    let error_type = match kind {
        Some(kind) => to_ascii_lowercase(kind),
        None => "usage_limit_reached".to_owned(),
    };
    Some(
        DirectQuotaObservation {
            observed_at,
            reset_at: direct_window_reset_at(error, observed_at),
            reset_after_seconds: read_reset_after(error),
            error_type: Some(error_type),
            source: "codex_session_error".to_owned(),
            quota: None,
            exhausted: true,
        },
    )
}

/// The second at which a session event was written.
pub open spec fn session_timestamp(event: Json) -> Option<i64> {
    match json_text_in(json_get(event, "timestamp"@)) {
        Some(text) => rfc3339_seconds(text),
        None => None,
    }
}

/// The second at which a session event was written.
pub fn parse_session_timestamp_seconds(event: &JsonValue) -> (seconds: Option<i64>)
    ensures
        seconds == session_timestamp(event@),
{
    match text_field(event, "timestamp") {
        Some(text) => parse_rfc3339_seconds(text),
        None => None,
    }
}

/// What a session event written at `observed_at` says of the quota: only messages do, by a token
/// count with rate limits or by an error.
pub open spec fn session_event_observation(event: Json, observed_at: i64) -> Option<
    ObservationModel,
> {
    let payload = json_get(event, "payload"@);
    let kind = json_text_in(json_get_in(payload, "type"@));
    if json_text_in(json_get(event, "type"@)) != Some("event_msg"@) {
        None
    } else if kind == Some("token_count"@) {
        match json_get_in(payload, "rate_limits"@) {
            Some(rate_limits) => rate_limits_observation(rate_limits, observed_at),
            None => None,
        }
    } else if kind == Some("error"@) {
        error_observation(payload->0, observed_at)
    } else {
        None
    }
}

/// What a session event written at `observed_at` says of the quota.
pub fn direct_quota_observation_from_session_event(event: &JsonValue, observed_at: i64) -> (observation:
    Option<DirectQuotaObservation>)
    ensures
        opt_observation(observation) == session_event_observation(event@, observed_at),
{
    if !is_text(text_field(event, "type"), "event_msg") {
        return None;
    }
    let payload = match event.get("payload") {
        Some(payload) => payload,
        None => {
            return None;
        },
    };
    let kind = text_field(payload, "type");
    proof {
        reveal_strlit("token_count");
        reveal_strlit("error");
        assert("token_count"@[0] != "error"@[0]);
    }
    if is_text(kind, "token_count") {
        return match payload.get("rate_limits") {
            Some(rate_limits) => parse_direct_rate_limits_observation(rate_limits, observed_at),
            None => None,
        };
    }
    if is_text(kind, "error") {
        return parse_direct_error_observation(payload, observed_at);
    }
    None
}

/// The line holds a word without which it says nothing of the quota.
pub open spec fn mentions_quota(line: Seq<char>) -> bool {
    ||| has_text(line, "rate_limits"@)
    ||| has_text(line, "usage_limit_reached"@)
    ||| has_text(line, "insufficient_quota"@)
    ||| has_text(line, "credits_depleted"@)
}

/// What a line of a session file says of the quota.
pub open spec fn session_line_observation(line: Seq<char>) -> Option<ObservationModel> {
    if mentions_quota(line) {
        match json_of_text(line) {
            Ok(event) => match session_timestamp(event) {
                Some(observed_at) => session_event_observation(event, observed_at),
                None => None,
            },
            Err(_) => None,
        }
    } else {
        None
    }
}

/// What a line of a session file says of the quota.
pub fn parse_direct_quota_observation_from_session_line(line: &str) -> (observation: Option<
    DirectQuotaObservation,
>)
    ensures
        opt_observation(observation) == session_line_observation(line@),
{
    if !contains(line, "rate_limits") && !contains(line, "usage_limit_reached") && !contains(
        line,
        "insufficient_quota",
    ) && !contains(line, "credits_depleted") {
        return None;
    }
    let event = match parse_json(line) {
        Ok(event) => event,
        Err(_) => {
            return None;
        },
    };
    match parse_session_timestamp_seconds(&event) {
        Some(observed_at) => direct_quota_observation_from_session_event(&event, observed_at),
        None => None,
    }
}

/// The event that a log body holds behind its websocket marker.
pub open spec fn websocket_event_in(body: Seq<char>) -> Option<Json> {
    match after_first(body, "websocket event:"@) {
        Some(tail) => json_at_start(trim_start_of(tail)),
        None => None,
    }
}

/// The event that a log body holds behind its websocket marker.
pub fn extract_websocket_event_value(body: &str) -> (event: Option<JsonValue>)
    ensures
        opt_json(event) == websocket_event_in(body@),
{
    match split_once(body, "websocket event:") {
        Some((_, tail)) => parse_json_start(trim_start(tail)),
        None => None,
    }
}

/// The quota with a field of its raw data set, if it has raw data.
pub open spec fn with_raw_field(quota: QuotaModel, key: Seq<char>, field: Json) -> QuotaModel {
    QuotaModel {
        raw_data: match quota.raw_data {
            Some(raw_data) => Some(json_with(raw_data, key, field)),
            None => None,
        },
        ..quota
    }
}

/// Sets a field of a quota's raw data, if it has raw data.
pub fn set_raw_field(quota: &mut CodexQuota, key: &str, field: JsonValue)
    ensures
        final(quota)@ == with_raw_field(old(quota)@, key@, field@),
{
    if let Some(raw_data) = &mut quota.raw_data {
        raw_data.insert(key, field);
    }
}

/// The observation with another source, which its quota records too.
pub open spec fn with_source(observation: ObservationModel, source: Seq<char>) -> ObservationModel {
    ObservationModel {
        source,
        quota: match observation.quota {
            Some(quota) => Some(with_raw_field(quota, "source"@, Json::Text(source))),
            None => None,
        },
        ..observation
    }
}

/// Changes the source of an observation.
pub fn set_direct_observation_source(observation: &mut DirectQuotaObservation, source: &str)
    ensures
        final(observation)@ == with_source(old(observation)@, source@),
{
    observation.source = source.to_owned();
    if let Some(quota) = &mut observation.quota {
        set_raw_field(quota, "source", JsonValue::Text(source.to_owned()));
    }
}

/// The object with its field `key` taken from the event, if it lacks it and the event has it.
pub open spec fn filled_from(object: Json, event: Json, key: Seq<char>) -> Json {
    match (json_get(object, key), json_get(event, key)) {
        (None, Some(field)) => json_with(object, key, field),
        _ => object,
    }
}

/// Takes a field of an object that lacks it from an event that has it.
fn fill_from(object: &mut JsonValue, event: &JsonValue, key: &str)
    ensures
        final(object)@ == filled_from(old(object)@, event@, key@),
{
    if object.get(key).is_none() {
        if let Some(field) = event.get(key) {
            object.insert(key, field.clone());
        }
    }
}

/// The event is about an error.
pub open spec fn is_error_event(event: Json, kind: Seq<char>) -> bool {
    ||| has_text(lower_of(kind), "error"@)
    ||| has_text(lower_of(kind), "failed"@)
    ||| json_get(event, "error"@) is Some
    ||| json_get_in(json_get(event, "response"@), "error"@) is Some
}

/// What a websocket event seen at `observed_at` says of the quota: by rate limits, for which the
/// event may name the plan and the kind of limit reached, or by an error.
pub open spec fn websocket_observation(event: Json, observed_at: i64) -> Option<ObservationModel> {
    match json_text_in(json_get(event, "type"@)) {
        Some(kind) => if kind == "codex.rate_limits"@ {
            match json_get(event, "rate_limits"@) {
                Some(rate_limits) => {
                    let planned = filled_from(rate_limits, event, "plan_type"@);
                    let filled = filled_from(planned, event, "rate_limit_reached_type"@);
                    match rate_limits_observation(filled, observed_at) {
                        Some(observation) => Some(
                            with_source(observation, "codex_official_websocket_rate_limits"@),
                        ),
                        None => None,
                    }
                },
                None => None,
            }
        } else if is_error_event(event, kind) {
            match error_observation(event, observed_at) {
                Some(observation) => Some(
                    with_source(observation, "codex_official_websocket_error"@),
                ),
                None => None,
            }
        } else {
            None
        },
        None => None,
    }
}

/// What a websocket event seen at `observed_at` says of the quota.
pub fn parse_direct_quota_observation_from_websocket_event(event: &JsonValue, observed_at: i64) -> (observation:
    Option<DirectQuotaObservation>)
    ensures
        opt_observation(observation) == websocket_observation(event@, observed_at),
{
    let kind = match text_field(event, "type") {
        Some(kind) => kind,
        None => {
            return None;
        },
    };
    if same_text(kind, "codex.rate_limits") {
        let mut rate_limits = match event.get("rate_limits") {
            Some(rate_limits) => rate_limits.clone(),
            None => {
                return None;
            },
        };
        fill_from(&mut rate_limits, event, "plan_type");
        fill_from(&mut rate_limits, event, "rate_limit_reached_type");
        return match parse_direct_rate_limits_observation(&rate_limits, observed_at) {
            Some(observation) => {
                let mut observation = observation;
                set_direct_observation_source(
                    &mut observation,
                    "codex_official_websocket_rate_limits",
                );
                Some(observation)
            },
            None => None,
        };
    }
    let lower = to_ascii_lowercase(kind);
    let response_error = match event.get("response") {
        Some(response) => response.get("error").is_some(),
        None => false,
    };
    if contains(lower.as_str(), "error") || contains(lower.as_str(), "failed") || event.get(
        "error",
    ).is_some() || response_error {
        return match parse_direct_error_observation(event, observed_at) {
            Some(observation) => {
                let mut observation = observation;
                set_direct_observation_source(&mut observation, "codex_official_websocket_error");
                Some(observation)
            },
            None => None,
        };
    }
    None
}

} // verus!
