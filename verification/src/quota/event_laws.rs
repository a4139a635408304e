//! What holds of the events that carry quota observations: which say something of a quota, and what.
use vstd::prelude::*;

use crate::clock::rfc3339_seconds;
use crate::json::{
    first_i64, json_at_start, json_get, json_of_text, set_field_reads_back, Json,
};
use crate::numbers::first_some;
use crate::quota::direct::{direct_reset, rate_limits_observation, ObservationModel};
use crate::quota::events::{
    error_observation, filled_from, is_error_event, is_limit_error, limit_error_in,
    limit_error_in_fields, limit_error_in_items, mentions_quota, session_event_observation,
    session_line_observation, session_timestamp, websocket_event_in, websocket_observation,
    with_source,
};
use crate::quota::observation_laws::reset_delay_names;
use crate::text::{after_first, has_text, lower_of, trim_start_of};

verus! {

/// The names of errors of a used-up quota.
pub open spec fn limit_error_names() -> Seq<Seq<char>> {
    seq![
        "insufficient_quota"@,
        "usage_limit_reached"@,
        "credits_depleted"@,
        "workspace_owner_credits_depleted"@,
        "workspace_member_credits_depleted"@,
        "workspace_owner_usage_limit_reached"@,
        "workspace_member_usage_limit_reached"@,
    ]
}

/// An error is one of a used-up quota if its type is one of the names, in whatever case; or its code,
/// where it has no type; and else it is not.
pub proof fn limit_errors_are_known_by_name(error: Json)
    ensures
        is_limit_error(error) <==> {
            ||| json_get(error, "type"@) matches Some(Json::Text(name))
                && limit_error_names().contains(lower_of(name))
            ||| json_get(error, "type"@) is None && (json_get(error, "code"@) matches Some(
                Json::Text(name),
            ) && limit_error_names().contains(lower_of(name)))
        },
{
    let names = limit_error_names();
    assert(names[0] == "insufficient_quota"@);
    assert(names[1] == "usage_limit_reached"@);
    assert(names[2] == "credits_depleted"@);
    assert(names[3] == "workspace_owner_credits_depleted"@);
    assert(names[4] == "workspace_member_credits_depleted"@);
    assert(names[5] == "workspace_owner_usage_limit_reached"@);
    assert(names[6] == "workspace_member_usage_limit_reached"@);
}

/// An object that is an error of a used-up quota is the one that is found in it; what is no object
/// holds none; and what is found is such an error.
pub proof fn outermost_limit_error_is_found(value: Json)
    ensures
        value is Object && is_limit_error(value) ==> limit_error_in(value) == Some(value),
        value is Object && !is_limit_error(value) ==> limit_error_in(value) == limit_error_in_fields(
            value->Object_0,
        ),
        !(value is Object) ==> limit_error_in(value) is None,
{
}

/// What is found in a tree is an object that is an error of a used-up quota.
pub proof fn found_error_is_a_limit_error(value: Json)
    ensures
        limit_error_in(value) matches Some(found) ==> found is Object && is_limit_error(found),
    decreases value,
{
    if let Json::Object(fields) = value {
        if !is_limit_error(value) {
            lemma_found_in_fields(fields);
        }
    }
}

/// The same of the fields of an object.
proof fn lemma_found_in_fields(fields: Seq<(Seq<char>, Json)>)
    ensures
        limit_error_in_fields(fields) matches Some(found) ==> found is Object && is_limit_error(found),
    decreases fields,
{
    if fields.len() > 0 {
        match fields[0].1 {
            Json::Object(_) => {
                found_error_is_a_limit_error(fields[0].1);
            },
            Json::Array(items) => {
                lemma_found_in_items(items);
            },
            _ => {},
        }
        lemma_found_in_fields(fields.skip(1));
    }
}

/// The same of the items of an array.
proof fn lemma_found_in_items(items: Seq<Json>)
    ensures
        limit_error_in_items(items) matches Some(found) ==> found is Object && is_limit_error(found),
    decreases items,
{
    if items.len() > 0 {
        found_error_is_a_limit_error(items[0]);
        lemma_found_in_items(items.skip(1));
    }
}

/// Fields are searched in their order, and all of them: what some fields hold is found behind others
/// that hold nothing.
pub proof fn fields_are_searched_in_order(
    before: Seq<(Seq<char>, Json)>,
    field: (Seq<char>, Json),
    after: Seq<(Seq<char>, Json)>,
)
    ensures
        limit_error_in_fields(before + seq![field] + after) == first_some(
            limit_error_in_fields(before),
            first_some(
                match field.1 {
                    Json::Object(_) => limit_error_in(field.1),
                    Json::Array(items) => limit_error_in_items(items),
                    _ => None,
                },
                limit_error_in_fields(after),
            ),
        ),
    decreases before.len(),
{
    let all = before + seq![field] + after;
    if before.len() == 0 {
        assert(all[0] == field);
        assert(all.skip(1) =~= after);
    } else {
        assert(all[0] == before[0]);
        assert(all.skip(1) =~= before.skip(1) + seq![field] + after);
        fields_are_searched_in_order(before.skip(1), field, after);
    }
}

/// The items of an array are searched in their order, and all of them.
pub proof fn items_are_searched_in_order(before: Seq<Json>, item: Json, after: Seq<Json>)
    ensures
        limit_error_in_items(before + seq![item] + after) == first_some(
            limit_error_in_items(before),
            first_some(limit_error_in(item), limit_error_in_items(after)),
        ),
    decreases before.len(),
{
    let all = before + seq![item] + after;
    if before.len() == 0 {
        assert(all[0] == item);
        assert(all.skip(1) =~= after);
    } else {
        assert(all[0] == before[0]);
        assert(all.skip(1) =~= before.skip(1) + seq![item] + after);
        items_are_searched_in_order(before.skip(1), item, after);
    }
}

/// A tree says something of a quota as an error if one of a used-up quota is found in it: that it is
/// used up, until when and how long the error tells, and by which name, in small letters.
pub proof fn limit_error_is_observed(root: Json, seen_at: i64)
    ensures
        limit_error_in(root) is None ==> error_observation(root, seen_at) is None,
        limit_error_in(root) matches Some(error) ==> {
            &&& error_observation(root, seen_at) matches Some(observation)
            &&& observation.exhausted
            &&& observation.quota is None
            &&& observation.observed_at == seen_at
            &&& observation.reset_at == direct_reset(error, seen_at)
            &&& (match first_i64(error, reset_delay_names()) {
                Some(seconds) => if seconds >= 0 {
                    observation.reset_after_seconds == Some(seconds)
                } else {
                    observation.reset_after_seconds is None
                },
                None => observation.reset_after_seconds is None,
            })
            &&& observation.source == "codex_session_error"@
            &&& json_get(error, "type"@) matches Some(Json::Text(name)) ==> observation.error_type
                == Some(lower_of(name))
            &&& json_get(error, "type"@) is None ==> (json_get(error, "code"@) matches Some(
                Json::Text(name),
            ) ==> observation.error_type == Some(lower_of(name)))
        },
{
}

/// A token count in a message says what its rate limits do; nothing where it has none.
pub proof fn token_counts_tell_of_rate_limits(event: Json, payload: Json, seen_at: i64)
    requires
        json_get(event, "type"@) == Some(Json::Text("event_msg"@)),
        json_get(event, "payload"@) == Some(payload),
        json_get(payload, "type"@) == Some(Json::Text("token_count"@)),
    ensures
        json_get(payload, "rate_limits"@) matches Some(rate_limits) ==> session_event_observation(
            event,
            seen_at,
        ) == rate_limits_observation(rate_limits, seen_at),
        json_get(payload, "rate_limits"@) is None ==> session_event_observation(
            event,
            seen_at,
        ) is None,
{
}

/// An error in a message says what the error of a used-up quota in it does.
pub proof fn session_errors_tell_of_exhaustion(event: Json, payload: Json, seen_at: i64)
    requires
        json_get(event, "type"@) == Some(Json::Text("event_msg"@)),
        json_get(event, "payload"@) == Some(payload),
        json_get(payload, "type"@) == Some(Json::Text("error"@)),
    ensures
        session_event_observation(event, seen_at) == error_observation(payload, seen_at),
{
    reveal_strlit("token_count");
    reveal_strlit("error");
    assert("token_count"@[0] != "error"@[0]);
}

/// The words without which a session line says nothing of a quota.
pub open spec fn session_words() -> Seq<Seq<char>> {
    seq!["rate_limits"@, "usage_limit_reached"@, "insufficient_quota"@, "credits_depleted"@]
}

/// A line with one of these words in it is read, and no other is.
pub proof fn session_lines_are_known_by_words(line: Seq<char>)
    ensures
        mentions_quota(line) <==> exists|i: int|
            0 <= i < 4 && has_text(line, #[trigger] session_words()[i]),
{
    let words = session_words();
    assert(words[0] == "rate_limits"@);
    assert(words[1] == "usage_limit_reached"@);
    assert(words[2] == "insufficient_quota"@);
    assert(words[3] == "credits_depleted"@);
    if mentions_quota(line) {
        assert(has_text(line, words[0]) || has_text(line, words[1]) || has_text(line, words[2])
            || has_text(line, words[3]));
    }
}

/// A line that is read says what its event does, seen when the event was written; a line that is no
/// JSON, or tells no time, says nothing, nor does one that is not read.
pub proof fn session_line_says_what_its_event_does(line: Seq<char>)
    ensures
        !mentions_quota(line) ==> session_line_observation(line) is None,
        json_of_text(line) is Err ==> session_line_observation(line) is None,
        json_of_text(line) matches Ok(event) ==> {
            &&& session_timestamp(event) is None ==> session_line_observation(line) is None
            &&& mentions_quota(line) && session_timestamp(event) is Some
                ==> session_line_observation(line) == session_event_observation(
                event,
                session_timestamp(event)->0,
            )
        },
{
}

/// An event was written when its timestamp says.
pub proof fn session_events_are_dated(event: Json)
    ensures
        json_get(event, "timestamp"@) matches Some(Json::Text(text)) ==> session_timestamp(event)
            == rfc3339_seconds(text),
        !(json_get(event, "timestamp"@) matches Some(Json::Text(_))) ==> session_timestamp(
            event,
        ) is None,
{
}

/// The event in a log body is the JSON tree behind the first marker of one, white space left out.
pub proof fn logged_event_stands_behind_its_marker(body: Seq<char>)
    ensures
        !has_text(body, "websocket event:"@) ==> websocket_event_in(body) is None,
        after_first(body, "websocket event:"@) matches Some(tail) ==> websocket_event_in(body)
            == json_at_start(trim_start_of(tail)),
{
}

/// A field that an object lacks is taken from the event that has it; an object that has the field
/// keeps its own, and no other field changes.
pub proof fn missing_fields_are_taken_from_the_event(
    object: Json,
    event: Json,
    key: Seq<char>,
    other: Seq<char>,
)
    ensures
        json_get(object, key) is Some ==> filled_from(object, event, key) == object,
        json_get(event, key) is None ==> filled_from(object, event, key) == object,
        object is Object && json_get(object, key) is None && json_get(event, key) is Some
            ==> json_get(filled_from(object, event, key), key) == json_get(event, key),
        other != key ==> json_get(filled_from(object, event, key), other) == json_get(object, other),
{
    if let Json::Object(fields) = object {
        if json_get(object, key) is None && json_get(event, key) is Some {
            set_field_reads_back(fields, key, json_get(event, key)->0, other);
        }
    }
}

/// An observation with another source differs in that alone, and its quota records it.
pub proof fn source_is_recorded(observation: ObservationModel, source: Seq<char>)
    ensures
        ({
            let after = with_source(observation, source);
            &&& after.source == source
            &&& after == ObservationModel { source, quota: after.quota, ..observation }
            &&& observation.quota is None ==> after.quota is None
            &&& observation.quota matches Some(quota) ==> {
                &&& after.quota matches Some(kept)
                &&& kept.hourly_percentage == quota.hourly_percentage
                &&& kept.hourly_reset_time == quota.hourly_reset_time
                &&& kept.hourly_window_minutes == quota.hourly_window_minutes
                &&& kept.hourly_window_present == quota.hourly_window_present
                &&& kept.weekly_percentage == quota.weekly_percentage
                &&& kept.weekly_reset_time == quota.weekly_reset_time
                &&& kept.weekly_window_minutes == quota.weekly_window_minutes
                &&& kept.weekly_window_present == quota.weekly_window_present
                &&& kept.raw_data is Some == quota.raw_data is Some
                &&& quota.raw_data matches Some(Json::Object(_)) ==> json_get(
                    kept.raw_data->0,
                    "source"@,
                ) == Some(Json::Text(source))
            }
        }),
{
    if let Some(quota) = observation.quota {
        if let Some(Json::Object(fields)) = quota.raw_data {
            set_field_reads_back(fields, "source"@, Json::Text(source), "source"@);
        }
    }
}

/// A websocket event of rate limits says what they do, with the plan and the kind of limit that the
/// event names where they do not, and under its own source; nothing where it has none.
pub proof fn websocket_rate_limits_are_observed(event: Json, seen_at: i64)
    requires
        json_get(event, "type"@) == Some(Json::Text("codex.rate_limits"@)),
    ensures
        json_get(event, "rate_limits"@) is None ==> websocket_observation(event, seen_at) is None,
        json_get(event, "rate_limits"@) matches Some(rate_limits) ==> ({
            let filled = filled_from(
                filled_from(rate_limits, event, "plan_type"@),
                event,
                "rate_limit_reached_type"@,
            );
            match rate_limits_observation(filled, seen_at) {
                Some(observation) => websocket_observation(event, seen_at) == Some(
                    with_source(observation, "codex_official_websocket_rate_limits"@),
                ),
                None => websocket_observation(event, seen_at) is None,
            }
        }),
{
}

/// A websocket event is about an error if its type speaks of an error or a failure, in whatever case,
/// or if it, or its response, holds an error.
pub proof fn websocket_errors_are_known(event: Json, kind: Seq<char>)
    ensures
        has_text(lower_of(kind), "error"@) ==> is_error_event(event, kind),
        has_text(lower_of(kind), "failed"@) ==> is_error_event(event, kind),
        json_get(event, "error"@) is Some ==> is_error_event(event, kind),
        json_get(event, "response"@) matches Some(response) && json_get(response, "error"@) is Some
            ==> is_error_event(event, kind),
        is_error_event(event, kind) ==> {
            ||| has_text(lower_of(kind), "error"@)
            ||| has_text(lower_of(kind), "failed"@)
            ||| json_get(event, "error"@) is Some
            ||| json_get(event, "response"@) matches Some(response) && json_get(
                response,
                "error"@,
            ) is Some
        },
{
}

/// A websocket event about an error says what the error of a used-up quota in it does, under its own
/// source; an event of any other kind, or of none, says nothing.
pub proof fn websocket_errors_are_observed(event: Json, seen_at: i64)
    ensures
        !(json_get(event, "type"@) matches Some(Json::Text(_))) ==> websocket_observation(
            event,
            seen_at,
        ) is None,
        json_get(event, "type"@) matches Some(Json::Text(kind)) ==> {
            &&& kind != "codex.rate_limits"@ && !is_error_event(event, kind)
                ==> websocket_observation(event, seen_at) is None
            &&& kind != "codex.rate_limits"@ && is_error_event(event, kind) ==> (
            match error_observation(event, seen_at) {
                Some(observation) => websocket_observation(event, seen_at) == Some(
                    with_source(observation, "codex_official_websocket_error"@),
                ),
                None => websocket_observation(event, seen_at) is None,
            })
        },
{
}

} // verus!
