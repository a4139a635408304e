//! What holds of the rate limits that Codex records itself: what an observation of them says.
use vstd::prelude::*;

use crate::double::{is_full, is_nan, remaining_after};
use crate::json::{first_i64, json_get, number_of, Json, JsonNumber};
use crate::json_laws::ordered_field_is_found;
use crate::numbers::{minutes_of, seconds_until, wrapping_sum};
use crate::quota::direct::{
    direct_minutes, direct_reset, double_of_text, number_in, number_remaining,
    rate_limits_are_exhausted, rate_limits_observation, same_number, window_is_full,
};
use crate::quota::laws::observed_origin_is_in_key_order;
use crate::quota::messages::unix_seconds;
use crate::quota::usage::{is_weekly, reached_type};
use crate::quota::window_laws::{
    kinds_of_exhaustion, kinds_of_exhaustion_are_known, slot_holds, slot_is_empty,
};
use crate::text::trim_of;

verus! {

/// The names under which a record says when something resets, the first that counts first.
pub open spec fn reset_time_names() -> Seq<Seq<char>> {
    seq!["resets_at"@, "reset_at"@, "resetAt"@, "reset_at_seconds"@, "reset_timestamp"@]
}

/// The names under which a record says in how many seconds something resets.
pub open spec fn reset_delay_names() -> Seq<Seq<char>> {
    seq![
        "resets_in_seconds"@,
        "reset_after_seconds"@,
        "resetAfterSeconds"@,
        "retry_after_seconds"@,
        "retry_after"@,
    ]
}

/// The names under which a window says how many minutes it has.
pub open spec fn length_in_minutes_names() -> Seq<Seq<char>> {
    seq!["window_minutes"@, "limit_window_minutes"@, "limitWindowMinutes"@]
}

/// The names under which a window says how many seconds it has.
pub open spec fn length_in_seconds_names() -> Seq<Seq<char>> {
    seq!["limit_window_seconds"@, "window_seconds"@, "limitWindowSeconds"@]
}

/// A record resets at the time it names, whatever delay it names too; or else when the delay is over
/// that it names, counted from when it was seen, unless that is negative; or else at no known time.
pub proof fn record_resets_when_it_says(record: Json, seen_at: i64)
    ensures
        first_i64(record, reset_time_names()) matches Some(time) ==> direct_reset(record, seen_at)
            == Some(unix_seconds(time)),
        first_i64(record, reset_time_names()) is None ==> (match first_i64(
            record,
            reset_delay_names(),
        ) {
            Some(seconds) => {
                &&& seconds < 0 ==> direct_reset(record, seen_at) is None
                &&& seconds >= 0 ==> direct_reset(record, seen_at) == Some(
                    wrapping_sum(seen_at, seconds),
                )
                &&& seconds >= 0 && seen_at + seconds <= i64::MAX ==> direct_reset(
                    record,
                    seen_at,
                ) is Some && direct_reset(record, seen_at)->0 == seen_at + seconds
            },
            None => direct_reset(record, seen_at) is None,
        }),
{
}

/// A window is as long as it says in minutes; or else as the started minutes of the seconds that it
/// says; a length that is not positive counts as none.
pub proof fn window_is_as_long_as_it_says(window: Json)
    ensures
        first_i64(window, length_in_minutes_names()) matches Some(minutes) && minutes > 0
            ==> direct_minutes(window) == first_i64(window, length_in_minutes_names()),
        !(first_i64(window, length_in_minutes_names()) matches Some(minutes) && minutes > 0) ==> (
        match first_i64(window, length_in_seconds_names()) {
            Some(seconds) => {
                &&& seconds <= 0 ==> direct_minutes(window) is None
                &&& seconds > 0 ==> direct_minutes(window) == Some(minutes_of(seconds))
                &&& 0 < seconds <= i64::MAX - 59 ==> direct_minutes(window) is Some && seconds <= 60
                    * direct_minutes(window)->0 < seconds + 60
            },
            None => direct_minutes(window) is None,
        }),
{
}

/// How much of a window is used is a number, or a text that spells one, and nothing else.
pub proof fn used_part_is_a_number(window: Json)
    ensures
        json_get(window, "used_percent"@) is None ==> number_in(window, "used_percent"@) is None,
        json_get(window, "used_percent"@) matches Some(used) ==> (match used {
            Json::Number(number) => number_in(window, "used_percent"@) == Some(number),
            Json::Text(text) => match double_of_text(trim_of(text)) {
                Some(bits) => number_in(window, "used_percent"@) == Some(JsonNumber::Double(bits)),
                None => number_in(window, "used_percent"@) is None,
            },
            _ => number_in(window, "used_percent"@) is None,
        }),
{
}

/// A number that is read is the one that is told, but for which bits stand for what is no number.
pub proof fn numbers_are_read_as_told(read: Option<JsonNumber>, told: Option<JsonNumber>)
    requires
        same_number(read, told),
    ensures
        read == told || (read matches Some(JsonNumber::Double(left)) && is_nan(left) && (
        told matches Some(JsonNumber::Double(right)) && is_nan(right))),
        read is Some == told is Some,
{
}

/// What is used of a window and what is left of it make up all of it.
pub proof fn used_and_left_make_up_all(used: JsonNumber)
    ensures
        used matches JsonNumber::Unsigned(value) ==> {
            &&& value <= 100 ==> value + number_remaining(used) == 100
            &&& value > 100 ==> number_remaining(used) == 0
        },
        used matches JsonNumber::Negative(value) ==> {
            &&& 0 <= value <= 100 ==> value + number_remaining(used) == 100
            &&& value > 100 ==> number_remaining(used) == 0
            &&& value < 0 ==> number_remaining(used) == 100
        },
        used matches JsonNumber::Double(bits) ==> number_remaining(used) == remaining_after(bits),
{
}

/// A window is used up from a hundred percent on.
pub proof fn window_is_used_up_at_a_hundred(window: Json)
    ensures
        number_in(window, "used_percent"@) is None ==> !window_is_full(window),
        number_in(window, "used_percent"@) matches Some(used) ==> (match used {
            JsonNumber::Unsigned(value) => window_is_full(window) == (value >= 100),
            JsonNumber::Negative(value) => window_is_full(window) == (value >= 100),
            JsonNumber::Double(bits) => window_is_full(window) == is_full(bits),
        }),
{
}

/// The primary window of rate limits.
pub open spec fn primary_of(rate_limits: Json) -> Option<Json> {
    json_get(rate_limits, "primary"@)
}

/// The secondary window of rate limits.
pub open spec fn secondary_of(rate_limits: Json) -> Option<Json> {
    json_get(rate_limits, "secondary"@)
}

/// Rate limits tell of a used-up quota by the kind of limit that they name as reached, by their limit
/// being reached, by requests not being allowed, or by a window that is used up; by nothing else.
pub proof fn rate_limits_tell_of_exhaustion(rate_limits: Json)
    ensures
        json_get(rate_limits, "limit_reached"@) == Some(Json::Bool(true))
            ==> rate_limits_are_exhausted(rate_limits),
        json_get(rate_limits, "allowed"@) == Some(Json::Bool(false)) ==> rate_limits_are_exhausted(
            rate_limits,
        ),
        json_get(rate_limits, "rate_limit_reached_type"@) matches Some(value) && reached_type(
            value,
        ) matches Some(kind) && kinds_of_exhaustion().contains(kind) ==> rate_limits_are_exhausted(
            rate_limits,
        ),
        primary_of(rate_limits) matches Some(window) && window_is_full(window)
            ==> rate_limits_are_exhausted(rate_limits),
        secondary_of(rate_limits) matches Some(window) && window_is_full(window)
            ==> rate_limits_are_exhausted(rate_limits),
        rate_limits_are_exhausted(rate_limits) ==> {
            ||| json_get(rate_limits, "limit_reached"@) == Some(Json::Bool(true))
            ||| json_get(rate_limits, "allowed"@) == Some(Json::Bool(false))
            ||| json_get(rate_limits, "rate_limit_reached_type"@) matches Some(value)
                && reached_type(value) matches Some(kind) && kinds_of_exhaustion().contains(kind)
            ||| primary_of(rate_limits) matches Some(window) && window_is_full(window)
            ||| secondary_of(rate_limits) matches Some(window) && window_is_full(window)
        },
{
    if let Some(value) = json_get(rate_limits, "rate_limit_reached_type"@) {
        if let Some(kind) = reached_type(value) {
            kinds_of_exhaustion_are_known(kind);
        }
    }
}

/// The window counts: it says how much of it is used, or the rate limits tell of a used-up quota.
pub open spec fn counts(rate_limits: Json, window: Json) -> bool {
    rate_limits_are_exhausted(rate_limits) || number_in(window, "used_percent"@) is Some
}

/// What is left of a window that counts: nothing where the quota is used up, else what its used part
/// leaves of it.
pub open spec fn is_left(rate_limits: Json, window: Json, percentage: i32) -> bool {
    if rate_limits_are_exhausted(rate_limits) {
        percentage == 0
    } else {
        number_in(window, "used_percent"@) matches Some(used) && percentage == number_remaining(used)
    }
}

/// The windows are of one length: both weekly, or both not.
pub open spec fn same_length(left: Json, right: Json) -> bool {
    is_weekly(direct_minutes(left)) == is_weekly(direct_minutes(right))
}

/// Rate limits make an observation if one of their windows counts, and only then.
pub proof fn observation_needs_a_window(rate_limits: Json, seen_at: i64)
    ensures
        rate_limits_observation(rate_limits, seen_at) is Some <==> {
            ||| primary_of(rate_limits) matches Some(window) && counts(rate_limits, window)
            ||| secondary_of(rate_limits) matches Some(window) && counts(rate_limits, window)
        },
{
}

/// A window that counts, and is the only such one of its length, primary or secondary, is what the
/// slot of that length holds: what is left of it, when it resets and how long it is.
pub proof fn lone_window_is_observed(
    rate_limits: Json,
    seen_at: i64,
    window: Json,
    percentage: i32,
)
    requires
        counts(rate_limits, window),
        is_left(rate_limits, window, percentage),
        ({
            ||| primary_of(rate_limits) == Some(window) && !(secondary_of(
                rate_limits,
            ) matches Some(other) && counts(rate_limits, other) && same_length(window, other))
            ||| secondary_of(rate_limits) == Some(window) && !(primary_of(
                rate_limits,
            ) matches Some(other) && counts(rate_limits, other) && same_length(window, other))
        }),
    ensures
        rate_limits_observation(rate_limits, seen_at) matches Some(observation)
            && observation.quota matches Some(quota) && slot_holds(
            quota,
            is_weekly(direct_minutes(window)),
            percentage,
            direct_reset(window, seen_at),
            direct_minutes(window),
        ),
{
}

/// Of two windows that count and have the same length, the slot of that length holds the one with
/// less left, and the primary one where as much is left of both.
pub proof fn scarcer_window_is_observed(
    rate_limits: Json,
    seen_at: i64,
    primary: Json,
    secondary: Json,
    primary_left: i32,
    secondary_left: i32,
)
    requires
        primary_of(rate_limits) == Some(primary),
        secondary_of(rate_limits) == Some(secondary),
        counts(rate_limits, primary),
        counts(rate_limits, secondary),
        same_length(primary, secondary),
        is_left(rate_limits, primary, primary_left),
        is_left(rate_limits, secondary, secondary_left),
    ensures
        rate_limits_observation(rate_limits, seen_at) matches Some(observation)
            && observation.quota matches Some(quota) && (if secondary_left < primary_left {
            slot_holds(
                quota,
                is_weekly(direct_minutes(secondary)),
                secondary_left,
                direct_reset(secondary, seen_at),
                direct_minutes(secondary),
            )
        } else {
            slot_holds(
                quota,
                is_weekly(direct_minutes(primary)),
                primary_left,
                direct_reset(primary, seen_at),
                direct_minutes(primary),
            )
        }),
{
}

/// A window that counts is never lost: the slot of its length is there and holds no more than what is
/// left of that window.
pub proof fn no_window_goes_unobserved(
    rate_limits: Json,
    seen_at: i64,
    window: Json,
    percentage: i32,
)
    requires
        primary_of(rate_limits) == Some(window) || secondary_of(rate_limits) == Some(window),
        counts(rate_limits, window),
        is_left(rate_limits, window, percentage),
    ensures
        rate_limits_observation(rate_limits, seen_at) matches Some(observation)
            && observation.quota matches Some(quota) && (if is_weekly(direct_minutes(window)) {
            quota.weekly_window_present == Some(true) && quota.weekly_percentage <= percentage
        } else {
            quota.hourly_window_present == Some(true) && quota.hourly_percentage <= percentage
        }),
{
}

/// A slot for which no window counts is empty.
pub proof fn slot_without_an_observed_window_is_empty(
    rate_limits: Json,
    seen_at: i64,
    weekly: bool,
)
    requires
        rate_limits_observation(rate_limits, seen_at) is Some,
        !(primary_of(rate_limits) matches Some(window) && counts(rate_limits, window) && is_weekly(
            direct_minutes(window),
        ) == weekly),
        !(secondary_of(rate_limits) matches Some(window) && counts(rate_limits, window) && is_weekly(
            direct_minutes(window),
        ) == weekly),
    ensures
        rate_limits_observation(rate_limits, seen_at)->0.quota matches Some(quota) && slot_is_empty(
            quota,
            weekly,
        ),
{
}

/// When a window resets, if there is one and it says so.
pub open spec fn resets_at(window: Option<Json>, seen_at: i64) -> Option<i64> {
    match window {
        Some(window) => direct_reset(window, seen_at),
        None => None,
    }
}

/// The quota resets when the first window does that is used up, if it says when; else when the
/// primary window does; else when the secondary one does.
pub proof fn observation_resets_with_its_windows(rate_limits: Json, seen_at: i64)
    requires
        rate_limits_observation(rate_limits, seen_at) is Some,
    ensures
        ({
            let reset_at = rate_limits_observation(rate_limits, seen_at)->0.reset_at;
            let primary = resets_at(primary_of(rate_limits), seen_at);
            let secondary = resets_at(secondary_of(rate_limits), seen_at);
            let primary_full = primary_of(rate_limits) matches Some(window) && window_is_full(window);
            let secondary_full = secondary_of(rate_limits) matches Some(window) && window_is_full(
                window,
            );
            &&& primary is Some && primary_full ==> reset_at == primary
            &&& !primary_full && secondary_full && secondary is Some ==> reset_at == secondary
            &&& primary is Some && !secondary_full ==> reset_at == primary
            &&& primary is None && secondary is Some ==> reset_at == secondary
            &&& primary is Some && secondary is None ==> reset_at == primary
            &&& primary is None && secondary is None ==> reset_at is None
        }),
{
}

/// An observation of rate limits is as old as they are, tells how long it is until the reset, and
/// names the kind of limit that they do, or the common one for a used-up quota that names none.
pub proof fn observation_tells_what_the_rate_limits_say(rate_limits: Json, seen_at: i64)
    requires
        rate_limits_observation(rate_limits, seen_at) is Some,
    ensures
        ({
            let observation = rate_limits_observation(rate_limits, seen_at)->0;
            let kind = match json_get(rate_limits, "rate_limit_reached_type"@) {
                Some(value) => reached_type(value),
                None => None,
            };
            &&& observation.observed_at == seen_at
            &&& observation.exhausted == rate_limits_are_exhausted(rate_limits)
            &&& (match observation.reset_at {
                Some(reset_at) => {
                    &&& observation.reset_after_seconds matches Some(seconds)
                    &&& seconds == seconds_until(reset_at, seen_at)
                    &&& reset_at <= seen_at ==> seconds == 0
                    &&& 0 <= reset_at - seen_at <= i64::MAX ==> seconds == reset_at - seen_at
                },
                None => observation.reset_after_seconds is None,
            })
            &&& kind is Some ==> observation.error_type == kind
            &&& kind is None && observation.exhausted ==> observation.error_type == Some(
                "usage_limit_reached"@,
            )
            &&& kind is None && !observation.exhausted ==> observation.error_type is None
            &&& observation.source == "codex_session_rate_limits"@
        }),
{
}

/// An observed quota records where it came from: when it was seen, the plan that the rate limits name,
/// whether the quota is used up, and by which kind of limit.
pub proof fn observed_quota_records_its_origin(rate_limits: Json, seen_at: i64)
    requires
        rate_limits_observation(rate_limits, seen_at) is Some,
    ensures
        ({
            let observation = rate_limits_observation(rate_limits, seen_at)->0;
            &&& observation.quota matches Some(quota)
            &&& quota.raw_data matches Some(raw)
            &&& json_get(raw, "observed_at"@) == Some(Json::Number(number_of(seen_at)))
            &&& json_get(raw, "quota_exhausted"@) == Some(Json::Bool(observation.exhausted))
            &&& json_get(raw, "source"@) == Some(Json::Text("codex_session_rate_limits"@))
            &&& (match json_get(rate_limits, "plan_type"@) {
                Some(Json::Text(plan)) => json_get(raw, "plan_type"@) == Some(Json::Text(plan)),
                _ => json_get(raw, "plan_type"@) == Some(Json::Null),
            })
            &&& (match observation.error_type {
                Some(kind) => json_get(raw, "rate_limit_reached_type"@) == Some(Json::Text(kind)),
                None => json_get(raw, "rate_limit_reached_type"@) == Some(Json::Null),
            })
        }),
{
    observed_origin_is_in_key_order(rate_limits, seen_at);
    let fields = rate_limits_observation(rate_limits, seen_at)->0.quota->0.raw_data->0->Object_0;
    ordered_field_is_found(fields, 0);
    ordered_field_is_found(fields, 1);
    ordered_field_is_found(fields, 2);
    ordered_field_is_found(fields, 3);
    ordered_field_is_found(fields, 4);
}

} // verus!
