//! Quota observations: what Codex itself records of its rate limits.
use vstd::prelude::*;

use crate::double::{
    double_is_full, double_remaining, is_full, is_nan, lemma_remaining_is_a_percentage,
    remaining_after,
};
use crate::json::{
    fields_of, first_i64, first_i64_field, json_bool_in, json_get, json_integer, json_object,
    json_of_opt_text, json_optional_text, json_text_in, number_of, opt_json_ref, read_bool,
    text_field, texts_of, Json, JsonNumber, JsonValue,
};
use crate::models::codex::{clone_text, opt_quota, CodexQuota, QuotaModel};
use crate::numbers::{
    first_some, keep_not_negative, later_of, max_time, minutes_from_seconds, minutes_of,
    not_negative, or_i64, seconds_until, time_left, wrapping_add, wrapping_sum,
};
use crate::quota::messages::{normalize_optional_timestamp, opt_unix_seconds};
use crate::quota::usage::{
    empty_slot, fill_slot, is_exhausted_rate_limit_reached_type, is_weekly, minutes_are_weekly,
    names_exhausting_kind, new_slot, quota_from_slots, quota_of_slots, reached_type,
    read_rate_limit_reached_type, slots_with, QuotaSlot,
};
use crate::text::{as_text, opt_text, trim, trim_of};

verus! {

/// What was seen of an account's quota, and when.
#[derive(Debug)]
pub struct DirectQuotaObservation {
    pub observed_at: i64,
    pub reset_at: Option<i64>,
    pub reset_after_seconds: Option<i64>,
    pub error_type: Option<String>,
    pub source: String,
    pub quota: Option<CodexQuota>,
    pub exhausted: bool,
}

pub ghost struct ObservationModel {
    pub observed_at: i64,
    pub reset_at: Option<i64>,
    pub reset_after_seconds: Option<i64>,
    pub error_type: Option<Seq<char>>,
    pub source: Seq<char>,
    pub quota: Option<QuotaModel>,
    pub exhausted: bool,
}

impl View for DirectQuotaObservation {
    type V = ObservationModel;

    open spec fn view(&self) -> ObservationModel {
        ObservationModel {
            observed_at: self.observed_at,
            reset_at: self.reset_at,
            reset_after_seconds: self.reset_after_seconds,
            error_type: opt_text(self.error_type),
            source: self.source@,
            quota: opt_quota(self.quota),
            exhausted: self.exhausted,
        }
    }
}

impl Clone for DirectQuotaObservation {
    fn clone(&self) -> (copy: Self)
        ensures
            copy@ == self@,
    {
        DirectQuotaObservation {
            observed_at: self.observed_at,
            reset_at: self.reset_at,
            reset_after_seconds: self.reset_after_seconds,
            error_type: clone_text(&self.error_type),
            source: self.source.clone(),
            quota: match &self.quota {
                Some(quota) => Some(quota.clone()),
                None => None,
            },
            exhausted: self.exhausted,
        }
    }
}

/// An optional observation, mathematically.
pub open spec fn opt_observation(observation: Option<DirectQuotaObservation>) -> Option<
    ObservationModel,
> {
    match observation {
        Some(observation) => Some(observation@),
        None => None,
    }
}

/// An optional borrowed observation, mathematically.
pub open spec fn opt_observation_ref(observation: Option<&DirectQuotaObservation>) -> Option<
    ObservationModel,
> {
    match observation {
        Some(observation) => Some(observation@),
        None => None,
    }
}

/// The bits of the double-precision number that a text spells.
pub uninterp spec fn double_of_text(text: Seq<char>) -> Option<u64>;

/// The same bits, or both of them the bits of what is no number.
pub open spec fn same_double(left: Option<u64>, right: Option<u64>) -> bool {
    match (left, right) {
        (Some(left), Some(right)) => left == right || is_nan(left) && is_nan(right),
        (None, None) => true,
        _ => false,
    }
}

/// `str::parse` into a double-precision number, by its bits: nothing where the text spells none.
/// Which bits stand for what is no number is left open. The first line only fixes the type of
/// the number.
#[verifier::external_body]
fn parse_double(text: &str) -> (bits: Option<u64>)
    ensures
        same_double(bits, double_of_text(text@)),
{
    let mut number = serde_json::Number::from(0u8).as_f64();
    number = text.parse().ok();
    Some(number?.to_bits())
}

/// The field `key` as a number: one that it is, or one that its text spells.
pub open spec fn number_in(value: Json, key: Seq<char>) -> Option<JsonNumber> {
    match json_get(value, key) {
        Some(Json::Number(number)) => Some(number),
        Some(Json::Text(text)) => match double_of_text(trim_of(text)) {
            Some(bits) => Some(JsonNumber::Double(bits)),
            None => None,
        },
        _ => None,
    }
}

/// The same number, or both of them no number.
pub open spec fn same_number(left: Option<JsonNumber>, right: Option<JsonNumber>) -> bool {
    match (left, right) {
        (Some(JsonNumber::Double(left)), Some(JsonNumber::Double(right))) => left == right
            || is_nan(left) && is_nan(right),
        _ => left == right,
    }
}

/// The field `key` as a number.
pub fn read_f64_field(value: &JsonValue, key: &str) -> (number: Option<JsonNumber>)
    ensures
        same_number(number, number_in(value@, key@)),
{
    match value.get(key) {
        Some(item) => match item {
            JsonValue::Number(number) => Some(*number),
            JsonValue::Text(text) => match parse_double(trim(text.as_str())) {
                Some(bits) => Some(JsonNumber::Double(bits)),
                None => None,
            },
            _ => None,
        },
        None => None,
    }
}

/// The number is at least 100.
pub open spec fn number_is_full(number: JsonNumber) -> bool {
    match number {
        JsonNumber::Unsigned(value) => value >= 100,
        JsonNumber::Negative(value) => value >= 100,
        JsonNumber::Double(bits) => is_full(bits),
    }
}

/// What is left of 100 percent after the number of percent is used.
pub open spec fn number_remaining(number: JsonNumber) -> int {
    match number {
        JsonNumber::Unsigned(value) => if value >= 100 {
            0
        } else {
            100 - value
        },
        JsonNumber::Negative(value) => if value >= 100 {
            0
        } else if value < 0 {
            100
        } else {
            100 - value
        },
        JsonNumber::Double(bits) => remaining_after(bits),
    }
}

/// What is left is a percentage.
pub proof fn lemma_number_remaining(number: JsonNumber)
    ensures
        0 <= number_remaining(number) <= 100,
{
    if let JsonNumber::Double(bits) = number {
        lemma_remaining_is_a_percentage(bits);
    }
}

/// Whether a number is at least 100.
pub fn is_full_number(number: JsonNumber) -> (full: bool)
    ensures
        full == number_is_full(number),
{
    match number {
        JsonNumber::Unsigned(value) => value >= 100,
        JsonNumber::Negative(value) => value >= 100,
        JsonNumber::Double(bits) => double_is_full(bits),
    }
}

/// What is left of 100 percent after the number of percent is used.
pub fn remaining_after_number(number: JsonNumber) -> (remaining: i32)
    ensures
        remaining == number_remaining(number),
        0 <= remaining <= 100,
{
    match number {
        JsonNumber::Unsigned(value) => if value >= 100 {
            0
        } else {
            100 - value as i32
        },
        JsonNumber::Negative(value) => if value >= 100 {
            0
        } else if value < 0 {
            100
        } else {
            100 - value as i32
        },
        JsonNumber::Double(bits) => double_remaining(bits),
    }
}

/// The fields that say when something resets.
pub open spec fn reset_at_keys() -> Seq<Seq<char>> {
    seq!["resets_at"@, "reset_at"@, "resetAt"@, "reset_at_seconds"@, "reset_timestamp"@]
}

/// The fields that say in how many seconds something resets.
pub open spec fn reset_after_keys() -> Seq<Seq<char>> {
    seq![
        "resets_in_seconds"@,
        "reset_after_seconds"@,
        "resetAfterSeconds"@,
        "retry_after_seconds"@,
        "retry_after"@,
    ]
}

/// The fields that say how many minutes a window has.
pub open spec fn window_minutes_keys() -> Seq<Seq<char>> {
    seq!["window_minutes"@, "limit_window_minutes"@, "limitWindowMinutes"@]
}

/// The fields that say how many seconds a window has.
pub open spec fn window_seconds_keys() -> Seq<Seq<char>> {
    seq!["limit_window_seconds"@, "window_seconds"@, "limitWindowSeconds"@]
}

/// When an object says that it resets, as a time.
pub fn read_reset_at(object: &JsonValue) -> (reset_at: Option<i64>)
    ensures
        reset_at == opt_unix_seconds(first_i64(object@, reset_at_keys())),
{
    let keys = ["resets_at", "reset_at", "resetAt", "reset_at_seconds", "reset_timestamp"];
    proof {
        assert(texts_of(keys@) =~= reset_at_keys());
    }
    normalize_optional_timestamp(first_i64_field(object, &keys))
}

/// When an object says that it resets, in seconds from when it was written.
pub fn read_reset_after(object: &JsonValue) -> (seconds: Option<i64>)
    ensures
        seconds == not_negative(first_i64(object@, reset_after_keys())),
{
    let keys = [
        "resets_in_seconds",
        "reset_after_seconds",
        "resetAfterSeconds",
        "retry_after_seconds",
        "retry_after",
    ];
    proof {
        assert(texts_of(keys@) =~= reset_after_keys());
    }
    keep_not_negative(first_i64_field(object, &keys))
}

/// When an object seen at `observed_at` resets: at the time it names, else the seconds it names
/// later.
pub open spec fn direct_reset(object: Json, observed_at: i64) -> Option<i64> {
    match (
        opt_unix_seconds(first_i64(object, reset_at_keys())),
        not_negative(first_i64(object, reset_after_keys())),
    ) {
        (Some(reset_at), _) => Some(reset_at),
        (None, Some(seconds)) => Some(wrapping_sum(observed_at, seconds)),
        (None, None) => None,
    }
}

/// When a window seen at `observed_at` resets.
pub fn direct_window_reset_at(window: &JsonValue, observed_at: i64) -> (reset_at: Option<i64>)
    ensures
        reset_at == direct_reset(window@, observed_at),
{
    if let Some(reset_at) = read_reset_at(window) {
        return Some(reset_at);
    }
    match read_reset_after(window) {
        Some(seconds) => Some(wrapping_add(observed_at, seconds)),
        None => None,
    }
}

/// The length of a window in minutes, if it has one.
pub open spec fn direct_minutes(window: Json) -> Option<i64> {
    match (first_i64(window, window_minutes_keys()), first_i64(window, window_seconds_keys())) {
        (Some(minutes), _) if minutes > 0 => Some(minutes),
        (_, Some(seconds)) if seconds > 0 => Some(minutes_of(seconds)),
        _ => None,
    }
}

/// The length of a window in minutes, if it has one.
pub fn direct_window_minutes(window: &JsonValue) -> (minutes: Option<i64>)
    ensures
        minutes == direct_minutes(window@),
{
    let minutes_keys = ["window_minutes", "limit_window_minutes", "limitWindowMinutes"];
    let seconds_keys = ["limit_window_seconds", "window_seconds", "limitWindowSeconds"];
    proof {
        assert(texts_of(minutes_keys@) =~= window_minutes_keys());
        assert(texts_of(seconds_keys@) =~= window_seconds_keys());
    }
    if let Some(minutes) = first_i64_field(window, &minutes_keys) {
        if minutes > 0 {
            return Some(minutes);
        }
    }
    match first_i64_field(window, &seconds_keys) {
        Some(seconds) => if seconds > 0 {
            Some(minutes_from_seconds(seconds))
        } else {
            None
        },
        None => None,
    }
}

/// Whether a window is a weekly one.
pub fn direct_window_is_weekly(window: &JsonValue) -> (weekly: bool)
    ensures
        weekly == is_weekly(direct_minutes(window@)),
{
    minutes_are_weekly(direct_window_minutes(window))
}

/// The window says that all of it is used.
pub open spec fn window_is_full(window: Json) -> bool {
    number_in(window, "used_percent"@) matches Some(used) && number_is_full(used)
}

/// Whether a window says that all of it is used.
pub fn direct_window_is_full(window: &JsonValue) -> (full: bool)
    ensures
        full == window_is_full(window@),
{
    match read_f64_field(window, "used_percent") {
        Some(used) => is_full_number(used),
        None => false,
    }
}

/// What is left of a window, in percent: nothing if the quota is used up, else what its used part
/// leaves, if it says how much is used.
pub open spec fn direct_remaining(window: Json, exhausted: bool) -> Option<i32> {
    if exhausted {
        Some(0)
    } else {
        match number_in(window, "used_percent"@) {
            Some(used) => Some(number_remaining(used) as i32),
            None => None,
        }
    }
}

/// What is left of a window, in percent.
pub fn direct_window_remaining_percentage(window: &JsonValue, exhausted: bool) -> (remaining: Option<
    i32,
>)
    ensures
        remaining == direct_remaining(window@, exhausted),
        remaining matches Some(remaining) ==> 0 <= remaining <= 100,
{
    if exhausted {
        return Some(0);
    }
    match read_f64_field(window, "used_percent") {
        Some(used) => Some(remaining_after_number(used)),
        None => None,
    }
}

/// The slots with a window sorted in, unless it does not say how much of it is used.
pub open spec fn direct_slots_with(
    slots: (QuotaSlot, QuotaSlot),
    window: Option<Json>,
    exhausted: bool,
    observed_at: i64,
) -> (QuotaSlot, QuotaSlot) {
    match window {
        Some(window) => match direct_remaining(window, exhausted) {
            Some(remaining) => slots_with(
                slots,
                remaining,
                direct_reset(window, observed_at),
                direct_minutes(window),
            ),
            None => slots,
        },
        None => slots,
    }
}

/// Sorts a window into its slot.
pub fn apply_direct_window_to_quota_slots(
    window: &JsonValue,
    exhausted: bool,
    observed_at: i64,
    hourly: &mut QuotaSlot,
    weekly: &mut QuotaSlot,
)
    ensures
        (*final(hourly), *final(weekly)) == direct_slots_with(
            (*old(hourly), *old(weekly)),
            Some(window@),
            exhausted,
            observed_at,
        ),
{
    let remaining = match direct_window_remaining_percentage(window, exhausted) {
        Some(remaining) => remaining,
        None => {
            return;
        },
    };
    let reset_time = direct_window_reset_at(window, observed_at);
    let minutes = direct_window_minutes(window);
    if direct_window_is_weekly(window) {
        fill_slot(weekly, remaining, reset_time, minutes);
    } else {
        fill_slot(hourly, remaining, reset_time, minutes);
    }
}

/// The first of two windows that is there and meets a condition.
pub open spec fn first_window(
    primary: Option<Json>,
    secondary: Option<Json>,
    condition: spec_fn(Json) -> bool,
) -> Option<Json> {
    if primary matches Some(window) && condition(window) {
        primary
    } else if secondary matches Some(window) && condition(window) {
        secondary
    } else {
        None
    }
}

/// When a window that may be missing resets.
pub open spec fn direct_reset_in(window: Option<Json>, observed_at: i64) -> Option<i64> {
    match window {
        Some(window) => direct_reset(window, observed_at),
        None => None,
    }
}

/// The kind of limit that rate limits name as reached.
pub open spec fn reached_type_in(rate_limits: Json) -> Option<Seq<char>> {
    match json_get(rate_limits, "rate_limit_reached_type"@) {
        Some(value) => reached_type(value),
        None => None,
    }
}

/// The rate limits say that nothing is left: by the kind of limit reached, by their flags, or by
/// a window that is used up.
pub open spec fn rate_limits_are_exhausted(rate_limits: Json) -> bool {
    ||| names_exhausting_kind(json_get(rate_limits, "rate_limit_reached_type"@))
    ||| json_bool_in(json_get(rate_limits, "limit_reached"@)) == Some(true)
    ||| json_bool_in(json_get(rate_limits, "allowed"@)) == Some(false)
    ||| json_get(rate_limits, "primary"@) matches Some(window) && window_is_full(window)
    ||| json_get(rate_limits, "secondary"@) matches Some(window) && window_is_full(window)
}

/// The slots that the windows of rate limits fill, the primary one first.
pub open spec fn rate_limit_slots(rate_limits: Json, observed_at: i64) -> (QuotaSlot, QuotaSlot) {
    let exhausted = rate_limits_are_exhausted(rate_limits);
    let none = (empty_slot(), empty_slot());
    direct_slots_with(
        direct_slots_with(none, json_get(rate_limits, "primary"@), exhausted, observed_at),
        json_get(rate_limits, "secondary"@),
        exhausted,
        observed_at,
    )
}

/// When the quota resets: when the first used-up window does, else when the first window does that
/// says so, else when the later of the slots does.
pub open spec fn rate_limits_reset(rate_limits: Json, observed_at: i64) -> Option<i64> {
    let primary = json_get(rate_limits, "primary"@);
    let secondary = json_get(rate_limits, "secondary"@);
    let full = first_window(primary, secondary, |window: Json| window_is_full(window));
    let dated = first_window(
        primary,
        secondary,
        |window: Json| direct_reset(window, observed_at) is Some,
    );
    let slots = rate_limit_slots(rate_limits, observed_at);
    first_some(
        first_some(direct_reset_in(full, observed_at), direct_reset_in(dated, observed_at)),
        later_of(slots.0.reset_time, slots.1.reset_time),
    )
}

/// The kind of limit that an observation of rate limits names: the one they name, or the common
/// one if nothing is left and they name none.
pub open spec fn rate_limits_error_type(rate_limits: Json) -> Option<Seq<char>> {
    if rate_limits_are_exhausted(rate_limits) {
        first_some(reached_type_in(rate_limits), Some("usage_limit_reached"@))
    } else {
        reached_type_in(rate_limits)
    }
}

/// What a quota read from rate limits records of its origin.
pub open spec fn rate_limits_raw_data(rate_limits: Json, observed_at: i64) -> Json {
    Json::Object(
        seq![
            ("observed_at"@, Json::Number(number_of(observed_at))),
            (
                "plan_type"@,
                json_of_opt_text(json_text_in(json_get(rate_limits, "plan_type"@))),
            ),
            ("quota_exhausted"@, Json::Bool(rate_limits_are_exhausted(rate_limits))),
            ("rate_limit_reached_type"@, json_of_opt_text(rate_limits_error_type(rate_limits))),
            ("source"@, Json::Text("codex_session_rate_limits"@)),
        ],
    )
}

/// What rate limits seen at `observed_at` say of the quota; nothing if no window of theirs says
/// how much of it is used.
pub open spec fn rate_limits_observation(rate_limits: Json, observed_at: i64) -> Option<
    ObservationModel,
> {
    let slots = rate_limit_slots(rate_limits, observed_at);
    if !slots.0.present && !slots.1.present {
        None
    } else {
        let reset_at = rate_limits_reset(rate_limits, observed_at);
        Some(
            ObservationModel {
                observed_at,
                reset_at,
                reset_after_seconds: match reset_at {
                    Some(reset_at) => Some(seconds_until(reset_at, observed_at)),
                    None => None,
                },
                error_type: rate_limits_error_type(rate_limits),
                source: "codex_session_rate_limits"@,
                quota: Some(
                    quota_of_slots(slots, Some(rate_limits_raw_data(rate_limits, observed_at))),
                ),
                exhausted: rate_limits_are_exhausted(rate_limits),
            },
        )
    }
}

/// Whether an optional window says that all of it is used.
fn is_full_window(window: Option<&JsonValue>) -> (full: bool)
    ensures
        full == (opt_json_ref(window) matches Some(window) && window_is_full(window)),
{
    match window {
        Some(window) => direct_window_is_full(window),
        None => false,
    }
}

/// When an optional window resets.
fn optional_window_reset_at(window: Option<&JsonValue>, observed_at: i64) -> (reset_at: Option<i64>)
    ensures
        reset_at == direct_reset_in(opt_json_ref(window), observed_at),
{
    match window {
        Some(window) => direct_window_reset_at(window, observed_at),
        None => None,
    }
}

/// What rate limits seen at `observed_at` say of the quota.
#[verifier::spinoff_prover]
pub fn parse_direct_rate_limits_observation(rate_limits: &JsonValue, observed_at: i64) -> (observation:
    Option<DirectQuotaObservation>)
    ensures
        opt_observation(observation) == rate_limits_observation(rate_limits@, observed_at),
{
    let reached = rate_limits.get("rate_limit_reached_type");
    let reached_type = match reached {
        Some(value) => read_rate_limit_reached_type(value),
        None => None,
    };
    let reached_type_exhausted = is_exhausted_rate_limit_reached_type(reached);
    let refused = match rate_limits.get("allowed") {
        Some(value) => match value.as_bool() {
            Some(allowed) => !allowed,
            None => false,
        },
        None => false,
    };
    let limit_reached_exhausted = read_bool(rate_limits, "limit_reached") || refused;
    let primary = rate_limits.get("primary");
    let secondary = rate_limits.get("secondary");
    if primary.is_none() && secondary.is_none() {
        return None;
    }
    let primary_full = is_full_window(primary);
    let secondary_full = is_full_window(secondary);
    let exhausted = reached_type_exhausted || limit_reached_exhausted || primary_full
        || secondary_full;
    assert(exhausted == rate_limits_are_exhausted(rate_limits@));
    let mut hourly = new_slot();
    let mut weekly = new_slot();
    if let Some(window) = primary {
        apply_direct_window_to_quota_slots(window, exhausted, observed_at, &mut hourly, &mut weekly);
    }
    if let Some(window) = secondary {
        apply_direct_window_to_quota_slots(window, exhausted, observed_at, &mut hourly, &mut weekly);
    }
    assert((hourly, weekly) == rate_limit_slots(rate_limits@, observed_at));
    if !hourly.present && !weekly.present {
        return None;
    }
    let primary_reset = optional_window_reset_at(primary, observed_at);
    let secondary_reset = optional_window_reset_at(secondary, observed_at);
    let full_reset = if primary_full {
        primary_reset
    } else if secondary_full {
        secondary_reset
    } else {
        None
    };
    let reset_at = or_i64(
        or_i64(full_reset, or_i64(primary_reset, secondary_reset)),
        max_time(hourly.reset_time, weekly.reset_time),
    );
    assert(reset_at == rate_limits_reset(rate_limits@, observed_at));
    let error_type = match reached_type {
        Some(kind) => Some(kind),
        None => if exhausted {
            Some("usage_limit_reached".to_owned())
        } else {
            None
        },
    };
    assert(opt_text(error_type) == rate_limits_error_type(rate_limits@));
    let raw_fields: Vec<(String, JsonValue)> = vec![
        ("observed_at".to_owned(), json_integer(observed_at)),
        ("plan_type".to_owned(), json_optional_text(text_field(rate_limits, "plan_type"))),
        ("quota_exhausted".to_owned(), JsonValue::Bool(exhausted)),
        ("rate_limit_reached_type".to_owned(), json_optional_text(as_text(&error_type))),
        ("source".to_owned(), JsonValue::Text("codex_session_rate_limits".to_owned())),
    ];
    proof {
        assert(fields_of(raw_fields@) =~= rate_limits_raw_data(
            rate_limits@,
            observed_at,
        )->Object_0);
    }
    let quota = quota_from_slots(hourly, weekly, Some(json_object(raw_fields)));
    let reset_after_seconds = match reset_at {
        Some(reset_at) => Some(time_left(reset_at, observed_at)),
        None => None,
    };
    Some(
        DirectQuotaObservation {
            observed_at,
            reset_at,
            reset_after_seconds,
            error_type,
            source: "codex_session_rate_limits".to_owned(),
            quota: Some(quota),
            exhausted,
        },
    )
}

} // verus!
