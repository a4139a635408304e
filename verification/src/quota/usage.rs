//! Quotas as the usage endpoint reports them.
use vstd::prelude::*;

use crate::clock::now_seconds;
use crate::json::{
    json_get, json_of_text, json_text_in, opt_json, opt_json_ref, parse_json, Json, JsonValue,
};
use crate::models::codex::{clone_text, CodexQuota, QuotaModel, WEEKLY_WINDOW_MINUTES_THRESHOLD};
use crate::numbers::{
    clamp_percent, first_some, minutes_from_seconds, minutes_of, within_percent, wrapping_add,
    wrapping_sum,
};
use crate::quota::messages::{normalize_unix_timestamp_seconds, unix_seconds};
use crate::text::{lower_of, opt_text, same_text, to_ascii_lowercase, trim, trim_of};

verus! {

/// A window of the rate limit: how much of it is used, how long it is, and when it resets.
#[derive(Clone, Copy, Debug)]
pub struct WindowInfo {
    pub used_percent: Option<i32>,
    pub limit_window_seconds: Option<i64>,
    pub reset_after_seconds: Option<i64>,
    pub reset_at: Option<i64>,
}

/// The rate limit of an account.
#[derive(Clone, Copy, Debug)]
pub struct RateLimitInfo {
    pub allowed: Option<bool>,
    pub limit_reached: Option<bool>,
    pub primary_window: Option<WindowInfo>,
    pub secondary_window: Option<WindowInfo>,
}

/// The answer of the usage endpoint.
#[derive(Debug)]
pub struct UsageResponse {
    pub plan_type: Option<String>,
    pub rate_limit: Option<RateLimitInfo>,
    pub code_review_rate_limit: Option<RateLimitInfo>,
    pub rate_limit_reached_type: Option<JsonValue>,
}

pub ghost struct UsageModel {
    pub plan_type: Option<Seq<char>>,
    pub rate_limit: Option<RateLimitInfo>,
    pub code_review_rate_limit: Option<RateLimitInfo>,
    pub rate_limit_reached_type: Option<Json>,
}

impl View for UsageResponse {
    type V = UsageModel;

    open spec fn view(&self) -> UsageModel {
        UsageModel {
            plan_type: opt_text(self.plan_type),
            rate_limit: self.rate_limit,
            code_review_rate_limit: self.code_review_rate_limit,
            rate_limit_reached_type: opt_json(self.rate_limit_reached_type),
        }
    }
}

/// A slot of a quota while its windows are being sorted in.
#[derive(Clone, Copy, Debug)]
pub struct QuotaSlot {
    pub remaining: i32,
    pub reset_time: Option<i64>,
    pub window_minutes: Option<i64>,
    pub present: bool,
}

/// A slot that no window has taken.
pub open spec fn empty_slot() -> QuotaSlot {
    QuotaSlot { remaining: 100, reset_time: None, window_minutes: None, present: false }
}

/// A slot that no window has taken.
pub fn new_slot() -> (slot: QuotaSlot)
    ensures
        slot == empty_slot(),
{
    QuotaSlot { remaining: 100, reset_time: None, window_minutes: None, present: false }
}

/// The slot with a window in it: of two windows the one with less left.
pub open spec fn slot_with(
    slot: QuotaSlot,
    remaining: i32,
    reset_time: Option<i64>,
    window_minutes: Option<i64>,
) -> QuotaSlot {
    if !slot.present || remaining < slot.remaining {
        QuotaSlot { remaining, reset_time, window_minutes, present: true }
    } else {
        slot
    }
}

/// Sorts a window into its slot: the weekly one if it is long enough, else the hourly one.
pub open spec fn slots_with(
    slots: (QuotaSlot, QuotaSlot),
    remaining: i32,
    reset_time: Option<i64>,
    window_minutes: Option<i64>,
) -> (QuotaSlot, QuotaSlot) {
    if is_weekly(window_minutes) {
        (slots.0, slot_with(slots.1, remaining, reset_time, window_minutes))
    } else {
        (slot_with(slots.0, remaining, reset_time, window_minutes), slots.1)
    }
}

/// Puts a window into a slot.
pub fn fill_slot(
    slot: &mut QuotaSlot,
    remaining: i32,
    reset_time: Option<i64>,
    window_minutes: Option<i64>,
)
    ensures
        *final(slot) == slot_with(*old(slot), remaining, reset_time, window_minutes),
{
    if !slot.present || remaining < slot.remaining {
        *slot = QuotaSlot { remaining, reset_time, window_minutes, present: true };
    }
}

/// What is left of a window, in percent.
pub open spec fn window_remaining(window: WindowInfo) -> i32 {
    match window.used_percent {
        Some(used) => (100 - within_percent(used)) as i32,
        None => 100,
    }
}

/// What is left of a window, in percent.
pub fn normalize_remaining_percentage(window: &WindowInfo) -> (remaining: i32)
    ensures
        remaining == window_remaining(*window),
        0 <= remaining <= 100,
{
    match window.used_percent {
        Some(used) => 100 - clamp_percent(used),
        None => 100,
    }
}

/// The length of a window in minutes, if it has one.
pub open spec fn window_minutes(window: WindowInfo) -> Option<i64> {
    match window.limit_window_seconds {
        Some(seconds) if seconds > 0 => Some(minutes_of(seconds)),
        _ => None,
    }
}

/// The length of a window in minutes, if it has one.
pub fn normalize_window_minutes(window: &WindowInfo) -> (minutes: Option<i64>)
    ensures
        minutes == window_minutes(*window),
{
    match window.limit_window_seconds {
        Some(seconds) => if seconds <= 0 {
            None
        } else {
            Some(minutes_from_seconds(seconds))
        },
        None => None,
    }
}

/// A window of this length is a weekly one.
pub open spec fn is_weekly(minutes: Option<i64>) -> bool {
    minutes matches Some(minutes) && minutes >= WEEKLY_WINDOW_MINUTES_THRESHOLD
}

/// Whether a window of this length is a weekly one.
pub fn minutes_are_weekly(minutes: Option<i64>) -> (weekly: bool)
    ensures
        weekly == is_weekly(minutes),
{
    match minutes {
        Some(minutes) => minutes >= WEEKLY_WINDOW_MINUTES_THRESHOLD,
        None => false,
    }
}

/// Whether a window is a weekly one.
pub fn is_weekly_window(window: &WindowInfo) -> (weekly: bool)
    ensures
        weekly == is_weekly(window_minutes(*window)),
{
    minutes_are_weekly(normalize_window_minutes(window))
}

/// When a window resets: at the time it names, or the seconds it names after `now`.
pub open spec fn window_reset(window: WindowInfo, now: i64) -> Option<i64> {
    match (window.reset_at, window.reset_after_seconds) {
        (Some(reset_at), _) => Some(unix_seconds(reset_at)),
        (None, Some(seconds)) if seconds >= 0 => Some(wrapping_sum(now, seconds)),
        _ => None,
    }
}

/// When a window resets, seen at `now`.
pub fn normalize_reset_time_at(window: &WindowInfo, now: i64) -> (reset_time: Option<i64>)
    ensures
        reset_time == window_reset(*window, now),
{
    if let Some(reset_at) = window.reset_at {
        return Some(normalize_unix_timestamp_seconds(reset_at));
    }
    match window.reset_after_seconds {
        Some(seconds) => if seconds < 0 {
            None
        } else {
            Some(wrapping_add(now, seconds))
        },
        None => None,
    }
}

/// When a window resets, seen now.
pub fn normalize_reset_time(window: &WindowInfo) -> (reset_time: Option<i64>)
    ensures
        exists|now: i64| #[trigger] window_reset(*window, now) == reset_time,
{
    normalize_reset_time_at(window, now_seconds())
}

/// The kind of limit that was reached, in small letters: the value itself where it is a text,
/// else its type, or its kind where it has no type, unless that is blank.
pub open spec fn reached_type(value: Json) -> Option<Seq<char>> {
    match value {
        Json::Text(kind) => Some(lower_of(trim_of(kind))),
        _ => match json_text_in(first_some(json_get(value, "type"@), json_get(value, "kind"@))) {
            Some(kind) if trim_of(kind).len() > 0 => Some(lower_of(trim_of(kind))),
            _ => None,
        },
    }
}

/// The kind of limit that was reached.
pub fn read_rate_limit_reached_type(value: &JsonValue) -> (kind: Option<String>)
    ensures
        opt_text(kind) == reached_type(value@),
{
    if let Some(kind) = value.as_str() {
        return Some(to_ascii_lowercase(trim(kind)));
    }
    let item = match value.get("type") {
        Some(item) => Some(item),
        None => value.get("kind"),
    };
    match item {
        Some(item) => match item.as_str() {
            Some(kind) => {
                let kind = trim(kind);
                if kind.is_empty() {
                    None
                } else {
                    Some(to_ascii_lowercase(kind))
                }
            },
            None => None,
        },
        None => None,
    }
}

/// The kinds of limit that mean that nothing is left.
pub open spec fn is_exhausting_kind(kind: Seq<char>) -> bool {
    ||| kind == "rate_limit_reached"@
    ||| kind == "workspace_owner_credits_depleted"@
    ||| kind == "workspace_member_credits_depleted"@
    ||| kind == "workspace_owner_usage_limit_reached"@
    ||| kind == "workspace_member_usage_limit_reached"@
    ||| kind == "usage_limit_reached"@
    ||| kind == "credits_depleted"@
}

/// The value names a kind of limit that means that nothing is left.
pub open spec fn names_exhausting_kind(value: Option<Json>) -> bool {
    &&& value matches Some(value)
    &&& reached_type(value) matches Some(kind)
    &&& is_exhausting_kind(kind)
}

/// Whether a value names a kind of limit that means that nothing is left.
pub fn is_exhausted_rate_limit_reached_type(value: Option<&JsonValue>) -> (exhausted: bool)
    ensures
        exhausted == names_exhausting_kind(opt_json_ref(value)),
{
    let value = match value {
        Some(value) => value,
        None => {
            return false;
        },
    };
    match read_rate_limit_reached_type(value) {
        Some(kind) => {
            let kind = kind.as_str();
            same_text(kind, "rate_limit_reached") || same_text(
                kind,
                "workspace_owner_credits_depleted",
            ) || same_text(kind, "workspace_member_credits_depleted") || same_text(
                kind,
                "workspace_owner_usage_limit_reached",
            ) || same_text(kind, "workspace_member_usage_limit_reached") || same_text(
                kind,
                "usage_limit_reached",
            ) || same_text(kind, "credits_depleted")
        },
        None => false,
    }
}

/// The rate limit says that nothing is left.
pub open spec fn limit_is_exhausted(rate_limit: Option<RateLimitInfo>) -> bool {
    rate_limit matches Some(rate_limit) && (rate_limit.limit_reached == Some(true)
        || rate_limit.allowed == Some(false))
}

/// Whether the rate limit says that nothing is left.
pub fn rate_limit_marks_exhausted(rate_limit: Option<&RateLimitInfo>) -> (exhausted: bool)
    ensures
        exhausted == limit_is_exhausted(
            match rate_limit {
                Some(rate_limit) => Some(*rate_limit),
                None => None,
            },
        ),
{
    match rate_limit {
        Some(rate_limit) => {
            let reached = match rate_limit.limit_reached {
                Some(reached) => reached,
                None => false,
            };
            let refused = match rate_limit.allowed {
                Some(allowed) => !allowed,
                None => false,
            };
            reached || refused
        },
        None => false,
    }
}

/// The slots with a window sorted in; nothing is left of it if the quota is used up.
pub open spec fn slots_with_window(
    slots: (QuotaSlot, QuotaSlot),
    window: Option<WindowInfo>,
    exhausted: bool,
    now: i64,
) -> (QuotaSlot, QuotaSlot) {
    match window {
        Some(window) => slots_with(
            slots,
            if exhausted {
                0
            } else {
                window_remaining(window)
            },
            window_reset(window, now),
            window_minutes(window),
        ),
        None => slots,
    }
}

/// Sorts a window into its slot, seen at `now`.
pub fn apply_window_to_quota_slots(
    window: &WindowInfo,
    exhausted: bool,
    now: i64,
    hourly: &mut QuotaSlot,
    weekly: &mut QuotaSlot,
)
    ensures
        (*final(hourly), *final(weekly)) == slots_with_window(
            (*old(hourly), *old(weekly)),
            Some(*window),
            exhausted,
            now,
        ),
{
    let remaining: i32 = if exhausted {
        0
    } else {
        normalize_remaining_percentage(window)
    };
    let reset_time = normalize_reset_time_at(window, now);
    let minutes = normalize_window_minutes(window);
    if is_weekly_window(window) {
        fill_slot(weekly, remaining, reset_time, minutes);
    } else {
        fill_slot(hourly, remaining, reset_time, minutes);
    }
}

/// The quota that two slots make up.
pub open spec fn quota_of_slots(slots: (QuotaSlot, QuotaSlot), raw_data: Option<Json>) -> QuotaModel {
    QuotaModel {
        hourly_percentage: slots.0.remaining,
        hourly_reset_time: slots.0.reset_time,
        hourly_window_minutes: slots.0.window_minutes,
        hourly_window_present: Some(slots.0.present),
        weekly_percentage: slots.1.remaining,
        weekly_reset_time: slots.1.reset_time,
        weekly_window_minutes: slots.1.window_minutes,
        weekly_window_present: Some(slots.1.present),
        raw_data,
    }
}

/// The quota that two slots make up.
pub fn quota_from_slots(hourly: QuotaSlot, weekly: QuotaSlot, raw_data: Option<JsonValue>) -> (quota:
    CodexQuota)
    ensures
        quota@ == quota_of_slots((hourly, weekly), opt_json(raw_data)),
{
    CodexQuota {
        hourly_percentage: hourly.remaining,
        hourly_reset_time: hourly.reset_time,
        hourly_window_minutes: hourly.window_minutes,
        hourly_window_present: Some(hourly.present),
        weekly_percentage: weekly.remaining,
        weekly_reset_time: weekly.reset_time,
        weekly_window_minutes: weekly.window_minutes,
        weekly_window_present: Some(weekly.present),
        raw_data,
    }
}

/// The usage says that nothing is left.
pub open spec fn usage_is_exhausted(usage: UsageModel) -> bool {
    limit_is_exhausted(usage.rate_limit) || names_exhausting_kind(usage.rate_limit_reached_type)
}

/// The slots that the windows of a usage fill, the primary one first.
pub open spec fn usage_slots(usage: UsageModel, now: i64) -> (QuotaSlot, QuotaSlot) {
    let exhausted = usage_is_exhausted(usage);
    let primary = match usage.rate_limit {
        Some(rate_limit) => rate_limit.primary_window,
        None => None,
    };
    let secondary = match usage.rate_limit {
        Some(rate_limit) => rate_limit.secondary_window,
        None => None,
    };
    let none = (empty_slot(), empty_slot());
    slots_with_window(slots_with_window(none, primary, exhausted, now), secondary, exhausted, now)
}

/// The quota that a usage describes, kept together with the body of the response if it is JSON.
pub open spec fn quota_of_usage(usage: UsageModel, raw_body: Seq<char>, now: i64) -> QuotaModel {
    quota_of_slots(
        usage_slots(usage, now),
        match json_of_text(raw_body) {
            Ok(root) => Some(root),
            Err(_) => None,
        },
    )
}

/// The quota that a usage describes, seen at `now`.
pub fn parse_quota_from_usage_at(usage: &UsageResponse, raw_body: &str, now: i64) -> (quota: Result<
    CodexQuota,
    String,
>)
    ensures
        quota matches Ok(quota) && quota@ == quota_of_usage(usage@, raw_body@, now),
{
    let reached_type = match &usage.rate_limit_reached_type {
        Some(value) => Some(value),
        None => None,
    };
    let rate_limit = match &usage.rate_limit {
        Some(rate_limit) => Some(rate_limit),
        None => None,
    };
    let exhausted = rate_limit_marks_exhausted(rate_limit) || is_exhausted_rate_limit_reached_type(
        reached_type,
    );
    let mut hourly = new_slot();
    let mut weekly = new_slot();
    if let Some(rate_limit) = rate_limit {
        if let Some(window) = &rate_limit.primary_window {
            apply_window_to_quota_slots(window, exhausted, now, &mut hourly, &mut weekly);
        }
        if let Some(window) = &rate_limit.secondary_window {
            apply_window_to_quota_slots(window, exhausted, now, &mut hourly, &mut weekly);
        }
    }
    let raw_data = match parse_json(raw_body) {
        Ok(root) => Some(root),
        Err(_) => None,
    };
    Ok(quota_from_slots(hourly, weekly, raw_data))
}

/// The quota that a usage describes, seen now.
pub fn parse_quota_from_usage(usage: &UsageResponse, raw_body: &str) -> (quota: Result<
    CodexQuota,
    String,
>)
    ensures
        exists|now: i64|
            quota matches Ok(quota) && quota@ == #[trigger] quota_of_usage(usage@, raw_body@, now),
{
    parse_quota_from_usage_at(usage, raw_body, now_seconds())
}

/// What is known of an account's quota after a look at it.
#[derive(Debug)]
pub struct FetchQuotaResult {
    pub quota: CodexQuota,
    pub plan_type: Option<String>,
}

/// The quota and the plan that a usage describes.
pub open spec fn result_of_usage(usage: UsageModel, raw_body: Seq<char>, now: i64) -> (
    QuotaModel,
    Option<Seq<char>>,
) {
    (quota_of_usage(usage, raw_body, now), usage.plan_type)
}

/// The quota and the plan that a usage describes, seen at `now`.
pub fn quota_result_from_usage(usage: &UsageResponse, raw_body: &str, now: i64) -> (result: Result<
    FetchQuotaResult,
    String,
>)
    ensures
        result matches Ok(result) && result.quota@ == quota_of_usage(usage@, raw_body@, now)
            && opt_text(result.plan_type) == usage@.plan_type,
        result matches Ok(result) && (result.quota@, opt_text(result.plan_type)) == result_of_usage(
            usage@,
            raw_body@,
            now,
        ),
{
    match parse_quota_from_usage_at(usage, raw_body, now) {
        Ok(quota) => Ok(
            FetchQuotaResult {
                quota,
                plan_type: clone_text(&usage.plan_type),
            },
        ),
        Err(error) => Err(error),
    }
}

} // verus!
