//! What holds of the windows of a quota: each is read for what it says, and is found in the slot of
//! its length.
use vstd::prelude::*;

use crate::json::{json_get, json_of_text, Json};
use crate::models::codex::QuotaModel;
use crate::numbers::{minutes_of, wrapping_sum};
use crate::quota::messages::unix_seconds;
use crate::quota::usage::{
    is_exhausting_kind, is_weekly, quota_of_usage, reached_type, result_of_usage,
    usage_is_exhausted, window_minutes,
    window_remaining, window_reset, RateLimitInfo, UsageModel, WindowInfo,
};
use crate::text::{lower_of, trim_of};

verus! {

/// A slot of a quota holds a window.
pub open spec fn slot_holds(
    quota: QuotaModel,
    weekly: bool,
    percentage: i32,
    reset_time: Option<i64>,
    minutes: Option<i64>,
) -> bool {
    if weekly {
        &&& quota.weekly_window_present == Some(true)
        &&& quota.weekly_percentage == percentage
        &&& quota.weekly_reset_time == reset_time
        &&& quota.weekly_window_minutes == minutes
    } else {
        &&& quota.hourly_window_present == Some(true)
        &&& quota.hourly_percentage == percentage
        &&& quota.hourly_reset_time == reset_time
        &&& quota.hourly_window_minutes == minutes
    }
}

/// A slot of a quota holds no window: all of it is left.
pub open spec fn slot_is_empty(quota: QuotaModel, weekly: bool) -> bool {
    if weekly {
        &&& quota.weekly_window_present == Some(false)
        &&& quota.weekly_percentage == 100
        &&& quota.weekly_reset_time is None
        &&& quota.weekly_window_minutes is None
    } else {
        &&& quota.hourly_window_present == Some(false)
        &&& quota.hourly_percentage == 100
        &&& quota.hourly_reset_time is None
        &&& quota.hourly_window_minutes is None
    }
}

/// A time is told in seconds; what is too large for that is told in milliseconds, and a started
/// second is left out.
pub proof fn times_are_told_in_seconds(time: i64)
    ensures
        time <= 1_000_000_000_000 ==> unix_seconds(time) == time,
        time > 1_000_000_000_000 ==> 1000 * unix_seconds(time) <= time < 1000 * unix_seconds(time)
            + 1000,
{
}

/// A length counts as weekly from six days on, told in minutes.
pub proof fn six_days_count_as_a_week(minutes: i64)
    ensures
        is_weekly(Some(minutes)) == (minutes >= 6 * 24 * 60),
        !is_weekly(None),
{
}

/// What is used of a window of the endpoint and what is left of it make up all of it; a window that
/// does not say what is used is unused.
pub proof fn used_and_left_make_up_a_window(window: WindowInfo)
    ensures
        window.used_percent is None ==> window_remaining(window) == 100,
        window.used_percent matches Some(used) ==> {
            &&& 0 <= used <= 100 ==> used + window_remaining(window) == 100
            &&& used > 100 ==> window_remaining(window) == 0
            &&& used < 0 ==> window_remaining(window) == 100
        },
{
}

/// The length of a window of the endpoint is the started minutes of its seconds, and unknown where
/// it has none; with it a window counts as weekly once it is longer than six days less a minute.
pub proof fn window_length_is_told_in_started_minutes(window: WindowInfo)
    ensures
        window.limit_window_seconds is None ==> window_minutes(window) is None,
        window.limit_window_seconds matches Some(seconds) ==> {
            &&& seconds <= 0 ==> window_minutes(window) is None
            &&& 0 < seconds <= i64::MAX - 59 ==> window_minutes(window) is Some && seconds <= 60
                * window_minutes(window)->0 < seconds + 60
            &&& seconds > 0 ==> window_minutes(window) == Some(minutes_of(seconds))
            &&& 0 < seconds <= i64::MAX - 59 ==> is_weekly(window_minutes(window)) == (seconds
                > 6 * 24 * 60 * 60 - 60)
        },
{
}

/// A window of the endpoint resets at the time it names, whatever delay it names too; or else when
/// the delay is over that it names, unless that is negative; or else at no known time.
pub proof fn window_resets_when_it_says(window: WindowInfo, now: i64)
    ensures
        window.reset_at matches Some(time) ==> window_reset(window, now) == Some(unix_seconds(time)),
        window.reset_at is None ==> (match window.reset_after_seconds {
            Some(seconds) => {
                &&& seconds < 0 ==> window_reset(window, now) is None
                &&& seconds >= 0 ==> window_reset(window, now) == Some(wrapping_sum(now, seconds))
                &&& seconds >= 0 && now + seconds <= i64::MAX ==> window_reset(window, now) is Some
                    && window_reset(window, now)->0 == now + seconds
            },
            None => window_reset(window, now) is None,
        }),
{
}

/// The kinds of limit that mean that nothing is left.
pub open spec fn kinds_of_exhaustion() -> Seq<Seq<char>> {
    seq![
        "usage_limit_reached"@,
        "credits_depleted"@,
        "rate_limit_reached"@,
        "workspace_owner_credits_depleted"@,
        "workspace_member_credits_depleted"@,
        "workspace_owner_usage_limit_reached"@,
        "workspace_member_usage_limit_reached"@,
    ]
}

/// These kinds of limit mean that nothing is left, and no others.
pub proof fn kinds_of_exhaustion_are_known(kind: Seq<char>)
    ensures
        is_exhausting_kind(kind) == kinds_of_exhaustion().contains(kind),
{
    let kinds = kinds_of_exhaustion();
    assert(kinds[0] == "usage_limit_reached"@);
    assert(kinds[1] == "credits_depleted"@);
    assert(kinds[2] == "rate_limit_reached"@);
    assert(kinds[3] == "workspace_owner_credits_depleted"@);
    assert(kinds[4] == "workspace_member_credits_depleted"@);
    assert(kinds[5] == "workspace_owner_usage_limit_reached"@);
    assert(kinds[6] == "workspace_member_usage_limit_reached"@);
}

/// The kind of limit that was reached is a text, in whatever case and white space around it, or
/// stands under `type`, or under `kind` where there is no `type`; a blank one there is none.
pub proof fn reached_kind_is_read(value: Json)
    ensures
        value matches Json::Text(kind) ==> reached_type(value) == Some(lower_of(trim_of(kind))),
        !(value is Text) && json_get(value, "type"@) is Some ==> reached_type(value) == (
        match json_get(value, "type"@)->0 {
            Json::Text(kind) => if trim_of(kind).len() > 0 {
                Some(lower_of(trim_of(kind)))
            } else {
                None
            },
            _ => None,
        }),
        !(value is Text) && json_get(value, "type"@) is None && json_get(value, "kind"@) is Some
            ==> reached_type(value) == (match json_get(value, "kind"@)->0 {
            Json::Text(kind) => if trim_of(kind).len() > 0 {
                Some(lower_of(trim_of(kind)))
            } else {
                None
            },
            _ => None,
        }),
        !(value is Text) && json_get(value, "type"@) is None && json_get(value, "kind"@) is None
            ==> reached_type(value) is None,
{
}

/// The answer of the endpoint tells of a used-up quota by its limit being reached, by requests not
/// being allowed, or by the kind of limit that it names; by nothing else.
pub proof fn usage_tells_of_exhaustion(usage: UsageModel)
    ensures
        usage.rate_limit matches Some(limit) && limit.limit_reached == Some(true)
            ==> usage_is_exhausted(usage),
        usage.rate_limit matches Some(limit) && limit.allowed == Some(false) ==> usage_is_exhausted(
            usage,
        ),
        usage.rate_limit_reached_type matches Some(value) && reached_type(value) matches Some(kind)
            && kinds_of_exhaustion().contains(kind) ==> usage_is_exhausted(usage),
        usage_is_exhausted(usage) ==> {
            ||| usage.rate_limit matches Some(limit) && (limit.limit_reached == Some(true)
                || limit.allowed == Some(false))
            ||| usage.rate_limit_reached_type matches Some(value) && reached_type(
                value,
            ) matches Some(kind) && kinds_of_exhaustion().contains(kind)
        },
{
    if let Some(value) = usage.rate_limit_reached_type {
        if let Some(kind) = reached_type(value) {
            kinds_of_exhaustion_are_known(kind);
        }
    }
}

/// The other rate limit of an answer, that of code reviews, plays no part, nor does its plan.
pub proof fn other_parts_of_the_answer_do_not_matter(
    usage: UsageModel,
    other: UsageModel,
    raw_body: Seq<char>,
    now: i64,
)
    requires
        usage.rate_limit == other.rate_limit,
        usage.rate_limit_reached_type == other.rate_limit_reached_type,
    ensures
        quota_of_usage(usage, raw_body, now) == quota_of_usage(other, raw_body, now),
{
}

/// What is left of a window of an answer: nothing if the answer tells of a used-up quota.
pub open spec fn left_in(usage: UsageModel, window: WindowInfo) -> i32 {
    if usage_is_exhausted(usage) {
        0
    } else {
        window_remaining(window)
    }
}

/// A rate limit has a window of the given length.
pub open spec fn has_window(limit: RateLimitInfo, weekly: bool) -> bool {
    ||| limit.primary_window matches Some(window) && is_weekly(window_minutes(window)) == weekly
    ||| limit.secondary_window matches Some(window) && is_weekly(window_minutes(window)) == weekly
}

/// A window of the answer that is the only one of its length, primary or secondary, is what the slot
/// of that length holds: what is left of it, when it resets and how long it is.
pub proof fn lone_window_is_in_its_slot(
    usage: UsageModel,
    raw_body: Seq<char>,
    now: i64,
    window: WindowInfo,
)
    requires
        usage.rate_limit matches Some(limit) && ({
            ||| limit.primary_window == Some(window) && !(limit.secondary_window matches Some(other)
                && is_weekly(window_minutes(other)) == is_weekly(window_minutes(window)))
            ||| limit.secondary_window == Some(window) && !(limit.primary_window matches Some(other)
                && is_weekly(window_minutes(other)) == is_weekly(window_minutes(window)))
        }),
    ensures
        slot_holds(
            quota_of_usage(usage, raw_body, now),
            is_weekly(window_minutes(window)),
            left_in(usage, window),
            window_reset(window, now),
            window_minutes(window),
        ),
{
}

/// Of two windows of the answer that have the same length, the slot of that length holds the one
/// with less left, and the primary one where as much is left of both.
pub proof fn scarcer_window_is_in_the_slot(usage: UsageModel, raw_body: Seq<char>, now: i64)
    requires
        usage.rate_limit matches Some(limit) && limit.primary_window is Some
            && limit.secondary_window is Some && is_weekly(
            window_minutes(limit.primary_window->0),
        ) == is_weekly(window_minutes(limit.secondary_window->0)),
    ensures
        ({
            let primary = usage.rate_limit->0.primary_window->0;
            let secondary = usage.rate_limit->0.secondary_window->0;
            let scarcer = if left_in(usage, secondary) < left_in(usage, primary) {
                secondary
            } else {
                primary
            };
            slot_holds(
                quota_of_usage(usage, raw_body, now),
                is_weekly(window_minutes(primary)),
                left_in(usage, scarcer),
                window_reset(scarcer, now),
                window_minutes(scarcer),
            )
        }),
{
}

/// A window of the answer is never lost: the slot of its length is there and holds no more than what
/// is left of that window.
pub proof fn no_window_is_lost(usage: UsageModel, raw_body: Seq<char>, now: i64, window: WindowInfo)
    requires
        usage.rate_limit matches Some(limit) && (limit.primary_window == Some(window)
            || limit.secondary_window == Some(window)),
    ensures
        ({
            let quota = quota_of_usage(usage, raw_body, now);
            if is_weekly(window_minutes(window)) {
                quota.weekly_window_present == Some(true) && quota.weekly_percentage <= left_in(
                    usage,
                    window,
                )
            } else {
                quota.hourly_window_present == Some(true) && quota.hourly_percentage <= left_in(
                    usage,
                    window,
                )
            }
        }),
{
}

/// A slot for which the answer has no window is empty.
pub proof fn slot_without_a_window_is_empty(
    usage: UsageModel,
    raw_body: Seq<char>,
    now: i64,
    weekly: bool,
)
    requires
        !(usage.rate_limit matches Some(limit) && has_window(limit, weekly)),
    ensures
        slot_is_empty(quota_of_usage(usage, raw_body, now), weekly),
{
}

/// The plan that an answer names is told with the quota that it describes.
pub proof fn answer_tells_the_plan(usage: UsageModel, raw_body: Seq<char>, now: i64)
    ensures
        result_of_usage(usage, raw_body, now).0 == quota_of_usage(usage, raw_body, now),
        result_of_usage(usage, raw_body, now).1 == usage.plan_type,
{
}

/// The body of the answer is kept where it is JSON, and nothing where it is not.
pub proof fn body_is_kept(usage: UsageModel, raw_body: Seq<char>, now: i64)
    ensures
        json_of_text(raw_body) matches Ok(root) ==> quota_of_usage(usage, raw_body, now).raw_data
            == Some(root),
        json_of_text(raw_body) is Err ==> quota_of_usage(usage, raw_body, now).raw_data is None,
{
}

} // verus!
