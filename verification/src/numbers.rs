//! Arithmetic on seconds, minutes and percentages.
use vstd::prelude::*;

verus! {

/// A count of seconds that is not negative.
pub open spec fn not_negative(value: Option<i64>) -> Option<i64> {
    match value {
        Some(value) if value >= 0 => Some(value),
        _ => None,
    }
}

/// A count of seconds that is not negative.
pub fn keep_not_negative(value: Option<i64>) -> (kept: Option<i64>)
    ensures
        kept == not_negative(value),
{
    match value {
        Some(seconds) => if seconds >= 0 {
            Some(seconds)
        } else {
            None
        },
        None => None,
    }
}

/// The sum, kept within 64 bits at both ends.
pub open spec fn saturating_sum(left: i64, right: i64) -> i64 {
    if left + right > i64::MAX {
        i64::MAX
    } else if left + right < i64::MIN {
        i64::MIN
    } else {
        (left + right) as i64
    }
}

/// The sum, kept within 64 bits at both ends.
pub fn saturating_add(left: i64, right: i64) -> (sum: i64)
    ensures
        sum == saturating_sum(left, right),
{
    if right >= 0 && left > i64::MAX - right {
        i64::MAX
    } else if right < 0 && left < i64::MIN - right {
        i64::MIN
    } else {
        left + right
    }
}

/// The first of two optional values that is there.
pub open spec fn first_some<T>(first: Option<T>, second: Option<T>) -> Option<T> {
    if first is Some {
        first
    } else {
        second
    }
}

/// The first of two optional integers that is there.
pub fn or_i64(first: Option<i64>, second: Option<i64>) -> (chosen: Option<i64>)
    ensures
        chosen == first_some(first, second),
{
    match first {
        Some(_) => first,
        None => second,
    }
}

/// The sum modulo 2 to the 64th, within 64 bits.
pub open spec fn wrapping_sum(left: i64, right: i64) -> i64 {
    if left + right > i64::MAX {
        (left + right - 0x1_0000_0000_0000_0000) as i64
    } else if left + right < i64::MIN {
        (left + right + 0x1_0000_0000_0000_0000) as i64
    } else {
        (left + right) as i64
    }
}

/// The sum modulo 2 to the 64th, within 64 bits.
pub fn wrapping_add(left: i64, right: i64) -> (sum: i64)
    ensures
        sum == wrapping_sum(left, right),
{
    let sum: i128 = left as i128 + right as i128;
    if sum > i64::MAX as i128 {
        (sum - 0x1_0000_0000_0000_0000) as i64
    } else if sum < i64::MIN as i128 {
        (sum + 0x1_0000_0000_0000_0000) as i64
    } else {
        sum as i64
    }
}

/// The difference, kept within 64 bits at both ends.
pub open spec fn saturating_difference(left: i64, right: i64) -> i64 {
    if left - right > i64::MAX {
        i64::MAX
    } else if left - right < i64::MIN {
        i64::MIN
    } else {
        (left - right) as i64
    }
}

/// The difference, kept within 64 bits at both ends.
pub fn saturating_sub(left: i64, right: i64) -> (difference: i64)
    ensures
        difference == saturating_difference(left, right),
{
    let difference: i128 = left as i128 - right as i128;
    if difference > i64::MAX as i128 {
        i64::MAX
    } else if difference < i64::MIN as i128 {
        i64::MIN
    } else {
        difference as i64
    }
}

/// A number divided by a positive one, rounded towards zero.
pub open spec fn truncated_quotient(number: int, divisor: int) -> int {
    if number >= 0 {
        number / divisor
    } else {
        -((-number) / divisor)
    }
}

/// Seconds in minutes, a started minute counting as a whole one.
pub open spec fn minutes_of(seconds: i64) -> i64 {
    truncated_quotient(wrapping_sum(seconds, 59) as int, 60) as i64
}

/// Seconds in minutes, a started minute counting as a whole one.
pub fn minutes_from_seconds(seconds: i64) -> (minutes: i64)
    ensures
        minutes == minutes_of(seconds),
{
    let sum: i128 = wrapping_add(seconds, 59) as i128;
    if sum >= 0 {
        (sum / 60) as i64
    } else {
        (-((-sum) / 60)) as i64
    }
}

/// The greater of two numbers.
pub open spec fn greater(left: int, right: int) -> int {
    if left >= right {
        left
    } else {
        right
    }
}

/// The greater of two integers.
pub fn max_i64(left: i64, right: i64) -> (max: i64)
    ensures
        max == greater(left as int, right as int),
{
    if left >= right {
        left
    } else {
        right
    }
}

/// The later of two optional times.
pub open spec fn later_of(first: Option<i64>, second: Option<i64>) -> Option<i64> {
    match (first, second) {
        (Some(first), Some(second)) => Some(greater(first as int, second as int) as i64),
        (Some(first), None) => Some(first),
        (None, _) => second,
    }
}

/// The later of two optional times.
pub fn max_time(first: Option<i64>, second: Option<i64>) -> (later: Option<i64>)
    ensures
        later == later_of(first, second),
{
    match first {
        Some(left) => match second {
            Some(right) => Some(max_i64(left, right)),
            None => Some(left),
        },
        None => second,
    }
}

/// A percentage within 0 to 100.
pub open spec fn within_percent(value: i32) -> i32 {
    if value < 0 {
        0
    } else if value > 100 {
        100
    } else {
        value
    }
}

/// A percentage within 0 to 100.
pub fn clamp_percent(value: i32) -> (percent: i32)
    ensures
        percent == within_percent(value),
{
    if value < 0 {
        0
    } else if value > 100 {
        100
    } else {
        value
    }
}

/// How long before `reset_at` a moment lies, in seconds, and zero from then on.
pub open spec fn seconds_until(reset_at: i64, moment: i64) -> i64 {
    greater(saturating_difference(reset_at, moment) as int, 0) as i64
}

/// How long before `reset_at` a moment lies, in seconds, and zero from then on.
pub fn time_left(reset_at: i64, moment: i64) -> (seconds: i64)
    ensures
        seconds == seconds_until(reset_at, moment),
{
    max_i64(saturating_sub(reset_at, moment), 0)
}

} // verus!
