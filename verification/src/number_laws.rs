//! What holds of the arithmetic on seconds, minutes and percentages.
use vstd::prelude::*;

use crate::numbers::{
    first_some, greater, later_of, minutes_of, not_negative, saturating_difference, saturating_sum,
    seconds_until, within_percent, wrapping_sum,
};

verus! {

/// A delay is kept unless it is negative.
pub proof fn only_negative_delays_are_dropped(seconds: i64)
    ensures
        seconds >= 0 ==> not_negative(Some(seconds)) == Some(seconds),
        seconds < 0 ==> not_negative(Some(seconds)) == None::<i64>,
        not_negative(None) == None::<i64>,
{
}

/// A time and a delay are added up; what is too late to be told is the last time that can be.
pub proof fn delays_are_added(time: i64, seconds: i64)
    requires
        seconds >= 0,
    ensures
        time + seconds <= i64::MAX ==> saturating_sum(time, seconds) == time + seconds,
        time + seconds > i64::MAX ==> saturating_sum(time, seconds) == i64::MAX,
        saturating_sum(time, seconds) >= time,
        time + seconds <= i64::MAX ==> wrapping_sum(time, seconds) == time + seconds,
{
}

/// Sums and differences that 64 bits hold are exact.
pub proof fn small_sums_are_exact(left: i64, right: i64)
    ensures
        i64::MIN <= left + right <= i64::MAX ==> saturating_sum(left, right) == left + right
            && wrapping_sum(left, right) == left + right,
        i64::MIN <= left - right <= i64::MAX ==> saturating_difference(left, right) == left - right,
        left - right > i64::MAX ==> saturating_difference(left, right) == i64::MAX,
        left - right < i64::MIN ==> saturating_difference(left, right) == i64::MIN,
        left + right > i64::MAX ==> saturating_sum(left, right) == i64::MAX,
        left + right < i64::MIN ==> saturating_sum(left, right) == i64::MIN,
{
}

/// A sum that 64 bits do not hold comes round by two to the 64th.
pub proof fn large_sums_come_round(left: i64, right: i64)
    ensures
        left + right > i64::MAX ==> wrapping_sum(left, right) == left + right
            - 0x1_0000_0000_0000_0000,
        left + right < i64::MIN ==> wrapping_sum(left, right) == left + right
            + 0x1_0000_0000_0000_0000,
{
}

/// A started minute counts as a whole one, and no minute counts that was not started.
pub proof fn started_minutes_count(seconds: i64)
    requires
        0 <= seconds <= i64::MAX - 59,
    ensures
        seconds <= 60 * minutes_of(seconds) < seconds + 60,
{
}

/// Where so many seconds are told that the next whole minute cannot be counted, the count comes round.
pub proof fn uncountable_minutes_come_round(seconds: i64)
    requires
        seconds > i64::MAX - 59,
    ensures
        ({
            let sum = seconds + 59 - 0x1_0000_0000_0000_0000;
            sum <= 60 * minutes_of(seconds) < sum + 60
        }),
{
}

/// The later of two times is one of them, and none of them is later.
pub proof fn the_later_time_stands(first: Option<i64>, second: Option<i64>)
    ensures
        first is None && second is None <==> later_of(first, second) is None,
        later_of(first, second) is Some ==> later_of(first, second) == first || later_of(
            first,
            second,
        ) == second,
        first matches Some(time) ==> later_of(first, second)->0 >= time,
        second matches Some(time) ==> later_of(first, second)->0 >= time,
{
}

/// The greater of two numbers is one of them, and none of them is greater.
pub proof fn the_greater_number_stands(left: int, right: int)
    ensures
        greater(left, right) == left || greater(left, right) == right,
        greater(left, right) >= left,
        greater(left, right) >= right,
{
}

/// Of two optional values the first counts, and the second only where the first is missing.
pub proof fn the_first_value_counts<T>(value: T, other: Option<T>)
    ensures
        first_some(Some(value), other) == Some(value),
        first_some(None, other) == other,
{
}

/// A percentage stays as it is within 0 to 100, and is moved to the nearer end else.
pub proof fn percentages_are_kept_within_bounds(value: i32)
    ensures
        0 <= value <= 100 ==> within_percent(value) == value,
        value < 0 ==> within_percent(value) == 0,
        value > 100 ==> within_percent(value) == 100,
{
}

/// The time until a reset and the moment it is counted from add up to the reset, and nothing is
/// left to wait once it has passed.
pub proof fn time_until_a_reset(reset_at: i64, moment: i64)
    ensures
        moment <= reset_at && reset_at - moment <= i64::MAX ==> moment + seconds_until(
            reset_at,
            moment,
        ) == reset_at,
        reset_at <= moment ==> seconds_until(reset_at, moment) == 0,
        reset_at - moment > i64::MAX ==> seconds_until(reset_at, moment) == i64::MAX,
        seconds_until(reset_at, moment) >= 0,
{
}

} // verus!
