//! The wall clock, and dates in text.
use vstd::prelude::*;

verus! {

/// The second in which the moment of an RFC 3339 date lies, counted from 1970 in UTC.
pub uninterp spec fn rfc3339_seconds(text: Seq<char>) -> Option<i64>;

/// `chrono::Utc::now` with its `timestamp`: the seconds since 1970 that the machine's clock
/// shows. Nothing is promised of the reading.
#[verifier::external_body]
pub(crate) fn now_seconds() -> (now: i64) {
    chrono::Utc::now().timestamp()
}

/// `chrono::DateTime::parse_from_rfc3339` with the `timestamp` of the result: the second since
/// 1970 of the moment that the text names, or nothing where it is no such date.
#[verifier::external_body]
pub(crate) fn parse_rfc3339_seconds(text: &str) -> (seconds: Option<i64>)
    ensures
        seconds == rfc3339_seconds(text@),
{
    match chrono::DateTime::parse_from_rfc3339(text) {
        Ok(moment) => Some(moment.with_timezone(&chrono::Utc).timestamp()),
        Err(_) => None,
    }
}

} // verus!
