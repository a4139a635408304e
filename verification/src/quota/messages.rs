//! Error messages of the quota endpoint: what is read out of a response, how it is written into
//! a message, and how it is found there again.
use vstd::prelude::*;

use crate::json::{
    first_i64, first_i64_field, json_get, json_get_in, json_of_text, json_text_in, opt_json_ref,
    parse_json, text_field, texts_of, Json, JsonValue,
};
use crate::numbers::{keep_not_negative, not_negative, saturating_add, saturating_sum};
use crate::text::{
    after_first, as_text, before_first, contains, decimal, decimal_of, has_text, i64_of, is_space,
    is_white_space, joined, lower_of, opt_str, opt_text, parse_i64, split_once, to_ascii_lowercase,
    trim, trim_of,
};

verus! {

/// A unix timestamp in seconds; a value too large for that is taken as milliseconds.
pub open spec fn unix_seconds(value: i64) -> i64 {
    if value > 1_000_000_000_000 {
        (value / 1000) as i64
    } else {
        value
    }
}

/// A unix timestamp in seconds; a value too large for that is taken as milliseconds.
pub fn normalize_unix_timestamp_seconds(value: i64) -> (seconds: i64)
    ensures
        seconds == unix_seconds(value),
{
    if value > 1_000_000_000_000 {
        value / 1000
    } else {
        value
    }
}

/// An optional timestamp in seconds.
pub open spec fn opt_unix_seconds(value: Option<i64>) -> Option<i64> {
    match value {
        Some(value) => Some(unix_seconds(value)),
        None => None,
    }
}

/// An optional timestamp in seconds.
pub fn normalize_optional_timestamp(value: Option<i64>) -> (seconds: Option<i64>)
    ensures
        seconds == opt_unix_seconds(value),
{
    match value {
        Some(value) => Some(normalize_unix_timestamp_seconds(value)),
        None => None,
    }
}

/// The error code in a response: of its detail, else of its error, else its own.
pub open spec fn detail_code(root: Json) -> Option<Seq<char>> {
    let in_detail = json_text_in(json_get_in(json_get(root, "detail"@), "code"@));
    let in_error = json_text_in(json_get_in(json_get(root, "error"@), "code"@));
    if in_detail is Some {
        in_detail
    } else if in_error is Some {
        in_error
    } else {
        json_text_in(json_get(root, "code"@))
    }
}

/// The error code in the body of a response, if the body is JSON.
pub open spec fn detail_code_of_body(body: Seq<char>) -> Option<Seq<char>> {
    match json_of_text(body) {
        Ok(root) => detail_code(root),
        Err(_) => None,
    }
}

/// The field `inner` of the field `outer`, as a text.
fn nested_text<'a>(root: &'a JsonValue, outer: &str, inner: &str) -> (text: Option<&'a str>)
    ensures
        opt_str(text) == json_text_in(json_get_in(json_get(root@, outer@), inner@)),
{
    match root.get(outer) {
        Some(object) => text_field(object, inner),
        None => None,
    }
}

/// The error code in a response.
pub fn extract_detail_code(root: &JsonValue) -> (code: Option<String>)
    ensures
        opt_text(code) == detail_code(root@),
{
    if let Some(code) = nested_text(root, "detail", "code") {
        return Some(code.to_owned());
    }
    if let Some(code) = nested_text(root, "error", "code") {
        return Some(code.to_owned());
    }
    match text_field(root, "code") {
        Some(code) => Some(code.to_owned()),
        None => None,
    }
}

/// The error code in the body of a response.
pub fn extract_detail_code_from_body(body: &str) -> (code: Option<String>)
    ensures
        opt_text(code) == detail_code_of_body(body@),
{
    match parse_json(body) {
        Ok(root) => extract_detail_code(&root),
        Err(_) => None,
    }
}

/// A character that ends a bare error code.
pub open spec fn ends_code(c: char) -> bool {
    c == ',' || c == ']' || is_space(c)
}

/// How many characters stand before the first one that ends a bare error code.
pub open spec fn code_length(tail: Seq<char>) -> nat
    decreases tail.len(),
{
    if tail.len() == 0 || ends_code(tail[0]) {
        0
    } else {
        1 + code_length(tail.skip(1))
    }
}

/// The text between the first `marker` and the next closing bracket.
pub open spec fn bracketed(message: Seq<char>, marker: Seq<char>) -> Option<Seq<char>> {
    match after_first(message, marker) {
        Some(tail) => before_first(tail, "]"@),
        None => None,
    }
}

/// The error code in a message: in brackets behind `[error_code:`, or else bare behind
/// `error_code=`, where it must not be empty.
pub open spec fn error_code_in(message: Seq<char>) -> Option<Seq<char>> {
    if has_text(message, "[error_code:"@) {
        bracketed(message, "[error_code:"@)
    } else {
        match after_first(message, "error_code="@) {
            Some(tail) => {
                let code = trim_of(tail.take(code_length(tail) as int));
                if code.len() == 0 {
                    None
                } else {
                    Some(code)
                }
            },
            None => None,
        }
    }
}

/// The characters that end a bare error code.
fn is_code_end(c: char) -> (ends: bool)
    ensures
        ends == ends_code(c),
{
    c == ',' || c == ']' || is_white_space(c)
}

/// The part of `tail` before the first character that ends a bare error code.
fn leading_code(tail: &str) -> (code: &str)
    ensures
        code@ == tail@.take(code_length(tail@) as int),
{
    let mut length: usize = 0;
    let total = tail.unicode_len();
    let mut stopped = false;
    assert(tail@.skip(0) =~= tail@);
    for c in iter: tail.chars()
        invariant
            total == tail@.len(),
            iter.seq() == tail@,
            length <= iter.index(),
            !stopped ==> length == iter.index(),
            length <= total,
            stopped ==> code_length(tail@) == length,
            !stopped ==> code_length(tail@) == length + code_length(tail@.skip(length as int)),
    {
        if !stopped {
            assert(tail@.skip(length as int)[0] == c);
            if is_code_end(c) {
                stopped = true;
            } else {
                assert(tail@.skip(length as int).skip(1) =~= tail@.skip(length + 1));
                length = length + 1;
            }
        }
    }
    tail.substring_char(0, length)
}

/// The text between the first `marker` and the next closing bracket.
fn extract_bracketed<'a>(message: &'a str, marker: &str) -> (text: Option<&'a str>)
    ensures
        opt_str(text) == bracketed(message@, marker@),
{
    match split_once(message, marker) {
        Some((_, tail)) => match split_once(tail, "]") {
            Some((text, _)) => Some(text),
            None => None,
        },
        None => None,
    }
}

/// The error code in a message.
pub fn extract_error_code_from_message(message: &str) -> (code: Option<String>)
    ensures
        opt_text(code) == error_code_in(message@),
{
    if contains(message, "[error_code:") {
        return match extract_bracketed(message, "[error_code:") {
            Some(code) => Some(code.to_owned()),
            None => None,
        };
    }
    match split_once(message, "error_code=") {
        Some((_, tail)) => {
            let code = trim(leading_code(tail));
            if code.is_empty() {
                None
            } else {
                Some(code.to_owned())
            }
        },
        None => None,
    }
}

/// The integer between the first `marker` and the next closing bracket.
pub open spec fn marked_i64(message: Seq<char>, marker: Seq<char>) -> Option<i64> {
    match bracketed(message, marker) {
        Some(digits) => i64_of(digits),
        None => None,
    }
}

/// The integer between the first `marker` and the next closing bracket.
pub fn extract_i64_marker_from_message(message: &str, marker: &str) -> (value: Option<i64>)
    ensures
        value == marked_i64(message@, marker@),
{
    match extract_bracketed(message, marker) {
        Some(digits) => parse_i64(digits),
        None => None,
    }
}

/// The message says that a quota is used up.
pub open spec fn says_exhausted(message: Seq<char>) -> bool {
    let lower = lower_of(message);
    ||| has_text(lower, "usage_limit_reached"@)
    ||| has_text(lower, "insufficient_quota"@)
    ||| has_text(lower, "usage_limit"@)
    ||| has_text(lower, "usage limit"@)
    ||| has_text(lower, "limit_reached"@)
    ||| has_text(lower, "limit reached"@)
    ||| has_text(lower, "quota"@) && (has_text(lower, "exceed"@) || has_text(lower, "limit"@)
        || has_text(lower, "exhaust"@))
}

/// Whether a message says that a quota is used up.
pub fn is_quota_exhaustion_error(message: &str) -> (exhausted: bool)
    ensures
        exhausted == says_exhausted(message@),
{
    let lower = to_ascii_lowercase(message);
    let lower = lower.as_str();
    contains(lower, "usage_limit_reached") || contains(lower, "insufficient_quota") || contains(
        lower,
        "usage_limit",
    ) || contains(lower, "usage limit") || contains(lower, "limit_reached") || contains(
        lower,
        "limit reached",
    ) || (contains(lower, "quota") && (contains(lower, "exceed") || contains(lower, "limit")
        || contains(lower, "exhaust")))
}

/// The fields of an error response that say when a quota resets.
pub open spec fn hint_reset_at_keys() -> Seq<Seq<char>> {
    seq!["reset_at"@, "resets_at"@]
}

/// The fields of an error response that say in how many seconds a quota resets.
pub open spec fn hint_reset_after_keys() -> Seq<Seq<char>> {
    seq![
        "reset_after_seconds"@,
        "resets_in_seconds"@,
        "resetAfterSeconds"@,
        "resetsInSeconds"@,
        "retry_after_seconds"@,
        "retry_after"@,
    ]
}

/// The hint in one object: when the quota resets, and in how many seconds, where it says so.
pub open spec fn hint_in_object(object: Json, now: i64) -> Option<(Option<i64>, Option<i64>)> {
    let reset_at = opt_unix_seconds(first_i64(object, hint_reset_at_keys()));
    let reset_after = not_negative(first_i64(object, hint_reset_after_keys()));
    match (reset_at, reset_after) {
        (None, None) => None,
        (Some(reset_at), _) => Some((Some(reset_at), reset_after)),
        (None, Some(seconds)) => Some((Some(saturating_sum(now, seconds)), reset_after)),
    }
}

/// The hint in one of the objects, the first that has one.
pub open spec fn hint_in_objects(objects: Seq<Option<Json>>, now: i64) -> Option<
    (Option<i64>, Option<i64>),
>
    decreases objects.len(),
{
    if objects.len() == 0 {
        None
    } else {
        let here = match objects[0] {
            Some(object) => hint_in_object(object, now),
            None => None,
        };
        if here is Some {
            here
        } else {
            hint_in_objects(objects.skip(1), now)
        }
    }
}

/// The reset hint in a response: in itself, or in its error, its detail or its data.
pub open spec fn reset_hint(root: Json, now: i64) -> Option<(Option<i64>, Option<i64>)> {
    hint_in_objects(
        seq![
            Some(root),
            json_get(root, "error"@),
            json_get(root, "detail"@),
            json_get(root, "data"@),
        ],
        now,
    )
}

/// The reset hint in the body of a response, if the body is JSON.
pub open spec fn reset_hint_of_body(body: Seq<char>, now: i64) -> Option<
    (Option<i64>, Option<i64>),
> {
    match json_of_text(body) {
        Ok(root) => reset_hint(root, now),
        Err(_) => None,
    }
}

/// The hint in one object.
fn extract_hint(object: &JsonValue, now: i64) -> (hint: Option<(Option<i64>, Option<i64>)>)
    ensures
        hint == hint_in_object(object@, now),
{
    let at_keys = ["reset_at", "resets_at"];
    let after_keys = [
        "reset_after_seconds",
        "resets_in_seconds",
        "resetAfterSeconds",
        "resetsInSeconds",
        "retry_after_seconds",
        "retry_after",
    ];
    proof {
        assert(texts_of(at_keys@) =~= hint_reset_at_keys());
        assert(texts_of(after_keys@) =~= hint_reset_after_keys());
    }
    let reset_at = normalize_optional_timestamp(first_i64_field(object, &at_keys));
    let reset_after = keep_not_negative(first_i64_field(object, &after_keys));
    match reset_at {
        Some(_) => Some((reset_at, reset_after)),
        None => match reset_after {
            Some(seconds) => Some((Some(saturating_add(now, seconds)), reset_after)),
            None => None,
        },
    }
}

/// The reset hint in a response.
pub fn extract_quota_reset_hint(root: &JsonValue, now: i64) -> (hint: Option<
    (Option<i64>, Option<i64>),
>)
    ensures
        hint == reset_hint(root@, now),
{
    let candidates = [Some(root), root.get("error"), root.get("detail"), root.get("data")];
    let ghost objects = seq![
        Some(root@),
        json_get(root@, "error"@),
        json_get(root@, "detail"@),
        json_get(root@, "data"@),
    ];
    assert(objects.skip(0) =~= objects);
    let mut at: usize = 0;
    while at < 4
        invariant
            at <= 4,
            objects.len() == 4,
            candidates@.len() == 4,
            forall|i: int|
                0 <= i < 4 ==> #[trigger] objects[i] == opt_json_ref(candidates@[i]),
            reset_hint(root@, now) == hint_in_objects(objects.skip(at as int), now),
        decreases 4 - at,
    {
        assert(objects.skip(at as int)[0] == objects[at as int]);
        assert(objects.skip(at as int).skip(1) =~= objects.skip(at + 1));
        if let Some(object) = candidates[at] {
            let hint = extract_hint(object, now);
            if hint.is_some() {
                return hint;
            }
        }
        at = at + 1;
    }
    None
}

/// When a quota resets, and in how many seconds, as the body of an error response says it.
pub fn extract_quota_reset_hint_from_body(body: &str, now: i64) -> (hint: Option<
    (Option<i64>, Option<i64>),
>)
    ensures
        hint == reset_hint_of_body(body@, now),
{
    match parse_json(body) {
        Ok(root) => extract_quota_reset_hint(&root, now),
        Err(_) => None,
    }
}

/// A bracketed integer as it stands in an error message, or nothing.
pub open spec fn tagged_i64(marker: Seq<char>, value: Option<i64>) -> Seq<char> {
    match value {
        Some(value) => " "@ + marker + decimal_of(value as int) + "]"@,
        None => Seq::empty(),
    }
}

/// A bracketed text as it stands in an error message, or nothing.
pub open spec fn tagged_text(marker: Seq<char>, value: Option<Seq<char>>) -> Seq<char> {
    match value {
        Some(value) => " "@ + marker + value + "]"@,
        None => Seq::empty(),
    }
}

/// The message for a response that is no success.
pub open spec fn api_error_text(
    status: Seq<char>,
    code: Option<Seq<char>>,
    reset_at: Option<i64>,
    reset_after_seconds: Option<i64>,
    body_length: int,
) -> Seq<char> {
    "API 返回错误 "@ + status + tagged_text("[error_code:"@, code) + tagged_i64(
        "[reset_at:"@,
        reset_at,
    ) + tagged_i64("[reset_after_seconds:"@, reset_after_seconds) + " [body_len:"@ + decimal_of(
        body_length,
    ) + "]"@
}

/// Appends a bracketed text to a message.
fn append_tag(message: &mut String, marker: &str, value: &str)
    ensures
        final(message)@ == old(message)@ + tagged_text(marker@, Some(value@)),
{
    message.append(" ");
    message.append(marker);
    message.append(value);
    message.append("]");
    assert(message@ =~= old(message)@ + tagged_text(marker@, Some(value@)));
}

/// The message for a response that is no success, with what can be told of the reason.
pub fn api_error_message(
    status: &str,
    code: Option<&str>,
    reset_at: Option<i64>,
    reset_after_seconds: Option<i64>,
    body_length: usize,
) -> (message: String)
    ensures
        message@ == api_error_text(
            status@,
            opt_str(code),
            reset_at,
            reset_after_seconds,
            body_length as int,
        ),
{
    let mut message = joined("API 返回错误 ", status);
    let ghost start = message@;
    if let Some(code) = code {
        append_tag(&mut message, "[error_code:", code);
    }
    assert(message@ =~= start + tagged_text("[error_code:"@, opt_str(code)));
    let ghost coded = message@;
    if let Some(value) = reset_at {
        append_tag(&mut message, "[reset_at:", decimal(value as i128).as_str());
    }
    assert(message@ =~= coded + tagged_i64("[reset_at:"@, reset_at));
    let ghost dated = message@;
    if let Some(value) = reset_after_seconds {
        append_tag(&mut message, "[reset_after_seconds:", decimal(value as i128).as_str());
    }
    assert(message@ =~= dated + tagged_i64("[reset_after_seconds:"@, reset_after_seconds));
    message.append(" [body_len:");
    message.append(decimal(body_length as i128).as_str());
    message.append("]");
    message
}

/// The message for a response that is no success, from its status and body.
pub open spec fn response_error_text(status: Seq<char>, body: &str, now: i64) -> Seq<char> {
    let hint = reset_hint_of_body(body@, now);
    let reset_at = match hint {
        Some(hint) => hint.0,
        None => None,
    };
    let reset_after = match hint {
        Some(hint) => hint.1,
        None => None,
    };
    api_error_text(status, detail_code_of_body(body@), reset_at, reset_after, body.len() as int)
}

/// The message for a response that is no success, from its status and body.
pub fn quota_response_error(status: &str, body: &str, now: i64) -> (message: String)
    ensures
        message@ == response_error_text(status@, body, now),
{
    let code = extract_detail_code_from_body(body);
    let (reset_at, reset_after) = match extract_quota_reset_hint_from_body(body, now) {
        Some(hint) => hint,
        None => (None, None),
    };
    api_error_message(status, as_text(&code), reset_at, reset_after, body.len())
}

} // verus!
