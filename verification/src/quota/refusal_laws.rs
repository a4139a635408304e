//! What holds of refused lookups: what is read from the response, and what is recorded of it.
use vstd::prelude::*;

use crate::json::{first_i64, json_get, json_of_opt_i64, json_of_text, number_of, Json};
use crate::json_laws::{
    first_readable_field_counts, no_readable_field_counts, ordered_field_is_found, reads_integer,
    reads_no_integer,
};
use crate::models::codex::{AccountModel, QuotaModel};
use crate::quota::laws::exhausted_origin_is_in_key_order;
use crate::quota::message_laws::{reset_delay_is_found_again, reset_time_is_found_again};
use crate::quota::messages::{
    api_error_text, code_length, detail_code, detail_code_of_body, ends_code, error_code_in,
    hint_in_object, marked_i64, reset_hint, reset_hint_of_body, response_error_text, says_exhausted,
    unix_seconds,
};
use crate::quota::snapshot::{
    exhausted_snapshot, snapshot_of_message, with_fetch_error, with_quota_error,
};
use crate::text::{
    decimal_of, has_text, is_first_at, is_space, lemma_first_is_unique, lower_of, occurs_at, trim_of,
};

verus! {

/// The names under which an error response says when a quota resets, the first that counts first.
pub open spec fn told_time_names() -> Seq<Seq<char>> {
    seq!["reset_at"@, "resets_at"@]
}

/// The names under which an error response says in how many seconds a quota resets.
pub open spec fn told_delay_names() -> Seq<Seq<char>> {
    seq![
        "reset_after_seconds"@,
        "resets_in_seconds"@,
        "resetAfterSeconds"@,
        "resetsInSeconds"@,
        "retry_after_seconds"@,
        "retry_after"@,
    ]
}

/// No reset is told: no time, and no delay but a negative one.
pub open spec fn tells_no_reset(object: Json) -> bool {
    &&& first_i64(object, told_time_names()) is None
    &&& !(first_i64(object, told_delay_names()) matches Some(seconds) && seconds >= 0)
}

/// An object that names a time tells that reset, together with the delay that it names if that is not
/// negative.
pub proof fn named_time_is_the_reset(object: Json, now: i64, at: int, time: i64)
    requires
        0 <= at < 2,
        reads_integer(object, told_time_names()[at], time),
        forall|i: int| 0 <= i < at ==> reads_no_integer(object, #[trigger] told_time_names()[i]),
    ensures
        hint_in_object(object, now) is Some,
        hint_in_object(object, now)->Some_0.0 == Some(unix_seconds(time)),
        first_i64(object, told_delay_names()) matches Some(seconds) && seconds >= 0
            ==> hint_in_object(object, now)->Some_0.1 == first_i64(object, told_delay_names()),
        first_i64(object, told_delay_names()) matches Some(seconds) && seconds < 0
            ==> hint_in_object(object, now)->Some_0.1 is None,
        first_i64(object, told_delay_names()) is None ==> hint_in_object(object, now)->Some_0.1 is None,
{
    first_readable_field_counts(object, told_time_names(), at, time);
}

/// An object that names a delay that is not negative, and no time, tells the reset at the end of that
/// delay, counted from the response; under whichever of the names it stands.
pub proof fn named_delay_is_the_reset(object: Json, now: i64, at: int, seconds: i64)
    requires
        0 <= at < 6,
        seconds >= 0,
        reads_integer(object, told_delay_names()[at], seconds),
        forall|i: int| 0 <= i < at ==> reads_no_integer(object, #[trigger] told_delay_names()[i]),
        forall|i: int| 0 <= i < 2 ==> reads_no_integer(object, #[trigger] told_time_names()[i]),
    ensures
        hint_in_object(object, now) matches Some((reset_at, delay)) && delay == Some(seconds) && (
        now + seconds <= i64::MAX ==> reset_at is Some && reset_at->0 == now + seconds) && (now
            + seconds > i64::MAX ==> reset_at == Some(i64::MAX)),
{
    first_readable_field_counts(object, told_delay_names(), at, seconds);
    no_readable_field_counts(object, told_time_names());
}

/// An object that tells no reset gives none.
pub proof fn untold_reset_is_none(object: Json, now: i64)
    ensures
        tells_no_reset(object) == (hint_in_object(object, now) is None),
{
}

/// The reset that a response tells is its own; or else that of its error; or else that of its detail;
/// or else that of its data; or else none.
pub proof fn reset_is_looked_for_in_the_response(root: Json, now: i64)
    ensures
        !tells_no_reset(root) ==> reset_hint(root, now) == hint_in_object(root, now),
        tells_no_reset(root) ==> (match json_get(root, "error"@) {
            Some(error) => !tells_no_reset(error) ==> reset_hint(root, now) == hint_in_object(
                error,
                now,
            ),
            None => true,
        }),
        tells_no_reset(root) && !(json_get(root, "error"@) matches Some(error) && !tells_no_reset(
            error,
        )) ==> (match json_get(root, "detail"@) {
            Some(detail) => !tells_no_reset(detail) ==> reset_hint(root, now) == hint_in_object(
                detail,
                now,
            ),
            None => true,
        }),
        tells_no_reset(root) && !(json_get(root, "error"@) matches Some(error) && !tells_no_reset(
            error,
        )) && !(json_get(root, "detail"@) matches Some(detail) && !tells_no_reset(detail)) ==> (
        match json_get(root, "data"@) {
            Some(data) => if tells_no_reset(data) {
                reset_hint(root, now) is None
            } else {
                reset_hint(root, now) == hint_in_object(data, now)
            },
            None => reset_hint(root, now) is None,
        }),
{
    reveal_with_fuel(crate::quota::messages::hint_in_objects, 5);
    let objects = seq![
        Some(root),
        json_get(root, "error"@),
        json_get(root, "detail"@),
        json_get(root, "data"@),
    ];
    let second = objects.skip(1);
    let third = second.skip(1);
    let fourth = third.skip(1);
    assert(second[0] == json_get(root, "error"@));
    assert(third[0] == json_get(root, "detail"@));
    assert(fourth[0] == json_get(root, "data"@));
    assert(fourth.skip(1).len() == 0);
}

/// A response whose error names a delay that is not negative, where neither it nor the response itself
/// names a time and the response names no delay of its own, tells the reset at the end of that delay.
pub proof fn delay_in_the_error_is_the_reset(root: Json, error: Json, now: i64, seconds: i64)
    requires
        tells_no_reset(root),
        json_get(root, "error"@) == Some(error),
        first_i64(error, told_time_names()) is None,
        first_i64(error, told_delay_names()) == Some(seconds),
        seconds >= 0,
        now + seconds <= i64::MAX,
    ensures
        reset_hint(root, now) == Some((Some((now + seconds) as i64), Some(seconds))),
{
    reset_is_looked_for_in_the_response(root, now);
}

/// A body that is JSON tells what its tree does; any other body tells nothing.
pub proof fn only_json_bodies_tell(body: Seq<char>, now: i64)
    ensures
        json_of_text(body) matches Ok(root) ==> reset_hint_of_body(body, now) == reset_hint(root, now)
            && detail_code_of_body(body) == detail_code(root),
        json_of_text(body) is Err ==> reset_hint_of_body(body, now) is None && detail_code_of_body(
            body,
        ) is None,
{
}

/// The code in an object, where it is a text.
pub open spec fn code_in(object: Option<Json>) -> Option<Seq<char>> {
    match object {
        Some(object) => match json_get(object, "code"@) {
            Some(Json::Text(code)) => Some(code),
            _ => None,
        },
        None => None,
    }
}

/// The error code of a response is that of its detail; or else that of its error; or else its own.
pub proof fn error_code_is_looked_for_in_the_response(root: Json)
    ensures
        code_in(json_get(root, "detail"@)) is Some ==> detail_code(root) == code_in(
            json_get(root, "detail"@),
        ),
        code_in(json_get(root, "detail"@)) is None && code_in(json_get(root, "error"@)) is Some
            ==> detail_code(root) == code_in(json_get(root, "error"@)),
        code_in(json_get(root, "detail"@)) is None && code_in(json_get(root, "error"@)) is None
            ==> detail_code(root) == code_in(Some(root)),
{
}

/// Words that alone mean that a quota is used up.
pub open spec fn exhaustion_words() -> Seq<Seq<char>> {
    seq![
        "usage_limit"@,
        "usage limit"@,
        "limit_reached"@,
        "limit reached"@,
        "insufficient_quota"@,
        "usage_limit_reached"@,
    ]
}

/// Words that mean, where a quota is spoken of, that it is used up.
pub open spec fn exceeding_words() -> Seq<Seq<char>> {
    seq!["exceed"@, "exhaust"@, "limit"@]
}

/// One of the words stands in the text, in whatever case.
pub open spec fn speaks_of(text: Seq<char>, words: Seq<Seq<char>>) -> bool {
    exists|i: int| 0 <= i < words.len() && has_text(lower_of(text), #[trigger] words[i])
}

/// A message says that a quota is used up by one of the words that alone mean it, or by speaking of a
/// quota together with one of the others, in whatever case; by nothing else.
pub proof fn exhaustion_is_told_by_words(message: Seq<char>)
    ensures
        says_exhausted(message) == (speaks_of(message, exhaustion_words()) || has_text(
            lower_of(message),
            "quota"@,
        ) && speaks_of(message, exceeding_words())),
{
    let words = exhaustion_words();
    let others = exceeding_words();
    let lower = lower_of(message);
    assert(words[0] == "usage_limit"@);
    assert(words[1] == "usage limit"@);
    assert(words[2] == "limit_reached"@);
    assert(words[3] == "limit reached"@);
    assert(words[4] == "insufficient_quota"@);
    assert(words[5] == "usage_limit_reached"@);
    assert(others[0] == "exceed"@);
    assert(others[1] == "exhaust"@);
    assert(others[2] == "limit"@);
    if speaks_of(message, words) {
        let i = choose|i: int| 0 <= i < words.len() && has_text(lower, #[trigger] words[i]);
        assert(has_text(lower, words[i]));
    }
    if speaks_of(message, others) {
        let i = choose|i: int| 0 <= i < others.len() && has_text(lower, #[trigger] others[i]);
        assert(has_text(lower, others[i]));
    }
}

/// What a part of a text holds, in whatever case, the text holds.
proof fn lemma_part_is_held(
    before: Seq<char>,
    part: Seq<char>,
    after: Seq<char>,
    word: Seq<char>,
)
    requires
        has_text(lower_of(part), word),
    ensures
        has_text(lower_of(before + part + after), word),
{
    let at = choose|at: int| occurs_at(lower_of(part), word, at);
    let whole = lower_of(before + part + after);
    let place = before.len() + at;
    assert(whole.subrange(place, place + word.len()) =~= lower_of(part).subrange(
        at,
        at + word.len(),
    ));
    assert(occurs_at(whole, word, place));
}

/// A message says that a quota is used up if a part of it does.
pub proof fn exhaustion_is_told_by_a_part(before: Seq<char>, part: Seq<char>, after: Seq<char>)
    requires
        says_exhausted(part),
    ensures
        says_exhausted(before + part + after),
{
    let whole = before + part + after;
    exhaustion_is_told_by_words(part);
    exhaustion_is_told_by_words(whole);
    if speaks_of(part, exhaustion_words()) {
        let words = exhaustion_words();
        let i = choose|i: int|
            0 <= i < words.len() && has_text(lower_of(part), #[trigger] words[i]);
        lemma_part_is_held(before, part, after, words[i]);
    } else {
        let words = exceeding_words();
        let i = choose|i: int|
            0 <= i < words.len() && has_text(lower_of(part), #[trigger] words[i]);
        lemma_part_is_held(before, part, after, words[i]);
        lemma_part_is_held(before, part, after, "quota"@);
    }
}

/// The message of a refused lookup says that the quota is used up if the error code of the response
/// does.
pub proof fn exhausted_code_is_told(
    status: Seq<char>,
    code: Seq<char>,
    reset_at: Option<i64>,
    reset_after_seconds: Option<i64>,
    body_length: int,
)
    requires
        says_exhausted(code),
    ensures
        says_exhausted(
            api_error_text(status, Some(code), reset_at, reset_after_seconds, body_length),
        ),
{
    let message = api_error_text(status, Some(code), reset_at, reset_after_seconds, body_length);
    let before = "API 返回错误 "@ + status + " "@ + "[error_code:"@;
    assert(message.subrange(before.len() as int, (before.len() + code.len()) as int) =~= code);
    let after = message.skip((before.len() + code.len()) as int);
    assert(message =~= before + code + after);
    exhaustion_is_told_by_a_part(before, code, after);
}

/// A refused lookup whose response tells by its error code that the quota is used up, and when it
/// resets, leaves the account with nothing left of its quota until then, seen at the time of the
/// response, and with the message as its error.
pub proof fn refused_response_is_recorded(
    account: AccountModel,
    status: Seq<char>,
    body: &str,
    root: Json,
    code: Seq<char>,
    reset_at: i64,
    now: i64,
)
    requires
        json_of_text(body@) == Ok::<Json, Seq<char>>(root),
        detail_code(root) == Some(code),
        says_exhausted(code),
        reset_hint(root, now) matches Some(hint) && hint.0 == Some(reset_at),
        !has_text(status, "[reset_at:"@),
        !has_text(code, "[reset_at:"@),
    ensures
        ({
            let message = response_error_text(status, body, now);
            let after = with_fetch_error(account, message, now);
            &&& after.quota matches Some(quota)
            &&& quota.hourly_percentage == 0
            &&& quota.weekly_percentage == 0
            &&& quota.hourly_reset_time == Some(unix_seconds(reset_at))
            &&& quota.weekly_reset_time == Some(unix_seconds(reset_at))
            &&& after.usage_updated_at == Some(now)
            &&& after.quota_error matches Some(error)
            &&& error.message == message
            &&& error.timestamp == now
        }),
{
    let delay = reset_hint(root, now)->Some_0.1;
    let length = body.len() as int;
    exhausted_code_is_told(status, code, Some(reset_at), delay, length);
    reset_time_is_found_again(status, Some(code), Some(reset_at), delay, length);
}

/// The message of a refused lookup carries the reset and the delay that its response tells, and bears
/// no mark of them where it tells none.
pub proof fn message_carries_what_the_response_tells(status: Seq<char>, body: &str, now: i64)
    requires
        !has_text(status, "[reset_at:"@),
        !has_text(status, "[reset_after_seconds:"@),
        detail_code_of_body(body@) matches Some(code) ==> !has_text(code, "[reset_at:"@)
            && !has_text(code, "[reset_after_seconds:"@),
    ensures
        ({
            let message = response_error_text(status, body, now);
            match reset_hint_of_body(body@, now) {
                Some((reset_at, delay)) => marked_i64(message, "[reset_at:"@) == reset_at
                    && marked_i64(message, "[reset_after_seconds:"@) == delay,
                None => marked_i64(message, "[reset_at:"@) is None && marked_i64(
                    message,
                    "[reset_after_seconds:"@,
                ) is None,
            }
        }),
{
    let hint = reset_hint_of_body(body@, now);
    let code = detail_code_of_body(body@);
    let reset_at = match hint {
        Some(hint) => hint.0,
        None => None,
    };
    let delay = match hint {
        Some(hint) => hint.1,
        None => None,
    };
    reset_time_is_found_again(status, code, reset_at, delay, body.len() as int);
    reset_delay_is_found_again(status, code, reset_at, delay, body.len() as int);
}

/// A snapshot of a used-up quota leaves nothing in either window, resets both when it is told to, or
/// when they did before where it is not, and keeps their lengths and whether they are there; a window
/// of which that was not known is there.
pub proof fn snapshot_leaves_nothing(
    previous: Option<QuotaModel>,
    source: Seq<char>,
    reset_at: Option<i64>,
    reset_after_seconds: Option<i64>,
    now: i64,
)
    ensures
        ({
            let snapshot = exhausted_snapshot(previous, source, reset_at, reset_after_seconds, now);
            &&& snapshot.hourly_percentage == 0
            &&& snapshot.weekly_percentage == 0
            &&& reset_at is Some ==> snapshot.hourly_reset_time == reset_at
                && snapshot.weekly_reset_time == reset_at
            &&& previous is None ==> {
                &&& snapshot.hourly_reset_time == reset_at
                &&& snapshot.weekly_reset_time == reset_at
                &&& snapshot.hourly_window_minutes is None
                &&& snapshot.weekly_window_minutes is None
                &&& snapshot.hourly_window_present == Some(true)
                &&& snapshot.weekly_window_present == Some(true)
            }
            &&& previous matches Some(before) ==> {
                &&& reset_at is None ==> snapshot.hourly_reset_time == before.hourly_reset_time
                &&& reset_at is None ==> snapshot.weekly_reset_time == before.weekly_reset_time
                &&& snapshot.hourly_window_minutes == before.hourly_window_minutes
                &&& snapshot.weekly_window_minutes == before.weekly_window_minutes
                &&& (before.hourly_window_present is Some ==> snapshot.hourly_window_present
                    == before.hourly_window_present)
                &&& (before.hourly_window_present is None ==> snapshot.hourly_window_present == Some(
                    true,
                ))
                &&& (before.weekly_window_present is Some ==> snapshot.weekly_window_present
                    == before.weekly_window_present)
                &&& (before.weekly_window_present is None ==> snapshot.weekly_window_present == Some(
                    true,
                ))
            }
        }),
{
}

/// A snapshot records where it came from, when it was taken, and what reset it was told.
pub proof fn snapshot_records_its_origin(
    previous: Option<QuotaModel>,
    source: Seq<char>,
    reset_at: Option<i64>,
    reset_after_seconds: Option<i64>,
    now: i64,
)
    ensures
        exhausted_snapshot(previous, source, reset_at, reset_after_seconds, now).raw_data matches Some(
            raw,
        ) && ({
            &&& json_get(raw, "exhausted_at"@) == Some(Json::Number(number_of(now)))
            &&& json_get(raw, "quota_exhausted"@) == Some(Json::Bool(true))
            &&& json_get(raw, "reset_after_seconds"@) == Some(json_of_opt_i64(reset_after_seconds))
            &&& json_get(raw, "reset_at"@) == Some(json_of_opt_i64(reset_at))
            &&& json_get(raw, "source"@) == Some(Json::Text(source))
        }),
{
    exhausted_origin_is_in_key_order(source, reset_at, reset_after_seconds, now);
    let snapshot = exhausted_snapshot(previous, source, reset_at, reset_after_seconds, now);
    let fields = snapshot.raw_data->0->Object_0;
    ordered_field_is_found(fields, 0);
    ordered_field_is_found(fields, 1);
    ordered_field_is_found(fields, 2);
    ordered_field_is_found(fields, 3);
    ordered_field_is_found(fields, 4);
}

/// A snapshot taken for a message resets when the message is marked to, told in seconds, and records
/// the delay that it is marked with.
pub proof fn snapshot_follows_the_message(
    previous: Option<QuotaModel>,
    message: Seq<char>,
    now: i64,
)
    ensures
        ({
            let snapshot = snapshot_of_message(previous, message, now);
            let time = marked_i64(message, "[reset_at:"@);
            let told = match time {
                Some(time) => Some(unix_seconds(time)),
                None => None,
            };
            &&& time is Some ==> snapshot.hourly_reset_time == told && snapshot.weekly_reset_time
                == told
            &&& time is None && previous is None ==> snapshot.hourly_reset_time is None
                && snapshot.weekly_reset_time is None
            &&& snapshot.raw_data matches Some(raw)
            &&& json_get(raw, "reset_after_seconds"@) == Some(
                json_of_opt_i64(marked_i64(message, "[reset_after_seconds:"@)),
            )
            &&& json_get(raw, "source"@) == Some(Json::Text("quota_refresh_error"@))
            &&& json_get(raw, "exhausted_at"@) == Some(Json::Number(number_of(now)))
        }),
{
    let time = marked_i64(message, "[reset_at:"@);
    let told = match time {
        Some(time) => Some(unix_seconds(time)),
        None => None,
    };
    snapshot_records_its_origin(
        previous,
        "quota_refresh_error"@,
        told,
        marked_i64(message, "[reset_after_seconds:"@),
        now,
    );
}

/// A message is recorded as an account's last error with the code that it bears and the time, and
/// nothing else of the account changes.
pub proof fn error_is_recorded(account: AccountModel, message: Seq<char>, now: i64)
    ensures
        ({
            let after = with_quota_error(account, message, now);
            &&& after.quota_error matches Some(error)
            &&& error.message == message
            &&& error.code == error_code_in(message)
            &&& error.timestamp == now
            &&& after == AccountModel { quota_error: after.quota_error, ..account }
        }),
{
}

/// A failed lookup changes of an account only what is known of its quota.
pub proof fn failed_lookup_leaves_the_rest(account: AccountModel, message: Seq<char>, now: i64)
    ensures
        ({
            let after = with_fetch_error(account, message, now);
            &&& after == AccountModel {
                quota: after.quota,
                quota_error: after.quota_error,
                usage_updated_at: after.usage_updated_at,
                ..account
            }
            &&& after.quota_error == with_quota_error(account, message, now).quota_error
            &&& says_exhausted(message) ==> after.quota == Some(
                snapshot_of_message(account.quota, message, now),
            )
        }),
{
}

/// A bare code in a message ends before the first comma, bracket or white space.
pub proof fn bare_code_ends_where_it_ends(code: Seq<char>, rest: Seq<char>)
    requires
        forall|i: int| 0 <= i < code.len() ==> !ends_code(#[trigger] code[i]),
        rest.len() > 0 ==> rest[0] == ',' || rest[0] == ']' || rest[0] == ' ',
    ensures
        code_length(code + rest) == code.len(),
    decreases code.len(),
{
    let whole = code + rest;
    if code.len() == 0 {
        assert(whole =~= rest);
    } else {
        assert(whole[0] == code[0]);
        assert(whole.skip(1) =~= code.skip(1) + rest);
        assert forall|i: int| 0 <= i < code.skip(1).len() implies !ends_code(
            #[trigger] code.skip(1)[i],
        ) by {
            assert(code.skip(1)[i] == code[i + 1]);
        }
        bare_code_ends_where_it_ends(code.skip(1), rest);
    }
}

/// The message of a refused lookup begins with the status and ends with the length of the body.
pub proof fn message_tells_status_and_length(
    status: Seq<char>,
    code: Option<Seq<char>>,
    reset_at: Option<i64>,
    reset_after_seconds: Option<i64>,
    body_length: int,
)
    ensures
        ({
            let message = api_error_text(status, code, reset_at, reset_after_seconds, body_length);
            let start = "API 返回错误 "@ + status;
            let end = " [body_len:"@ + decimal_of(body_length) + "]"@;
            &&& message.len() >= start.len() + end.len()
            &&& message.take(start.len() as int) == start
            &&& message.skip(message.len() - end.len()) == end
        }),
{
    let message = api_error_text(status, code, reset_at, reset_after_seconds, body_length);
    let start = "API 返回错误 "@ + status;
    let end = " [body_len:"@ + decimal_of(body_length) + "]"@;
    assert(message.take(start.len() as int) =~= start);
    assert(message.skip(message.len() - end.len()) =~= end);
}

/// A bare code in a message is found behind its mark, up to where it ends, unless a bracketed one is
/// marked too.
pub proof fn bare_code_is_found(before: Seq<char>, code: Seq<char>, rest: Seq<char>)
    requires
        !has_text(before + "error_code="@ + code + rest, "[error_code:"@),
        is_first_at(before + "error_code="@ + code + rest, "error_code="@, before.len() as int),
        forall|i: int| 0 <= i < code.len() ==> !ends_code(#[trigger] code[i]),
        rest.len() > 0 ==> rest[0] == ',' || rest[0] == ']' || rest[0] == ' ',
    ensures
        code.len() > 0 ==> error_code_in(before + "error_code="@ + code + rest) == Some(code),
        code.len() == 0 ==> error_code_in(before + "error_code="@ + code + rest) is None,
{
    let mark = "error_code="@;
    let message = before + mark + code + rest;
    lemma_first_is_unique(message, mark, before.len() as int);
    let tail = message.skip((before.len() + mark.len()) as int);
    assert(tail =~= code + rest);
    bare_code_ends_where_it_ends(code, rest);
    assert(tail.take(code.len() as int) =~= code);
    if code.len() > 0 {
        assert(!ends_code(code[0]));
        assert(!ends_code(code[code.len() - 1]));
        assert(trim_of(code) == code);
    } else {
        assert(trim_of(code) =~= code);
    }
}

/// A bare code ends at a comma, a closing bracket or white space, and at nothing else.
pub proof fn codes_end_at_marks(c: char)
    ensures
        ends_code(c) == (c == ',' || c == ']' || is_space(c)),
{
}

/// The message of a refused lookup is made of the status, the code and the reset that the response
/// tells, and the length of its body.
pub proof fn message_is_made_of_the_response(status: Seq<char>, body: &str, now: i64)
    ensures
        reset_hint_of_body(body@, now) is None ==> response_error_text(status, body, now)
            == api_error_text(status, detail_code_of_body(body@), None, None, body.len() as int),
        reset_hint_of_body(body@, now) matches Some((reset_at, delay)) ==> response_error_text(
            status,
            body,
            now,
        ) == api_error_text(
            status,
            detail_code_of_body(body@),
            reset_at,
            delay,
            body.len() as int,
        ),
{
}

} // verus!
