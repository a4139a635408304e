//! What holds of how the log is read on.
use vstd::prelude::*;

use crate::quota::logs::RowModel;
use crate::quota::scan::{
    advanced_state, cursor_after, cursor_without_log, may_hold_observation, needs_identity, scan_start,
    DirectCodexLogSyncState, DIRECT_CODEX_LOG_INCREMENTAL_BOOTSTRAP_ROWS,
    DIRECT_CODEX_LOG_INCREMENTAL_SCAN_MAX_ROWS, DIRECT_CODEX_LOG_SCAN_MAX_ROWS,
};
use crate::text::has_text;

verus! {

/// How much of the log is read at once.
pub proof fn limits_of_a_look_at_the_log()
    ensures
        DIRECT_CODEX_LOG_SCAN_MAX_ROWS == 20_000,
        DIRECT_CODEX_LOG_INCREMENTAL_BOOTSTRAP_ROWS == 5_000,
        DIRECT_CODEX_LOG_INCREMENTAL_SCAN_MAX_ROWS == 5_000,
{
}

/// The words of which one stands in a log body with an observation.
pub open spec fn log_words() -> Seq<Seq<char>> {
    seq![
        "\"type\":\"codex.rate_limits\""@,
        "usage_limit_reached"@,
        "insufficient_quota"@,
        "credits_depleted"@,
    ]
}

/// A log body may hold an observation if it holds an event and one of these words, and only then.
pub proof fn log_bodies_are_known_by_words(body: Seq<char>)
    ensures
        may_hold_observation(body) <==> {
            &&& has_text(body, "websocket event:"@)
            &&& exists|i: int| 0 <= i < 4 && has_text(body, #[trigger] log_words()[i])
        },
{
    let words = log_words();
    assert(words[0] == "\"type\":\"codex.rate_limits\""@);
    assert(words[1] == "usage_limit_reached"@);
    assert(words[2] == "insufficient_quota"@);
    assert(words[3] == "credits_depleted"@);
    if may_hold_observation(body) {
        assert(has_text(body, words[0]) || has_text(body, words[1]) || has_text(body, words[2])
            || has_text(body, words[3]));
    }
}

/// The log is read on behind the last row that was read, if there are rows behind it; the first time
/// its last five thousand rows are read.
pub proof fn log_is_read_on(last_log_id: i64, max_log_id: i64)
    ensures
        max_log_id <= last_log_id ==> scan_start(last_log_id, max_log_id) is None,
        max_log_id > last_log_id && last_log_id > 0 ==> scan_start(last_log_id, max_log_id) == Some(
            last_log_id,
        ),
        max_log_id > last_log_id && last_log_id <= 0 ==> scan_start(last_log_id, max_log_id) is Some
            && (max_log_id >= i64::MIN + 5_000 ==> max_log_id - scan_start(
            last_log_id,
            max_log_id,
        )->0 == 5_000),
{
}

/// The log counts as read to its end, unless a look took as many rows as it takes at most: then to the
/// last of them. It never counts as read less far than before.
pub proof fn log_is_never_read_back(last_log_id: i64, max_log_id: i64, rows: Seq<RowModel>)
    ensures
        cursor_after(last_log_id, max_log_id, rows) >= last_log_id,
        rows.len() < 5_000 && max_log_id >= last_log_id ==> cursor_after(
            last_log_id,
            max_log_id,
            rows,
        ) == max_log_id,
        rows.len() >= 5_000 && rows.last().id >= last_log_id ==> cursor_after(
            last_log_id,
            max_log_id,
            rows,
        ) == rows.last().id,
        rows.len() < 5_000 && max_log_id < last_log_id ==> cursor_after(
            last_log_id,
            max_log_id,
            rows,
        ) == last_log_id,
        rows.len() >= 5_000 && rows.last().id < last_log_id ==> cursor_after(
            last_log_id,
            max_log_id,
            rows,
        ) == last_log_id,
{
}

/// Without a log it counts as read as far as before, or not at all.
pub proof fn missing_log_is_read_as_far_as_before(last_log_id: i64)
    ensures
        last_log_id >= 0 ==> cursor_without_log(last_log_id) == last_log_id,
        last_log_id < 0 ==> cursor_without_log(last_log_id) == 0,
{
}

/// How far the log has been read is noted with the time if that is further than before, and else
/// stays as it is.
pub proof fn only_progress_is_noted(state: DirectCodexLogSyncState, next_log_id: i64, now_ms: i64)
    ensures
        next_log_id > state.last_log_id ==> advanced_state(state, next_log_id, now_ms).last_log_id
            == next_log_id && advanced_state(state, next_log_id, now_ms).last_synced_at_ms == now_ms,
        next_log_id <= state.last_log_id ==> advanced_state(state, next_log_id, now_ms) == state,
{
}

/// More rows are looked up for a thread if one of its rows may hold an observation, and only then.
pub proof fn threads_with_observations_are_looked_up(rows: Seq<RowModel>, thread: Seq<char>, at: int)
    ensures
        0 <= at < rows.len() && rows[at].thread_id == Some(thread) && may_hold_observation(
            rows[at].body,
        ) ==> needs_identity(rows, rows.len() as int, thread),
        (forall|i: int|
            0 <= i < rows.len() ==> (#[trigger] rows[i]).thread_id != Some(thread)
                || !may_hold_observation(rows[i].body)) ==> !needs_identity(
            rows,
            rows.len() as int,
            thread,
        ),
{
}

} // verus!
