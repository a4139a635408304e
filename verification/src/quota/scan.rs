//! Which rows of Codex's log are read, and how far the log has been read.
use vstd::prelude::*;

use crate::numbers::{greater, max_i64, saturating_difference, saturating_sub};
use crate::quota::logs::{rows_of, DirectCodexLogRow, RowModel};
use crate::text::{contains, has_text, is_listed, strings_of};

verus! {

/// How many rows a look at the whole log takes at most.
pub const DIRECT_CODEX_LOG_SCAN_MAX_ROWS: i64 = 20_000;

/// How far back the first look at the log goes, in rows.
pub const DIRECT_CODEX_LOG_INCREMENTAL_BOOTSTRAP_ROWS: i64 = 5_000;

/// How many new rows a look at the log takes at most.
pub const DIRECT_CODEX_LOG_INCREMENTAL_SCAN_MAX_ROWS: i64 = 5_000;

/// The log body may hold an observation of a quota.
pub open spec fn may_hold_observation(body: Seq<char>) -> bool {
    &&& has_text(body, "websocket event:"@)
    &&& (has_text(body, "\"type\":\"codex.rate_limits\""@) || has_text(
        body,
        "usage_limit_reached"@,
    ) || has_text(body, "insufficient_quota"@) || has_text(body, "credits_depleted"@))
}

/// Whether a log body may hold an observation of a quota.
pub fn direct_codex_log_body_may_contain_quota_observation(body: &str) -> (may: bool)
    ensures
        may == may_hold_observation(body@),
{
    contains(body, "websocket event:") && (contains(body, "\"type\":\"codex.rate_limits\"")
        || contains(body, "usage_limit_reached") || contains(body, "insufficient_quota")
        || contains(body, "credits_depleted"))
}

/// One of the first `count` rows that may hold an observation is on the thread.
pub open spec fn needs_identity(rows: Seq<RowModel>, count: int, thread: Seq<char>) -> bool {
    exists|i: int|
        0 <= i < count && (#[trigger] rows[i]).thread_id == Some(thread) && may_hold_observation(
            rows[i].body,
        )
}

/// The threads for which more rows are to be looked up, to learn whose they are: those with a row
/// that may hold an observation, each once.
#[verifier::spinoff_prover]
pub fn direct_codex_log_thread_ids_for_identity_backfill(rows: &[DirectCodexLogRow]) -> (threads: Vec<
    String,
>)
    ensures
        strings_of(threads@).no_duplicates(),
        forall|thread: Seq<char>| #[trigger]
            strings_of(threads@).contains(thread) <==> needs_identity(
                rows_of(rows@),
                rows@.len() as int,
                thread,
            ),
{
    let ghost all = rows_of(rows@);
    let mut threads: Vec<String> = Vec::new();
    let total = rows.len();
    let mut at: usize = 0;
    while at < total
        invariant
            all == rows_of(rows@),
            total == rows@.len() == all.len(),
            at <= total,
            strings_of(threads@).no_duplicates(),
            forall|thread: Seq<char>| #[trigger]
                strings_of(threads@).contains(thread) <==> needs_identity(all, at as int, thread),
        decreases total - at,
    {
        let row = &rows[at];
        let ghost before = strings_of(threads@);
        assert(all[at as int] == row@);
        let mut added = false;
        if direct_codex_log_body_may_contain_quota_observation(row.body.as_str()) {
            if let Some(thread) = &row.thread_id {
                if !is_listed(threads.as_slice(), thread.as_str()) {
                    threads.push(thread.clone());
                    added = true;
                    assert(strings_of(threads@) =~= before.push(thread@));
                }
            }
        }
        assert forall|thread: Seq<char>| #[trigger]
            strings_of(threads@).contains(thread) <==> needs_identity(all, at + 1, thread) by {
            let after = strings_of(threads@);
            if before.contains(thread) {
                let i = choose|i: int| 0 <= i < before.len() && before[i] == thread;
                assert(after[i] == thread);
            }
            if needs_identity(all, at as int, thread) {
                let i = choose|i: int|
                    0 <= i < at && (#[trigger] all[i]).thread_id == Some(thread)
                        && may_hold_observation(all[i].body);
                assert(all[i].thread_id == Some(thread));
            }
            if after.contains(thread) && !before.contains(thread) {
                let i = choose|i: int| 0 <= i < after.len() && after[i] == thread;
                if i < before.len() {
                    assert(before[i] == thread);
                }
                assert(all[at as int].thread_id == Some(thread));
            }
            if needs_identity(all, at + 1, thread) && !needs_identity(all, at as int, thread) {
                assert(all[at as int].thread_id == Some(thread));
                if added {
                    assert(after[after.len() - 1] == thread);
                }
            }
        }
        at = at + 1;
    }
    threads
}

/// How far the log has been read.
#[derive(Clone, Copy, Debug)]
pub struct DirectCodexLogSyncState {
    pub last_log_id: i64,
    pub last_synced_at_ms: i64,
}

impl Default for DirectCodexLogSyncState {
    fn default() -> (state: Self)
        ensures
            state == (DirectCodexLogSyncState { last_log_id: 0, last_synced_at_ms: 0 }),
    {
        DirectCodexLogSyncState { last_log_id: 0, last_synced_at_ms: 0 }
    }
}

/// The row behind which a look at the log starts, if there are new rows: the last one read, or a
/// row not too far back if none was read yet.
pub open spec fn scan_start(last_log_id: i64, max_log_id: i64) -> Option<i64> {
    if max_log_id <= last_log_id {
        None
    } else if last_log_id > 0 {
        Some(last_log_id)
    } else {
        Some(saturating_difference(max_log_id, DIRECT_CODEX_LOG_INCREMENTAL_BOOTSTRAP_ROWS))
    }
}

/// The row behind which a look at the log starts, if there are new rows.
pub fn incremental_scan_start(last_log_id: i64, max_log_id: i64) -> (start: Option<i64>)
    ensures
        start == scan_start(last_log_id, max_log_id),
{
    if max_log_id <= last_log_id {
        None
    } else if last_log_id > 0 {
        Some(last_log_id)
    } else {
        Some(saturating_sub(max_log_id, DIRECT_CODEX_LOG_INCREMENTAL_BOOTSTRAP_ROWS))
    }
}

/// How far the log has been read once `rows` were: to its end, unless there were as many rows as
/// a look takes. Never less far than before.
pub open spec fn cursor_after(last_log_id: i64, max_log_id: i64, rows: Seq<RowModel>) -> i64 {
    let reached = if rows.len() < DIRECT_CODEX_LOG_INCREMENTAL_SCAN_MAX_ROWS {
        max_log_id
    } else {
        rows.last().id
    };
    greater(reached as int, last_log_id as int) as i64
}

/// How far the log has been read once `rows` were.
pub fn next_log_id(last_log_id: i64, max_log_id: i64, rows: &[DirectCodexLogRow]) -> (next: i64)
    ensures
        next == cursor_after(last_log_id, max_log_id, rows_of(rows@)),
        next >= last_log_id,
{
    let count = rows.len();
    let reached = if count < DIRECT_CODEX_LOG_INCREMENTAL_SCAN_MAX_ROWS as usize {
        max_log_id
    } else {
        rows[count - 1].id
    };
    max_i64(reached, last_log_id)
}

/// How far the log has been read where there was no log to read.
pub open spec fn cursor_without_log(last_log_id: i64) -> i64 {
    greater(last_log_id as int, 0) as i64
}

/// How far the log has been read where there was no log to read.
pub fn log_id_without_log(last_log_id: i64) -> (next: i64)
    ensures
        next == cursor_without_log(last_log_id),
        next == greater(last_log_id as int, 0),
{
    max_i64(last_log_id, 0)
}

/// How far the log has been read once a row of it was reached.
pub open spec fn advanced_state(
    state: DirectCodexLogSyncState,
    next_log_id: i64,
    now_ms: i64,
) -> DirectCodexLogSyncState {
    if next_log_id > state.last_log_id {
        DirectCodexLogSyncState { last_log_id: next_log_id, last_synced_at_ms: now_ms }
    } else {
        state
    }
}

/// Moves on to a row of the log, and says whether that is further than before.
pub fn advance_sync_state(state: &mut DirectCodexLogSyncState, next_log_id: i64, now_ms: i64) -> (advanced:
    bool)
    ensures
        advanced == (next_log_id > old(state).last_log_id),
        *final(state) == advanced_state(*old(state), next_log_id, now_ms),
        *final(state) == (if advanced {
            DirectCodexLogSyncState { last_log_id: next_log_id, last_synced_at_ms: now_ms }
        } else {
            *old(state)
        }),
{
    if next_log_id > state.last_log_id {
        state.last_log_id = next_log_id;
        state.last_synced_at_ms = now_ms;
        true
    } else {
        false
    }
}

/// The rows behind `start` begin in the place `from`.
pub open spec fn begin_at(log: Seq<RowModel>, start: i64, from: int) -> bool {
    &&& 0 <= from <= log.len()
    &&& forall|i: int| 0 <= i < from ==> #[trigger] log[i].id <= start
    &&& forall|i: int| from <= i < log.len() ==> #[trigger] log[i].id > start
}

/// A look at the log took the rows behind `start`: the first ones, as many as it takes at most.
pub open spec fn is_scan(log: Seq<RowModel>, start: i64, rows: Seq<RowModel>) -> bool {
    exists|from: int| #[trigger]
        begin_at(log, start, from) && rows == log.subrange(
            from,
            if log.len() - from <= DIRECT_CODEX_LOG_INCREMENTAL_SCAN_MAX_ROWS {
                log.len() as int
            } else {
                from + DIRECT_CODEX_LOG_INCREMENTAL_SCAN_MAX_ROWS
            },
        )
}

/// The ids of a log grow, none beyond `max_log_id`.
pub open spec fn is_log(log: Seq<RowModel>, max_log_id: i64) -> bool {
    &&& forall|i: int, j: int| 0 <= i < j < log.len() ==> log[i].id < log[j].id
    &&& forall|i: int| 0 <= i < log.len() ==> #[trigger] log[i].id <= max_log_id
}

/// Rows with growing ids behind `start` take as many ids as they are rows.
proof fn lemma_ids_grow(rows: Seq<RowModel>, start: i64, at: int)
    requires
        forall|i: int, j: int| 0 <= i < j < rows.len() ==> rows[i].id < rows[j].id,
        forall|i: int| 0 <= i < rows.len() ==> #[trigger] rows[i].id > start,
        0 <= at < rows.len(),
    ensures
        rows[at].id >= start + 1 + at,
    decreases at,
{
    if at > 0 {
        lemma_ids_grow(rows, start, at - 1);
        assert(rows[at - 1].id < rows[at].id);
    }
}

/// No row is passed over: of the rows behind the start of a look at the log, all up to where the
/// log then counts as read were taken.
pub proof fn no_row_is_passed_over(
    log: Seq<RowModel>,
    last_log_id: i64,
    max_log_id: i64,
    rows: Seq<RowModel>,
    row: RowModel,
)
    requires
        is_log(log, max_log_id),
        scan_start(last_log_id, max_log_id) is Some,
        is_scan(log, scan_start(last_log_id, max_log_id)->0, rows),
        log.contains(row),
        scan_start(last_log_id, max_log_id)->0 < row.id <= cursor_after(
            last_log_id,
            max_log_id,
            rows,
        ),
    ensures
        rows.contains(row),
{
    let start = scan_start(last_log_id, max_log_id)->0;
    let limit = DIRECT_CODEX_LOG_INCREMENTAL_SCAN_MAX_ROWS;
    let from = choose|from: int| #[trigger]
        begin_at(log, start, from) && rows == log.subrange(
            from,
            if log.len() - from <= limit {
                log.len() as int
            } else {
                from + limit
            },
        );
    let at = choose|i: int| 0 <= i < log.len() && log[i] == row;
    assert(from <= at);
    if at - from < rows.len() {
        assert(rows[at - from] == row);
    } else {
        assert(rows.len() == limit);
        let last = rows.len() - 1;
        assert(rows[last] == log[from + last]);
        assert(log[from + last].id < log[at].id);
        assert forall|i: int, j: int| 0 <= i < j < rows.len() implies rows[i].id < rows[j].id by {
            assert(log[from + i].id < log[from + j].id);
        }
        assert forall|i: int| 0 <= i < rows.len() implies #[trigger] rows[i].id > start by {
            assert(log[from + i].id > start);
        }
        lemma_ids_grow(rows, start, last);
    }
}

} // verus!
