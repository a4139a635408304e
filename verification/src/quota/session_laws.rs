//! What holds of what is read from the session files: which files and lines, and which observation
//! stands.
use vstd::prelude::*;

use crate::quota::direct::ObservationModel;
use crate::quota::events::session_line_observation;
use crate::quota::preference::{best_of, tells_more};
use crate::quota::sessions::{
    is_newer, line_seen, lines_of, lines_seen, not_before, scan_start_of, texts_seen, whole_lines,
    without_return, DIRECT_SESSION_SCAN_MAX_BYTES_PER_FILE, DIRECT_SESSION_SCAN_MAX_FILES,
};
use crate::text::{after_first, has_text, lemma_first_is_unique, occurs_at};

verus! {

/// At most 32 files are looked at, and of each at most its last 256 kilobytes.
pub proof fn little_is_looked_at(size: u64)
    ensures
        DIRECT_SESSION_SCAN_MAX_FILES == 32,
        DIRECT_SESSION_SCAN_MAX_BYTES_PER_FILE == 262_144,
        scan_start_of(size) <= size,
        size - scan_start_of(size) <= 262_144,
        size <= 262_144 ==> scan_start_of(size) == 0,
        size > 262_144 ==> size - scan_start_of(size) == 262_144,
{
}

/// Files come in the order of their last change, the latest first; a file whose change is unknown comes
/// behind those whose is known; and of two that nothing tells apart the one listed later comes first.
pub proof fn newest_files_come_first(modified: Seq<Option<i128>>, first: int, second: int)
    ensures
        modified[first] matches Some(left) && modified[second] matches Some(right) && left > right
            ==> is_newer(modified, first, second),
        modified[first] matches Some(left) && modified[second] matches Some(right) && left < right
            ==> !is_newer(modified, first, second),
        modified[first] is Some && modified[second] is None ==> is_newer(modified, first, second),
        modified[first] is None && modified[second] is Some ==> !is_newer(modified, first, second),
        modified[first] == modified[second] ==> is_newer(modified, first, second) == (first > second),
{
}

/// Of a file that is read from its beginning all is kept; of any other, what follows the first line
/// break, and nothing where there is none.
pub proof fn only_whole_lines_are_kept(content: Seq<char>, start: u64)
    ensures
        start == 0 ==> whole_lines(content, start) == Some(content),
        start > 0 && has_text(content, "\n"@) ==> whole_lines(content, start) == after_first(
            content,
            "\n"@,
        ),
        start > 0 && !has_text(content, "\n"@) ==> whole_lines(content, start) is None,
{
}

/// The lines of a text are those before and behind its first line break, and a text without one is one
/// line unless it is empty.
pub proof fn lines_end_at_line_breaks(line: Seq<char>, rest: Seq<char>)
    requires
        forall|i: int| 0 <= i < line.len() ==> #[trigger] line[i] != '\n',
    ensures
        lines_of(line + seq!['\n'] + rest) == seq![without_return(line)] + lines_of(rest),
        line.len() > 0 ==> lines_of(line) == seq![line],
        line.len() == 0 ==> lines_of(line) == Seq::<Seq<char>>::empty(),
{
    reveal_strlit("\n");
    let mark = "\n"@;
    assert(mark =~= seq!['\n']);
    let whole = line + seq!['\n'] + rest;
    let at = line.len() as int;
    assert(whole.subrange(at, at + 1) =~= mark);
    assert(occurs_at(whole, mark, at));
    assert forall|earlier: int| earlier < at implies !occurs_at(whole, mark, earlier) by {
        if occurs_at(whole, mark, earlier) {
            assert(whole.subrange(earlier, earlier + 1)[0] == line[earlier]);
        }
    }
    lemma_first_is_unique(whole, mark, at);
    assert(whole.skip(at + 1) =~= rest);
    assert(whole.take(at) =~= line);
    if has_text(line, mark) {
        let inside = choose|inside: int| occurs_at(line, mark, inside);
        assert(line.subrange(inside, inside + 1)[0] == line[inside]);
    }
}

/// One carriage return at the end of a line that a line break ends is left out, and nothing else.
pub proof fn carriage_returns_are_left_out(line: Seq<char>)
    ensures
        without_return(line + seq!['\r']) == line,
        line.len() > 0 && line.last() != '\r' ==> without_return(line) == line,
        line.len() == 0 ==> without_return(line) == line,
{
    assert((line + seq!['\r']).drop_last() =~= line);
}

/// Each line adds what it says, the last line first.
pub proof fn last_lines_are_read_first(before: Seq<Seq<char>>, line: Seq<char>, after: Seq<Seq<char>>)
    ensures
        lines_seen(before + seq![line] + after) == lines_seen(after) + (match session_line_observation(
            line,
        ) {
            Some(observation) => seq![observation],
            None => Seq::empty(),
        }) + lines_seen(before),
    decreases after.len(),
{
    let all = before + seq![line] + after;
    if after.len() == 0 {
        assert(all.drop_last() =~= before);
        assert(all.last() == line);
        assert(lines_seen(all) =~= lines_seen(after) + line_seen(line) + lines_seen(before));
    } else {
        last_lines_are_read_first(before, line, after.drop_last());
        assert(all.drop_last() =~= before + seq![line] + after.drop_last());
        assert(all.last() == after.last());
        assert(lines_seen(all) =~= lines_seen(after) + line_seen(line) + lines_seen(before));
    }
}

/// Each file adds what its lines say, the first file first.
pub proof fn files_are_read_in_order(before: Seq<Seq<char>>, text: Seq<char>, after: Seq<Seq<char>>)
    ensures
        texts_seen(before + seq![text] + after) == texts_seen(before) + lines_seen(lines_of(text))
            + texts_seen(after),
    decreases after.len(),
{
    let all = before + seq![text] + after;
    if after.len() == 0 {
        assert(all.drop_last() =~= before);
        assert(all.last() == text);
        assert(texts_seen(all) =~= texts_seen(before) + lines_seen(lines_of(text)) + texts_seen(
            after,
        ));
    } else {
        files_are_read_in_order(before, text, after.drop_last());
        assert(all.drop_last() =~= before + seq![text] + after.drop_last());
        assert(all.last() == after.last());
        assert(texts_seen(all) =~= texts_seen(before) + lines_seen(lines_of(text)) + texts_seen(
            after,
        ));
    }
}

/// An observation counts from the time on that is asked for, and not before; the others stay in their
/// order.
pub proof fn older_observations_are_left_out(
    before: Seq<ObservationModel>,
    observation: ObservationModel,
    after: Seq<ObservationModel>,
    since_seconds: i64,
)
    ensures
        not_before(before + seq![observation] + after, since_seconds) == not_before(
            before,
            since_seconds,
        ) + (if observation.observed_at >= since_seconds {
            seq![observation]
        } else {
            Seq::empty()
        }) + not_before(after, since_seconds),
    decreases after.len(),
{
    let all = before + seq![observation] + after;
    let own = if observation.observed_at >= since_seconds {
        seq![observation]
    } else {
        Seq::empty()
    };
    if after.len() == 0 {
        assert(all.drop_last() =~= before);
        assert(all.last() == observation);
        assert(not_before(all, since_seconds) =~= not_before(before, since_seconds) + own + not_before(
            after,
            since_seconds,
        ));
    } else {
        older_observations_are_left_out(before, observation, after.drop_last(), since_seconds);
        assert(all.drop_last() =~= before + seq![observation] + after.drop_last());
        assert(all.last() == after.last());
        assert(not_before(all, since_seconds) =~= not_before(before, since_seconds) + own + not_before(
            after,
            since_seconds,
        ));
    }
}

/// Of several observations the one stands that tells more than all before it and than which none behind
/// it tells more: the first of the best.
pub proof fn first_of_the_best_stands(observations: Seq<ObservationModel>, at: int)
    requires
        0 <= at < observations.len(),
        forall|i: int| 0 <= i < at ==> tells_more(observations[at], #[trigger] observations[i]),
        forall|i: int|
            at < i < observations.len() ==> !tells_more(#[trigger] observations[i], observations[at]),
    ensures
        best_of(observations) == Some(observations[at]),
    decreases observations.len(),
{
    let rest = observations.drop_last();
    let last = observations.last();
    if at < observations.len() - 1 {
        assert forall|i: int| 0 <= i < at implies tells_more(rest[at], #[trigger] rest[i]) by {
            assert(rest[i] == observations[i]);
        }
        assert forall|i: int| at < i < rest.len() implies !tells_more(#[trigger] rest[i], rest[at]) by {
            assert(rest[i] == observations[i]);
        }
        first_of_the_best_stands(rest, at);
        assert(!tells_more(observations[observations.len() - 1], observations[at]));
    } else if rest.len() > 0 {
        crate::quota::preference::best_is_unbeaten(rest);
        let best = best_of(rest)->0;
        let place = choose|i: int| 0 <= i < rest.len() && rest[i] == best;
        assert(tells_more(observations[at], observations[place]));
    }
}

} // verus!
