//! Quota observations in the session files of Codex.
use vstd::prelude::*;
use vstd::set_lib::{lemma_int_range, lemma_len_subset, set_int_range};

use crate::quota::direct::{opt_observation, DirectQuotaObservation, ObservationModel};
use crate::quota::events::{
    parse_direct_quota_observation_from_session_line, session_line_observation,
};
use crate::quota::preference::{best_of, keep_better};
use crate::text::{
    after_first, before_first, has_text, is_first_at, lemma_first_exists, lemma_first_is_unique,
    occurs_at, opt_text, split_once, strings_of,
};

verus! {

/// How many session files are looked at, at most.
pub const DIRECT_SESSION_SCAN_MAX_FILES: usize = 32;

/// How many bytes at the end of a session file are looked at, at most.
pub const DIRECT_SESSION_SCAN_MAX_BYTES_PER_FILE: u64 = 256 * 1024;

/// The file in the first place was changed later than the one in the second; of files changed at
/// the same time, or of unknown times, the one listed later comes first, and a file of unknown
/// time comes behind all others.
pub open spec fn is_newer(modified: Seq<Option<i128>>, first: int, second: int) -> bool {
    match (modified[first], modified[second]) {
        (Some(left), Some(right)) => left > right || left == right && first > second,
        (Some(_), None) => true,
        (None, Some(_)) => false,
        (None, None) => first > second,
    }
}

/// Whether the file in the first place comes before the one in the second.
fn comes_before(modified: &Vec<Option<i128>>, first: usize, second: usize) -> (before: bool)
    requires
        first < modified@.len(),
        second < modified@.len(),
    ensures
        before == is_newer(modified@, first as int, second as int),
{
    match modified[first] {
        Some(left) => match modified[second] {
            Some(right) => left > right || (left == right && first > second),
            None => true,
        },
        None => match modified[second] {
            Some(_) => false,
            None => first > second,
        },
    }
}

/// The file comes behind the one in the place `last`, if there is a last one.
spec fn is_behind(modified: Seq<Option<i128>>, last: Option<usize>, place: int) -> bool {
    last matches Some(last) ==> is_newer(modified, last as int, place)
}

/// The newest of the first `count` files behind `last`.
spec fn is_next(
    modified: Seq<Option<i128>>,
    last: Option<usize>,
    count: int,
    next: Option<usize>,
) -> bool {
    match next {
        Some(next) => {
            &&& next < count
            &&& is_behind(modified, last, next as int)
            &&& forall|k: int|
                0 <= k < count && k != next && #[trigger] is_behind(modified, last, k) ==> is_newer(
                    modified,
                    next as int,
                    k,
                )
        },
        None => forall|k: int| 0 <= k < count ==> !#[trigger] is_behind(modified, last, k),
    }
}

/// The newest of the files behind `last`, or of all if there is no last one.
fn next_newest(modified: &Vec<Option<i128>>, last: Option<usize>) -> (next: Option<usize>)
    requires
        last matches Some(last) ==> last < modified@.len(),
    ensures
        is_next(modified@, last, modified@.len() as int, next),
{
    let total = modified.len();
    let mut next: Option<usize> = None;
    let mut at: usize = 0;
    while at < total
        invariant
            total == modified@.len(),
            at <= total,
            last matches Some(last) ==> last < total,
            is_next(modified@, last, at as int, next),
        decreases total - at,
    {
        let eligible = match last {
            Some(last) => comes_before(modified, last, at),
            None => true,
        };
        assert(eligible == is_behind(modified@, last, at as int));
        if eligible {
            let better = match next {
                Some(current) => comes_before(modified, at, current),
                None => true,
            };
            if better {
                next = Some(at);
            }
        }
        at = at + 1;
    }
    next
}

/// Different places are at most as many as there are files, and as many if they are all of them.
#[verifier::spinoff_prover]
proof fn lemma_places(places: Seq<usize>, total: nat)
    requires
        places.no_duplicates(),
        forall|i: int| 0 <= i < places.len() ==> #[trigger] places[i] < total,
    ensures
        places.len() <= total,
        (forall|k: usize| k < total ==> places.contains(k)) && total <= usize::MAX ==> places.len()
            == total,
{
    let numbers = places.map_values(|place: usize| place as int);
    assert forall|i: int, j: int| 0 <= i < j < numbers.len() implies numbers[i] != numbers[j] by {
        assert(places[i] != places[j]);
    }
    assert(numbers.no_duplicates());
    numbers.unique_seq_to_set();
    let range = set_int_range(0, total as int);
    lemma_int_range(0, total as int);
    assert forall|number: int| numbers.to_set().contains(number) implies range.contains(number) by {
        let i = choose|i: int| 0 <= i < numbers.len() && numbers[i] == number;
        assert(places[i] == number);
    }
    lemma_len_subset(numbers.to_set(), range);
    if (forall|k: usize| k < total ==> places.contains(k)) && total <= usize::MAX {
        assert forall|number: int| range.contains(number) implies numbers.to_set().contains(
            number,
        ) by {
            let place = number as usize;
            let i = choose|i: int| 0 <= i < places.len() && places[i] == place;
            assert(places.contains(place));
            assert(numbers[i] == number);
        }
        lemma_len_subset(range, numbers.to_set());
    }
}

/// The places of the files that are looked at, newest first.
#[verifier::spinoff_prover]
pub fn recent_session_files(modified: &Vec<Option<i128>>) -> (recent: Vec<usize>)
    ensures
        recent@.len() == (if modified@.len() <= DIRECT_SESSION_SCAN_MAX_FILES {
            modified@.len()
        } else {
            DIRECT_SESSION_SCAN_MAX_FILES as nat
        }),
        forall|i: int| 0 <= i < recent@.len() ==> #[trigger] recent@[i] < modified@.len(),
        forall|i: int, j: int|
            0 <= i < j < recent@.len() ==> is_newer(
                modified@,
                #[trigger] recent@[i] as int,
                #[trigger] recent@[j] as int,
            ),
        forall|i: int, k: usize|
            0 <= i < recent@.len() && k < modified@.len() && !recent@.contains(k) ==> #[trigger]
            is_newer(modified@, recent@[i] as int, k as int),
{
    let total = modified.len();
    let mut recent: Vec<usize> = Vec::new();
    let mut last: Option<usize> = None;
    let mut done = false;
    while !done && recent.len() < DIRECT_SESSION_SCAN_MAX_FILES
        invariant
            recent@.len() <= DIRECT_SESSION_SCAN_MAX_FILES,
            last == (if recent@.len() == 0 {
                None::<usize>
            } else {
                Some(recent@.last())
            }),
            forall|i: int| 0 <= i < recent@.len() ==> #[trigger] recent@[i] < modified@.len(),
            forall|i: int, j: int|
                0 <= i < j < recent@.len() ==> is_newer(
                    modified@,
                    #[trigger] recent@[i] as int,
                    #[trigger] recent@[j] as int,
                ),
            forall|i: int, k: usize|
                0 <= i < recent@.len() && k < modified@.len() && !recent@.contains(k) ==> #[trigger]
                is_newer(modified@, recent@[i] as int, k as int),
            done ==> forall|k: usize| k < modified@.len() ==> recent@.contains(k),
        decreases DIRECT_SESSION_SCAN_MAX_FILES - recent@.len() + (if done {
            0int
        } else {
            1
        }),
    {
        let ghost before = recent@;
        match next_newest(modified, last) {
            Some(next) => {
                recent.push(next);
                last = Some(next);
                proof {
                    assert(recent@.last() == next);
                    assert forall|i: int, j: int| 0 <= i < j < recent@.len() implies is_newer(
                        modified@,
                        #[trigger] recent@[i] as int,
                        #[trigger] recent@[j] as int,
                    ) by {
                        if j == before.len() && i < before.len() - 1 {
                            assert(is_newer(modified@, before[i] as int, before.last() as int));
                        }
                    }
                    assert forall|i: int, k: usize|
                        0 <= i < recent@.len() && k < modified@.len() && !recent@.contains(
                            k,
                        ) implies #[trigger] is_newer(modified@, recent@[i] as int, k as int) by {
                        assert(recent@[before.len() as int] == next);
                        if before.contains(k) {
                            let at = choose|at: int| 0 <= at < before.len() && before[at] == k;
                            assert(recent@[at] == k);
                        }
                        if before.len() > 0 {
                            assert(is_newer(
                                modified@,
                                before[before.len() - 1] as int,
                                k as int,
                            ));
                        }
                        let former = if before.len() == 0 {
                            None
                        } else {
                            Some(before.last())
                        };
                        assert(is_behind(modified@, former, k as int));
                        if i < before.len() {
                            assert(is_newer(modified@, before[i] as int, k as int));
                        }
                    }
                }
            },
            None => {
                done = true;
                proof {
                    assert forall|k: usize| k < modified@.len() implies recent@.contains(k) by {
                        if !recent@.contains(k) {
                            assert(!is_behind(modified@, last, k as int));
                            assert(is_newer(
                                modified@,
                                recent@[recent@.len() - 1] as int,
                                k as int,
                            ));
                        }
                    }
                }
            },
        }
    }
    proof {
        assert forall|i: int, j: int| 0 <= i < recent@.len() && 0 <= j < recent@.len() && i
            != j implies recent@[i] != recent@[j] by {
            if i < j {
                assert(is_newer(modified@, recent@[i] as int, recent@[j] as int));
            } else {
                assert(is_newer(modified@, recent@[j] as int, recent@[i] as int));
            }
        }
        lemma_places(recent@, total as nat);
    }
    recent
}

/// Where the part of a file that is looked at begins, in bytes.
pub open spec fn scan_start_of(size: u64) -> u64 {
    if size <= DIRECT_SESSION_SCAN_MAX_BYTES_PER_FILE {
        0
    } else {
        (size - DIRECT_SESSION_SCAN_MAX_BYTES_PER_FILE) as u64
    }
}

/// Where the part of a file that is looked at begins, in bytes.
pub fn session_scan_start(size: u64) -> (start: u64)
    ensures
        start == scan_start_of(size),
        start == (if size <= DIRECT_SESSION_SCAN_MAX_BYTES_PER_FILE {
            0
        } else {
            size - DIRECT_SESSION_SCAN_MAX_BYTES_PER_FILE
        }),
{
    if size <= DIRECT_SESSION_SCAN_MAX_BYTES_PER_FILE {
        0
    } else {
        size - DIRECT_SESSION_SCAN_MAX_BYTES_PER_FILE
    }
}

/// The whole lines of what was read of a file from `start` on: all of it if that is where the file
/// begins, else what follows the first line.
pub open spec fn whole_lines(content: Seq<char>, start: u64) -> Option<Seq<char>> {
    if start == 0 {
        Some(content)
    } else {
        after_first(content, "\n"@)
    }
}

/// The whole lines of what was read of a file from `start` on.
pub fn recent_session_text(content: String, start: u64) -> (text: Option<String>)
    ensures
        opt_text(text) == whole_lines(content@, start),
{
    if start == 0 {
        return Some(content);
    }
    match split_once(content.as_str(), "\n") {
        Some((_, tail)) => Some(tail.to_owned()),
        None => None,
    }
}

/// What follows a line break is shorter than what it stands in.
pub proof fn lemma_rest_is_shorter(text: Seq<char>)
    ensures
        after_first(text, "\n"@) matches Some(rest) ==> rest.len() < text.len(),
{
    if has_text(text, "\n"@) {
        let at = choose|at: int| occurs_at(text, "\n"@, at);
        lemma_first_exists(text, "\n"@, at);
        let first = choose|first: int| is_first_at(text, "\n"@, first);
        lemma_first_is_unique(text, "\n"@, first);
        reveal_strlit("\n");
        assert("\n"@.len() == 1);
    }
}

/// A line without the carriage return at its end.
pub open spec fn without_return(line: Seq<char>) -> Seq<char> {
    if line.len() > 0 && line.last() == '\r' {
        line.drop_last()
    } else {
        line
    }
}

/// The lines of a text. Each ends with a line feed, before which a carriage return may stand, but
/// for the last, which may lack it.
pub open spec fn lines_of(text: Seq<char>) -> Seq<Seq<char>>
    decreases text.len(),
{
    match (before_first(text, "\n"@), after_first(text, "\n"@)) {
        (Some(line), Some(rest)) => {
            proof {
                lemma_rest_is_shorter(text);
            }
            seq![without_return(line)] + lines_of(rest)
        },
        _ => if text.len() == 0 {
            Seq::empty()
        } else {
            seq![text]
        },
    }
}

/// A line without the carriage return at its end.
fn strip_return(line: &str) -> (stripped: &str)
    ensures
        stripped@ == without_return(line@),
{
    let length = line.unicode_len();
    if length > 0 && line.get_char(length - 1) == '\r' {
        let stripped = line.substring_char(0, length - 1);
        assert(stripped@ =~= line@.drop_last());
        stripped
    } else {
        line
    }
}

/// Borrowed texts, as characters.
pub open spec fn strs_of(texts: Seq<&str>) -> Seq<Seq<char>> {
    texts.map_values(|text: &str| text@)
}

/// The lines of a text.
pub fn split_lines(text: &str) -> (lines: Vec<&str>)
    ensures
        strs_of(lines@) == lines_of(text@),
{
    let mut lines: Vec<&str> = Vec::new();
    let mut rest = text;
    let mut more = true;
    assert(strs_of(lines@) =~= Seq::empty());
    while more
        invariant
            more ==> lines_of(text@) == strs_of(lines@) + lines_of(rest@),
            !more ==> lines_of(text@) == strs_of(lines@),
        decreases rest@.len() + (if more {
            1int
        } else {
            0
        }),
    {
        let ghost before = strs_of(lines@);
        match split_once(rest, "\n") {
            Some((line, tail)) => {
                proof {
                    lemma_rest_is_shorter(rest@);
                }
                lines.push(strip_return(line));
                assert(strs_of(lines@) =~= before.push(without_return(line@)));
                assert(before + (seq![without_return(line@)] + lines_of(tail@)) =~= strs_of(lines@)
                    + lines_of(tail@));
                rest = tail;
            },
            None => {
                if !rest.is_empty() {
                    lines.push(rest);
                    assert(strs_of(lines@) =~= before.push(rest@));
                    assert(before + seq![rest@] =~= strs_of(lines@));
                } else {
                    assert(before + Seq::<Seq<char>>::empty() =~= before);
                }
                more = false;
            },
        }
    }
    lines
}

/// What a line says of the quota, if anything.
pub open spec fn line_seen(line: Seq<char>) -> Seq<ObservationModel> {
    match session_line_observation(line) {
        Some(observation) => seq![observation],
        None => Seq::empty(),
    }
}

/// What the lines say of the quota, from the last to the first.
pub open spec fn lines_seen(lines: Seq<Seq<char>>) -> Seq<ObservationModel>
    decreases lines.len(),
{
    if lines.len() == 0 {
        Seq::empty()
    } else {
        line_seen(lines.last()) + lines_seen(lines.drop_last())
    }
}

/// What the texts of session files say of the quota, file by file.
pub open spec fn texts_seen(texts: Seq<Seq<char>>) -> Seq<ObservationModel>
    decreases texts.len(),
{
    if texts.len() == 0 {
        Seq::empty()
    } else {
        texts_seen(texts.drop_last()) + lines_seen(lines_of(texts.last()))
    }
}

/// Observations, mathematically.
pub open spec fn observations_of(observations: Seq<DirectQuotaObservation>) -> Seq<ObservationModel> {
    observations.map_values(|observation: DirectQuotaObservation| observation@)
}

/// Adds what the lines of a text say of the quota, from the last to the first.
fn read_text(text: &str, seen: &mut Vec<DirectQuotaObservation>)
    ensures
        observations_of(final(seen)@) == observations_of(old(seen)@) + lines_seen(lines_of(text@)),
{
    let lines = split_lines(text);
    let ghost all = strs_of(lines@);
    let ghost total = observations_of(seen@) + lines_seen(all);
    let mut left: usize = lines.len();
    assert(all.take(left as int) =~= all);
    while left > 0
        invariant
            all == strs_of(lines@),
            left <= lines@.len(),
            total == observations_of(seen@) + lines_seen(all.take(left as int)),
        decreases left,
    {
        let line = lines[left - 1];
        let ghost before = observations_of(seen@);
        let ghost rest = lines_seen(all.take(left - 1));
        proof {
            assert(all.take(left as int).last() == line@);
            assert(all.take(left as int).drop_last() =~= all.take(left - 1));
        }
        if let Some(observation) = parse_direct_quota_observation_from_session_line(line) {
            seen.push(observation);
            assert(observations_of(seen@) =~= before.push(observation@));
        }
        assert(before + (line_seen(line@) + rest) =~= observations_of(seen@) + rest);
        left = left - 1;
    }
    assert(total =~= observations_of(seen@));
}

/// What the texts of session files say of the quota, file by file, each from its last line to its
/// first.
pub fn observations_in_sessions(texts: &Vec<String>) -> (seen: Vec<DirectQuotaObservation>)
    ensures
        observations_of(seen@) == texts_seen(strings_of(texts@)),
{
    let ghost all = strings_of(texts@);
    let mut seen: Vec<DirectQuotaObservation> = Vec::new();
    let total = texts.len();
    let mut at: usize = 0;
    assert(observations_of(seen@) =~= Seq::empty());
    while at < total
        invariant
            all == strings_of(texts@),
            total == texts@.len() == all.len(),
            at <= total,
            observations_of(seen@) == texts_seen(all.take(at as int)),
        decreases total - at,
    {
        proof {
            assert(all.take(at + 1).last() == texts@[at as int]@);
            assert(all.take(at + 1).drop_last() =~= all.take(at as int));
        }
        read_text(texts[at].as_str(), &mut seen);
        at = at + 1;
    }
    assert(all.take(at as int) =~= all);
    seen
}

/// The observations that are not older than a time, in their order.
pub open spec fn not_before(observations: Seq<ObservationModel>, since_seconds: i64) -> Seq<
    ObservationModel,
>
    decreases observations.len(),
{
    if observations.len() == 0 {
        Seq::empty()
    } else {
        let kept = not_before(observations.drop_last(), since_seconds);
        if observations.last().observed_at < since_seconds {
            kept
        } else {
            kept.push(observations.last())
        }
    }
}

/// The best of the observations that are not older than a time.
pub fn best_observation_since(seen: Vec<DirectQuotaObservation>, since_seconds: i64) -> (best: Option<
    DirectQuotaObservation,
>)
    ensures
        opt_observation(best) == best_of(not_before(observations_of(seen@), since_seconds)),
{
    let ghost all = observations_of(seen@);
    let mut best: Option<DirectQuotaObservation> = None;
    assert(all.take(0) =~= Seq::empty());
    for observation in iter: seen
        invariant
            iter.seq() == seen@,
            all == observations_of(seen@),
            opt_observation(best) == best_of(
                not_before(all.take(iter.index() as int), since_seconds),
            ),
    {
        let ghost at = iter.index() as int;
        proof {
            let earlier = not_before(all.take(at), since_seconds);
            assert(all.take(at + 1).last() == observation@);
            assert(all.take(at + 1).drop_last() =~= all.take(at));
            assert(earlier.push(observation@).drop_last() =~= earlier);
            assert(earlier.push(observation@).last() == observation@);
        }
        if observation.observed_at >= since_seconds {
            keep_better(&mut best, observation);
        }
    }
    assert(all.take(all.len() as int) =~= all);
    best
}

/// The best of the observations in the texts of session files that are not older than a time.
pub fn latest_direct_quota_observation_from_sessions(texts: &Vec<String>, since_seconds: i64) -> (best:
    Option<DirectQuotaObservation>)
    ensures
        opt_observation(best) == best_of(
            not_before(texts_seen(strings_of(texts@)), since_seconds),
        ),
{
    best_observation_since(observations_in_sessions(texts), since_seconds)
}

} // verus!
