//! Text: what the string operations of this library mean, character by character.
use vstd::prelude::*;

verus! {

/// `needle` stands in `hay` from position `at` on.
pub open spec fn occurs_at(hay: Seq<char>, needle: Seq<char>, at: int) -> bool {
    &&& 0 <= at
    &&& at + needle.len() <= hay.len()
    &&& hay.subrange(at, at + needle.len()) == needle
}

/// `needle` stands somewhere in `hay`.
pub open spec fn has_text(hay: Seq<char>, needle: Seq<char>) -> bool {
    exists|at: int| occurs_at(hay, needle, at)
}

/// `at` is the leftmost position at which `needle` stands in `hay`.
pub open spec fn is_first_at(hay: Seq<char>, needle: Seq<char>, at: int) -> bool {
    &&& occurs_at(hay, needle, at)
    &&& forall|earlier: int| earlier < at ==> !occurs_at(hay, needle, earlier)
}

/// What follows the first `needle` in `hay`, if there is one.
pub open spec fn after_first(hay: Seq<char>, needle: Seq<char>) -> Option<Seq<char>> {
    if has_text(hay, needle) {
        let at = choose|at: int| is_first_at(hay, needle, at);
        Some(hay.skip(at + needle.len()))
    } else {
        None
    }
}

/// What precedes the first `needle` in `hay`, if there is one.
pub open spec fn before_first(hay: Seq<char>, needle: Seq<char>) -> Option<Seq<char>> {
    if has_text(hay, needle) {
        let at = choose|at: int| is_first_at(hay, needle, at);
        Some(hay.take(at))
    } else {
        None
    }
}

/// There is only one leftmost position.
pub proof fn lemma_first_is_unique(hay: Seq<char>, needle: Seq<char>, at: int)
    requires
        is_first_at(hay, needle, at),
    ensures
        has_text(hay, needle),
        after_first(hay, needle) == Some(hay.skip(at + needle.len())),
        before_first(hay, needle) == Some(hay.take(at)),
{
    let chosen = choose|k: int| is_first_at(hay, needle, k);
    assert(is_first_at(hay, needle, chosen));
    assert(chosen == at);
}

/// A needle that occurs has a leftmost occurrence.
pub proof fn lemma_first_exists(hay: Seq<char>, needle: Seq<char>, at: int)
    requires
        occurs_at(hay, needle, at),
    ensures
        exists|first: int| is_first_at(hay, needle, first),
    decreases at,
{
    if !is_first_at(hay, needle, at) {
        let earlier = choose|earlier: int| earlier < at && occurs_at(hay, needle, earlier);
        lemma_first_exists(hay, needle, earlier);
    }
}

/// Unicode white space (the property `White_Space`).
pub open spec fn is_space(c: char) -> bool {
    ||| 0x9 <= c as u32 <= 0xd
    ||| c as u32 == 0x20
    ||| c as u32 == 0x85
    ||| c as u32 == 0xa0
    ||| c as u32 == 0x1680
    ||| 0x2000 <= c as u32 <= 0x200a
    ||| c as u32 == 0x2028
    ||| c as u32 == 0x2029
    ||| c as u32 == 0x202f
    ||| c as u32 == 0x205f
    ||| c as u32 == 0x3000
}

/// `text` without its leading white space.
pub open spec fn trim_start_of(text: Seq<char>) -> Seq<char>
    decreases text.len(),
{
    if text.len() > 0 && is_space(text[0]) {
        trim_start_of(text.skip(1))
    } else {
        text
    }
}

/// `text` without its trailing white space.
pub open spec fn trim_end_of(text: Seq<char>) -> Seq<char>
    decreases text.len(),
{
    if text.len() > 0 && is_space(text.last()) {
        trim_end_of(text.drop_last())
    } else {
        text
    }
}

/// `text` without the white space on both sides.
pub open spec fn trim_of(text: Seq<char>) -> Seq<char> {
    trim_end_of(trim_start_of(text))
}

/// `text` without the characters `mark` at its end.
pub open spec fn trim_end_matches_of(text: Seq<char>, mark: char) -> Seq<char>
    decreases text.len(),
{
    if text.len() > 0 && text.last() == mark {
        trim_end_matches_of(text.drop_last(), mark)
    } else {
        text
    }
}

/// An ASCII capital becomes its small letter; nothing else changes.
pub open spec fn lower_char(c: char) -> char {
    if 'A' <= c <= 'Z' {
        ((c as u32 + 32) as u32) as char
    } else {
        c
    }
}

/// `text` with its ASCII capitals made small.
pub open spec fn lower_of(text: Seq<char>) -> Seq<char> {
    text.map_values(|c: char| lower_char(c))
}

pub open spec fn is_digit(c: char) -> bool {
    '0' <= c <= '9'
}

/// The number that a row of decimal digits spells.
pub open spec fn digits_value(text: Seq<char>) -> nat
    decreases text.len(),
{
    if text.len() == 0 {
        0
    } else {
        10 * digits_value(text.drop_last()) + (text.last() as u32 - '0' as u32) as nat
    }
}

/// One or more decimal digits, and nothing else.
pub open spec fn is_digits(text: Seq<char>) -> bool {
    &&& text.len() > 0
    &&& forall|i: int| 0 <= i < text.len() ==> is_digit(#[trigger] text[i])
}

/// The integer that `text` spells: decimal digits behind an optional sign, within 64 bits.
pub open spec fn i64_of(text: Seq<char>) -> Option<i64> {
    let negative = text.len() > 0 && text[0] == '-';
    let signed = negative || (text.len() > 0 && text[0] == '+');
    let digits = if signed {
        text.skip(1)
    } else {
        text
    };
    let value = if negative {
        -(digits_value(digits) as int)
    } else {
        digits_value(digits) as int
    };
    if is_digits(digits) && i64::MIN <= value <= i64::MAX {
        Some(value as i64)
    } else {
        None
    }
}

/// The decimal digits of a natural number, without leading zeros.
pub open spec fn nat_digits(value: nat) -> Seq<char>
    decreases value,
{
    let digit = ('0' as u32 + (value % 10) as u32) as char;
    if value < 10 {
        seq![digit]
    } else {
        nat_digits(value / 10).push(digit)
    }
}

/// How an integer is written in decimal.
pub open spec fn decimal_of(value: int) -> Seq<char> {
    if value < 0 {
        seq!['-'] + nat_digits((-value) as nat)
    } else {
        nat_digits(value as nat)
    }
}

/// The digits of a number spell it.
pub proof fn lemma_digits_spell(value: nat)
    ensures
        is_digits(nat_digits(value)),
        digits_value(nat_digits(value)) == value,
    decreases value,
{
    let digit = ('0' as u32 + (value % 10) as u32) as char;
    assert(is_digit(digit));
    assert((digit as u32 - '0' as u32) as nat == value % 10);
    if value < 10 {
        let digits = nat_digits(value);
        assert(digits =~= seq![digit]);
        assert(digits.drop_last() =~= Seq::empty());
        assert(digits.last() == digit);
        assert(digits_value(digits.drop_last()) == 0);
    } else {
        lemma_digits_spell(value / 10);
        let digits = nat_digits(value);
        assert(digits == nat_digits(value / 10).push(digit));
        assert(digits.drop_last() =~= nat_digits(value / 10));
        assert(digits.last() == digit);
    }
}

/// An integer written in decimal reads back as itself.
pub proof fn decimal_reads_back(value: i64)
    ensures
        i64_of(decimal_of(value as int)) == Some(value),
{
    let text = decimal_of(value as int);
    if value < 0 {
        lemma_digits_spell((-(value as int)) as nat);
        assert(text[0] == '-');
        assert(text.skip(1) =~= nat_digits((-(value as int)) as nat));
    } else {
        lemma_digits_spell(value as nat);
        assert(is_digit(text[0]));
    }
}

/// A text, or none, as characters.
pub open spec fn opt_text(text: Option<String>) -> Option<Seq<char>> {
    match text {
        Some(text) => Some(text@),
        None => None,
    }
}

/// A borrowed text, or none, as characters.
pub open spec fn opt_str(text: Option<&str>) -> Option<Seq<char>> {
    match text {
        Some(text) => Some(text@),
        None => None,
    }
}

/// `str::contains` with a string as its pattern: whether the pattern occurs as a part of the
/// text.
#[verifier::external_body]
pub(crate) fn contains(hay: &str, needle: &str) -> (found: bool)
    ensures
        found == has_text(hay@, needle@),
{
    hay.contains(needle)
}

/// `str::split_once` with a string as its delimiter: the parts before and after the first
/// occurrence of the delimiter, or nothing where it does not occur.
#[verifier::external_body]
pub(crate) fn split_once<'a>(text: &'a str, delimiter: &str) -> (parts: Option<(&'a str, &'a str)>)
    ensures
        match parts {
            Some((before, after)) => {
                &&& before_first(text@, delimiter@) == Some(before@)
                &&& after_first(text@, delimiter@) == Some(after@)
            },
            None => !has_text(text@, delimiter@),
        },
{
    text.split_once(delimiter)
}

/// `str::trim`: the text without leading and trailing Unicode white space.
#[verifier::external_body]
pub(crate) fn trim(text: &str) -> (trimmed: &str)
    ensures
        trimmed@ == trim_of(text@),
{
    text.trim()
}

/// `str::trim_start`: the text without leading Unicode white space.
#[verifier::external_body]
pub(crate) fn trim_start(text: &str) -> (trimmed: &str)
    ensures
        trimmed@ == trim_start_of(text@),
{
    text.trim_start()
}

/// `str::trim_end_matches` with a character as its pattern: the text without that character at
/// its end, however often it stands there.
#[verifier::external_body]
pub(crate) fn trim_end_matches(text: &str, mark: char) -> (trimmed: &str)
    ensures
        trimmed@ == trim_end_matches_of(text@, mark),
{
    text.trim_end_matches(mark)
}

/// `str::to_ascii_lowercase`: the ASCII letters A to Z become a to z, all else stays.
#[verifier::external_body]
pub(crate) fn to_ascii_lowercase(text: &str) -> (lower: String)
    ensures
        lower@ == lower_of(text@),
{
    text.to_ascii_lowercase()
}

/// `str::parse` into an `i64`: an optional sign and decimal digits, within range.
#[verifier::external_body]
pub(crate) fn parse_i64(text: &str) -> (value: Option<i64>)
    ensures
        value == i64_of(text@),
{
    text.parse::<i64>().ok()
}

/// `ToString::to_string` of an `i128`: its decimal digits, behind a minus sign if it is negative.
#[verifier::external_body]
pub(crate) fn decimal(value: i128) -> (digits: String)
    ensures
        digits@ == decimal_of(value as int),
{
    value.to_string()
}

/// Whether a character is Unicode white space.
pub fn is_white_space(c: char) -> (space: bool)
    ensures
        space == is_space(c),
{
    let code = c as u32;
    (0x9 <= code && code <= 0xd) || code == 0x20 || code == 0x85 || code == 0xa0 || code == 0x1680 || (
    0x2000 <= code && code <= 0x200a) || code == 0x2028 || code == 0x2029 || code == 0x202f || code
        == 0x205f || code == 0x3000
}

/// Whether two texts hold the same characters.
pub fn same_text(left: &str, right: &str) -> (same: bool)
    ensures
        same == (left@ == right@),
{
    left.to_owned() == right.to_owned()
}

/// `left` comes before `right` in the order of texts: by the first characters that differ, and a
/// text after its own beginnings.
pub open spec fn precedes(left: Seq<char>, right: Seq<char>) -> bool
    decreases left.len(),
{
    if right.len() == 0 {
        false
    } else if left.len() == 0 {
        true
    } else if left[0] == right[0] {
        precedes(left.skip(1), right.skip(1))
    } else {
        left[0] < right[0]
    }
}

/// Whether a text comes before another.
pub fn comes_before(left: &str, right: &str) -> (before: bool)
    ensures
        before == precedes(left@, right@),
{
    let left_length = left.unicode_len();
    let right_length = right.unicode_len();
    let mut at: usize = 0;
    assert(left@.skip(0) =~= left@);
    assert(right@.skip(0) =~= right@);
    while at < left_length && at < right_length
        invariant
            left_length == left@.len(),
            right_length == right@.len(),
            at <= left_length,
            at <= right_length,
            precedes(left@, right@) == precedes(left@.skip(at as int), right@.skip(at as int)),
        decreases left_length - at,
    {
        let first = left.get_char(at);
        let second = right.get_char(at);
        assert(left@.skip(at as int)[0] == first);
        assert(right@.skip(at as int)[0] == second);
        if first != second {
            return first < second;
        }
        assert(left@.skip(at as int).skip(1) =~= left@.skip(at + 1));
        assert(right@.skip(at as int).skip(1) =~= right@.skip(at + 1));
        at = at + 1;
    }
    at < right_length
}

/// Of three texts, the first comes before the last if it comes before the second and that before
/// the last.
pub proof fn precedes_is_transitive(first: Seq<char>, second: Seq<char>, third: Seq<char>)
    requires
        precedes(first, second),
        precedes(second, third),
    ensures
        precedes(first, third),
    decreases first.len(),
{
    if first.len() > 0 && first[0] == second[0] && second[0] == third[0] {
        precedes_is_transitive(first.skip(1), second.skip(1), third.skip(1));
    }
}

/// Of two different texts, one comes before the other, and only one.
pub proof fn precedes_is_total(left: Seq<char>, right: Seq<char>)
    ensures
        precedes(left, right) || precedes(right, left) || left == right,
        !(precedes(left, right) && precedes(right, left)),
        left == right ==> !precedes(left, right),
    decreases left.len(),
{
    if left.len() > 0 && right.len() > 0 && left[0] == right[0] {
        precedes_is_total(left.skip(1), right.skip(1));
        assert(left =~= seq![left[0]] + left.skip(1));
        assert(right =~= seq![right[0]] + right.skip(1));
    } else if left.len() == 0 && right.len() == 0 {
        assert(left =~= right);
    }
}

/// Of two texts that are alike up to some place, the one with the lesser character there comes first.
pub proof fn lemma_precedes_at(left: Seq<char>, right: Seq<char>, at: int)
    requires
        0 <= at < left.len(),
        at < right.len(),
        left.take(at) =~= right.take(at),
        left[at] < right[at],
    ensures
        precedes(left, right),
    decreases at,
{
    if at > 0 {
        assert(left[0] == left.take(at)[0]);
        assert(right[0] == right.take(at)[0]);
        assert(left.skip(1).take(at - 1) =~= left.take(at).skip(1));
        assert(right.skip(1).take(at - 1) =~= right.take(at).skip(1));
        lemma_precedes_at(left.skip(1), right.skip(1), at - 1);
    }
}

/// Whether two texts are the same but for the case of ASCII letters.
pub fn same_ignoring_case(left: &str, right: &str) -> (same: bool)
    ensures
        same == (lower_of(left@) == lower_of(right@)),
{
    to_ascii_lowercase(left) == to_ascii_lowercase(right)
}

/// Whether an optional text is the text `expected`.
pub fn is_text(text: Option<&str>, expected: &str) -> (same: bool)
    ensures
        same == (opt_str(text) == Some(expected@)),
{
    match text {
        Some(text) => same_text(text, expected),
        None => false,
    }
}

/// The text of an option, borrowed.
pub fn as_text(text: &Option<String>) -> (borrowed: Option<&str>)
    ensures
        opt_str(borrowed) == opt_text(*text),
{
    match text {
        Some(text) => Some(text.as_str()),
        None => None,
    }
}

/// Texts, as characters.
pub open spec fn strings_of(texts: Seq<String>) -> Seq<Seq<char>> {
    texts.map_values(|text: String| text@)
}

/// Whether a text is among others.
pub fn is_listed(texts: &[String], text: &str) -> (listed: bool)
    ensures
        listed == strings_of(texts@).contains(text@),
{
    let ghost all = strings_of(texts@);
    let total = texts.len();
    let mut at: usize = 0;
    while at < total
        invariant
            all == strings_of(texts@),
            total == texts@.len() == all.len(),
            at <= total,
            forall|i: int| 0 <= i < at ==> #[trigger] all[i] != text@,
        decreases total - at,
    {
        assert(all[at as int] == texts@[at as int]@);
        if same_text(texts[at].as_str(), text) {
            return true;
        }
        at = at + 1;
    }
    false
}

/// Two texts, one behind the other.
pub fn joined(left: &str, right: &str) -> (text: String)
    ensures
        text@ == left@ + right@,
{
    let mut text = left.to_owned();
    text.append(right);
    text
}

} // verus!
