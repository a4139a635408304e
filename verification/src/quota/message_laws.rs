//! What is written into an error message is found there again.
use vstd::prelude::*;

use crate::quota::messages::{
    api_error_text, bracketed, error_code_in, marked_i64, opt_unix_seconds, tagged_i64, tagged_text,
};
use crate::models::codex::QuotaModel;
use crate::quota::snapshot::snapshot_of_message;
use crate::text::{
    after_first, decimal_of, decimal_reads_back, has_text, is_digit, is_first_at,
    lemma_digits_spell, lemma_first_exists, lemma_first_is_unique, nat_digits, occurs_at,
};

verus! {

/// A marker as it stands in a message: a bracket is opened, and nothing in it could end another.
spec fn is_marker(marker: Seq<char>) -> bool {
    &&& marker.len() > 0
    &&& marker[0] == '['
    &&& forall|i: int| 0 < i < marker.len() ==> #[trigger] marker[i] != '['
    &&& forall|i: int| 0 <= i < marker.len() ==> #[trigger] marker[i] != ' ' && marker[i] != ']'
}

/// Two markers differ in some place that both have.
spec fn differ(first: Seq<char>, second: Seq<char>) -> bool {
    exists|i: int| 0 <= i < first.len() && i < second.len() && #[trigger] first[i] != #[trigger] second[i]
}

/// The text does not hold the marker, and nothing behind it could complete one.
spec fn is_clear(text: Seq<char>, marker: Seq<char>) -> bool {
    &&& !has_text(text, marker)
    &&& text.len() > 0
    &&& text.last() == ' '
}

/// The characters of a needle stand one by one where it occurs.
proof fn lemma_chars(hay: Seq<char>, needle: Seq<char>, at: int)
    requires
        occurs_at(hay, needle, at),
    ensures
        forall|i: int| 0 <= i < needle.len() ==> #[trigger] needle[i] == hay[at + i],
{
    let part = hay.subrange(at, at + needle.len());
    assert forall|i: int| 0 <= i < needle.len() implies #[trigger] needle[i] == hay[at + i] by {
        assert(part[i] == hay[at + i]);
    }
}

/// A needle occurs behind a text where it occurs in what follows it.
proof fn lemma_shift(text: Seq<char>, rest: Seq<char>, needle: Seq<char>, at: int)
    ensures
        at >= 0 ==> occurs_at(text + rest, needle, text.len() + at) == occurs_at(rest, needle, at),
{
    if at >= 0 && at + needle.len() <= rest.len() {
        assert((text + rest).subrange(text.len() + at, text.len() + at + needle.len())
            =~= rest.subrange(at, at + needle.len()));
    }
}

/// Behind a clear text a marker is found where it is found in what follows.
#[verifier::spinoff_prover]
proof fn lemma_behind(text: Seq<char>, rest: Seq<char>, marker: Seq<char>)
    requires
        is_marker(marker),
        is_clear(text, marker),
    ensures
        has_text(text + rest, marker) == has_text(rest, marker),
        after_first(text + rest, marker) == after_first(rest, marker),
{
    let whole = text + rest;
    assert forall|at: int| 0 <= at < text.len() implies !#[trigger] occurs_at(whole, marker, at) by {
        if occurs_at(whole, marker, at) {
            lemma_chars(whole, marker, at);
            if at + marker.len() <= text.len() {
                assert(whole.subrange(at, at + marker.len()) =~= text.subrange(
                    at,
                    at + marker.len(),
                ));
                assert(occurs_at(text, marker, at));
            } else {
                let blank = text.len() - 1 - at;
                assert(marker[blank] == whole[at + blank]);
            }
        }
    }
    if has_text(rest, marker) {
        let some = choose|at: int| occurs_at(rest, marker, at);
        lemma_first_exists(rest, marker, some);
        let first = choose|at: int| is_first_at(rest, marker, at);
        lemma_first_is_unique(rest, marker, first);
        lemma_shift(text, rest, marker, first);
        assert forall|earlier: int| earlier < text.len() + first implies !occurs_at(
            whole,
            marker,
            earlier,
        ) by {
            if earlier >= text.len() {
                lemma_shift(text, rest, marker, earlier - text.len());
            }
        }
        lemma_first_is_unique(whole, marker, text.len() + first);
        assert(whole.skip(text.len() + first + marker.len()) =~= rest.skip(first + marker.len()));
    } else if has_text(whole, marker) {
        let at = choose|at: int| occurs_at(whole, marker, at);
        lemma_shift(text, rest, marker, at - text.len());
        assert(occurs_at(rest, marker, at - text.len()));
    }
}

/// A clear text followed by another that does not hold the marker and ends with a blank is clear.
proof fn lemma_clear_joined(text: Seq<char>, rest: Seq<char>, marker: Seq<char>)
    requires
        is_marker(marker),
        is_clear(text, marker),
        !has_text(rest, marker),
        rest.len() > 0 ==> rest.last() == ' ',
    ensures
        is_clear(text + rest, marker),
{
    lemma_behind(text, rest, marker);
    if rest.len() == 0 {
        assert(text + rest =~= text);
    }
}

/// A text followed by a blank holds the marker only if the text does.
proof fn lemma_with_blank(text: Seq<char>, marker: Seq<char>)
    requires
        is_marker(marker),
        !has_text(text, marker),
    ensures
        is_clear(text + seq![' '], marker),
{
    let whole = text + seq![' '];
    if has_text(whole, marker) {
        let at = choose|at: int| occurs_at(whole, marker, at);
        lemma_chars(whole, marker, at);
        if at + marker.len() <= text.len() {
            assert(whole.subrange(at, at + marker.len()) =~= text.subrange(at, at + marker.len()));
            assert(occurs_at(text, marker, at));
        } else {
            let blank = text.len() - at;
            assert(marker[blank] == whole[at + blank]);
        }
    }
}

/// The tag of an optional value, without the blank before it and with the one behind it.
spec fn block(marker: Seq<char>, value: Option<Seq<char>>) -> Seq<char> {
    match value {
        Some(value) => marker + value + seq![']'] + seq![' '],
        None => Seq::empty(),
    }
}

/// A tag holds another marker only if its value does.
#[verifier::spinoff_prover]
proof fn lemma_tag(tag: Seq<char>, value: Seq<char>, tail: Seq<char>, marker: Seq<char>)
    requires
        is_marker(tag),
        is_marker(marker),
        differ(tag, marker),
        !has_text(value, marker),
        tail == seq![']'] || tail == seq![']', ' '],
    ensures
        !has_text(tag + value + tail, marker),
{
    let whole = tag + value + tail;
    if has_text(whole, marker) {
        let at = choose|at: int| occurs_at(whole, marker, at);
        lemma_chars(whole, marker, at);
        assert(marker[0] == whole[at + 0]);
        if at == 0 {
            let i = choose|i: int|
                0 <= i < tag.len() && i < marker.len() && #[trigger] tag[i] != #[trigger] marker[i];
            assert(marker[i] == whole[at + i]);
        } else if at < tag.len() {
            assert(whole[at] == tag[at]);
        } else if at + marker.len() <= tag.len() + value.len() {
            let inner = at - tag.len();
            assert(value.subrange(inner, inner + marker.len()) =~= whole.subrange(
                at,
                at + marker.len(),
            ));
            assert(occurs_at(value, marker, inner));
        } else if at < tag.len() + value.len() {
            let bracket = tag.len() + value.len() - at;
            assert(marker[bracket] == whole[at + bracket]);
            assert(whole[at + bracket] == ']');
        } else {
            assert(whole[at] == ']' || whole[at] == ' ');
        }
    }
}

/// The block of a tag does not hold another marker if its value does not.
proof fn lemma_block(tag: Seq<char>, value: Option<Seq<char>>, marker: Seq<char>)
    requires
        is_marker(tag),
        is_marker(marker),
        differ(tag, marker),
        value matches Some(value) ==> !has_text(value, marker),
    ensures
        !has_text(block(tag, value), marker),
        block(tag, value).len() > 0 ==> block(tag, value).last() == ' ',
{
    match value {
        Some(value) => {
            lemma_tag(tag, value, seq![']', ' '], marker);
            assert(block(tag, Some(value)) =~= tag + value + seq![']', ' ']);
        },
        None => {
            if has_text(block(tag, value), marker) {
                let at = choose|at: int| occurs_at(block(tag, value), marker, at);
                assert(occurs_at(block(tag, value), marker, at));
            }
        },
    }
}

/// An integer in decimal holds no bracket.
proof fn lemma_decimal(value: int)
    ensures
        forall|i: int|
            0 <= i < decimal_of(value).len() ==> #[trigger] decimal_of(value)[i] != '['
                && decimal_of(value)[i] != ']',
{
    let digits = nat_digits(
        if value < 0 {
            (-value) as nat
        } else {
            value as nat
        },
    );
    lemma_digits_spell(
        if value < 0 {
            (-value) as nat
        } else {
            value as nat
        },
    );
    assert forall|i: int| 0 <= i < decimal_of(value).len() implies #[trigger] decimal_of(value)[i]
        != '[' && decimal_of(value)[i] != ']' by {
        if value < 0 {
            if i > 0 {
                assert(is_digit(digits[i - 1]));
            }
        } else {
            assert(is_digit(digits[i]));
        }
    }
}

/// A text without opening brackets holds no marker.
proof fn lemma_no_bracket(text: Seq<char>, marker: Seq<char>)
    requires
        is_marker(marker),
        forall|i: int| 0 <= i < text.len() ==> #[trigger] text[i] != '[',
    ensures
        !has_text(text, marker),
{
    if has_text(text, marker) {
        let at = choose|at: int| occurs_at(text, marker, at);
        lemma_chars(text, marker, at);
        assert(marker[0] == text[at + 0]);
    }
}

/// A bracketed value behind a clear text is found again.
#[verifier::spinoff_prover]
proof fn lemma_found(text: Seq<char>, marker: Seq<char>, value: Seq<char>, rest: Seq<char>)
    requires
        is_marker(marker),
        is_clear(text, marker),
        forall|i: int| 0 <= i < value.len() ==> #[trigger] value[i] != ']',
    ensures
        has_text(text + (marker + value + seq![']'] + rest), marker),
        bracketed(text + (marker + value + seq![']'] + rest), marker) == Some(value),
{
    let tail = marker + value + seq![']'] + rest;
    lemma_behind(text, tail, marker);
    assert(tail.subrange(0, marker.len() as int) =~= marker);
    assert(occurs_at(tail, marker, 0));
    assert(is_first_at(tail, marker, 0));
    lemma_first_is_unique(tail, marker, 0);
    let behind = value + seq![']'] + rest;
    assert(tail.skip(marker.len() as int) =~= behind);
    reveal_strlit("]");
    let bracket = "]"@;
    assert(bracket =~= seq![']']);
    assert(behind.subrange(value.len() as int, value.len() as int + 1) =~= bracket);
    assert(occurs_at(behind, bracket, value.len() as int));
    assert forall|earlier: int| earlier < value.len() implies !occurs_at(behind, bracket, earlier) by {
        if occurs_at(behind, bracket, earlier) {
            lemma_chars(behind, bracket, earlier);
            assert(bracket[0] == behind[earlier + 0]);
        }
    }
    lemma_first_is_unique(behind, bracket, value.len() as int);
    assert(behind.take(value.len() as int) =~= value);
}

/// An optional integer in decimal.
spec fn opt_decimal(value: Option<i64>) -> Option<Seq<char>> {
    match value {
        Some(value) => Some(decimal_of(value as int)),
        None => None,
    }
}

/// The start of a message, up to its first tag.
spec fn message_start(status: Seq<char>) -> Seq<char> {
    "API 返回错误 "@ + (status + seq![' '])
}

/// The end of a message.
spec fn message_end(body_length: int) -> Seq<char> {
    "[body_len:"@ + decimal_of(body_length) + seq![']']
}

/// A message, block by block.
#[verifier::spinoff_prover]
proof fn lemma_message_in_blocks(
    status: Seq<char>,
    code: Option<Seq<char>>,
    reset_at: Option<i64>,
    reset_after_seconds: Option<i64>,
    body_length: int,
)
    ensures
        api_error_text(status, code, reset_at, reset_after_seconds, body_length) == message_start(
            status,
        ) + block("[error_code:"@, code) + block("[reset_at:"@, opt_decimal(reset_at)) + block(
            "[reset_after_seconds:"@,
            opt_decimal(reset_after_seconds),
        ) + message_end(body_length),
{
    reveal_strlit(" ");
    reveal_strlit("]");
    reveal_strlit(" [body_len:");
    reveal_strlit("[body_len:");
    let blank = seq![' '];
    assert(" "@ =~= blank);
    assert("]"@ =~= seq![']']);
    assert(" [body_len:"@ =~= blank + "[body_len:"@);
    let start = "API 返回错误 "@ + status;
    let coded = tagged_text("[error_code:"@, code);
    let dated = tagged_i64("[reset_at:"@, reset_at);
    let timed = tagged_i64("[reset_after_seconds:"@, reset_after_seconds);
    let code_block = block("[error_code:"@, code);
    let at_block = block("[reset_at:"@, opt_decimal(reset_at));
    let after_block = block("[reset_after_seconds:"@, opt_decimal(reset_after_seconds));
    assert(coded + blank =~= blank + code_block);
    assert(dated + blank =~= blank + at_block);
    assert(timed + blank =~= blank + after_block);
    let end = decimal_of(body_length) + "]"@;
    let text = api_error_text(status, code, reset_at, reset_after_seconds, body_length);
    assert(text =~= start + coded + dated + (timed + blank) + ("[body_len:"@ + end));
    assert(start + coded + dated + (blank + after_block) =~= start + coded + (dated + blank)
        + after_block);
    assert(start + coded + (blank + at_block) + after_block =~= start + (coded + blank) + at_block
        + after_block);
    assert(start + (blank + code_block) =~= message_start(status) + code_block);
    assert("[body_len:"@ + end =~= message_end(body_length));
}

/// The markers of a message, and that they differ.
proof fn lemma_markers()
    ensures
        is_marker("[error_code:"@),
        is_marker("[reset_at:"@),
        is_marker("[reset_after_seconds:"@),
        is_marker("[body_len:"@),
        differ("[error_code:"@, "[reset_at:"@),
        differ("[error_code:"@, "[reset_after_seconds:"@),
        differ("[reset_at:"@, "[reset_after_seconds:"@),
        differ("[reset_at:"@, "[error_code:"@),
        differ("[reset_after_seconds:"@, "[reset_at:"@),
        differ("[reset_after_seconds:"@, "[error_code:"@),
        differ("[body_len:"@, "[error_code:"@),
        differ("[body_len:"@, "[reset_at:"@),
        differ("[body_len:"@, "[reset_after_seconds:"@),
{
    reveal_strlit("[error_code:");
    reveal_strlit("[reset_at:");
    reveal_strlit("[reset_after_seconds:");
    reveal_strlit("[body_len:");
    assert("[error_code:"@[1] != "[reset_at:"@[1]);
    assert("[error_code:"@[1] != "[reset_after_seconds:"@[1]);
    assert("[reset_at:"@[8] != "[reset_after_seconds:"@[8]);
    assert("[body_len:"@[1] != "[error_code:"@[1]);
    assert("[body_len:"@[1] != "[reset_at:"@[1]);
    assert("[body_len:"@[1] != "[reset_after_seconds:"@[1]);
}

/// The start of a message is clear of a marker that the status does not hold.
proof fn lemma_start(status: Seq<char>, marker: Seq<char>)
    requires
        is_marker(marker),
        !has_text(status, marker),
    ensures
        is_clear(message_start(status), marker),
{
    reveal_strlit("API 返回错误 ");
    lemma_no_bracket("API 返回错误 "@, marker);
    lemma_with_blank(status, marker);
    lemma_clear_joined("API 返回错误 "@, status + seq![' '], marker);
}

/// The end of a message holds none of the other markers.
proof fn lemma_end(body_length: int, marker: Seq<char>)
    requires
        is_marker(marker),
        is_marker("[body_len:"@),
        differ("[body_len:"@, marker),
    ensures
        !has_text(message_end(body_length), marker),
{
    lemma_decimal(body_length);
    lemma_no_bracket(decimal_of(body_length), marker);
    lemma_tag("[body_len:"@, decimal_of(body_length), seq![']'], marker);
}

/// The block of an optional integer holds no other marker.
proof fn lemma_integer_block(tag: Seq<char>, value: Option<i64>, marker: Seq<char>)
    requires
        is_marker(tag),
        is_marker(marker),
        differ(tag, marker),
    ensures
        !has_text(block(tag, opt_decimal(value)), marker),
        block(tag, opt_decimal(value)).len() > 0 ==> block(tag, opt_decimal(value)).last() == ' ',
{
    if let Some(value) = value {
        lemma_decimal(value as int);
        lemma_no_bracket(decimal_of(value as int), marker);
    }
    lemma_block(tag, opt_decimal(value), marker);
}

/// A block in a message, regrouped around its value.
proof fn lemma_regroup(before: Seq<char>, marker: Seq<char>, value: Seq<char>, rest: Seq<char>)
    ensures
        before + block(marker, Some(value)) + rest == before + (marker + value + seq![']'] + (seq![
            ' ',
        ] + rest)),
{
    assert(before + block(marker, Some(value)) + rest =~= before + (marker + value + seq![']'] + (
    seq![' '] + rest)));
}

/// Three texts in a row, regrouped.
proof fn lemma_associate(first: Seq<char>, second: Seq<char>, third: Seq<char>)
    ensures
        first + second + third == first + (second + third),
{
    assert(first + second + third =~= first + (second + third));
}

/// When a quota resets is found again in the message that it was written into, or not at all if it
/// was not, unless the status or the error code bears the mark of it.
#[verifier::spinoff_prover]
pub proof fn reset_time_is_found_again(
    status: Seq<char>,
    code: Option<Seq<char>>,
    reset_at: Option<i64>,
    reset_after_seconds: Option<i64>,
    body_length: int,
)
    requires
        !has_text(status, "[reset_at:"@),
        code matches Some(code) ==> !has_text(code, "[reset_at:"@),
    ensures
        marked_i64(
            api_error_text(status, code, reset_at, reset_after_seconds, body_length),
            "[reset_at:"@,
        ) == reset_at,
{
    let marker = "[reset_at:"@;
    let at_block = block(marker, opt_decimal(reset_at));
    let after_block = block("[reset_after_seconds:"@, opt_decimal(reset_after_seconds));
    let end = message_end(body_length);
    lemma_markers();
    lemma_message_in_blocks(status, code, reset_at, reset_after_seconds, body_length);
    lemma_start(status, marker);
    lemma_block("[error_code:"@, code, marker);
    let before = message_start(status) + block("[error_code:"@, code);
    lemma_clear_joined(message_start(status), block("[error_code:"@, code), marker);
    match reset_at {
        Some(value) => {
            let digits = decimal_of(value as int);
            lemma_decimal(value as int);
            decimal_reads_back(value);
            lemma_found(before, marker, digits, seq![' '] + (after_block + end));
            lemma_regroup(before, marker, digits, after_block + end);
            lemma_associate(before + at_block, after_block, end);
        },
        None => {
            lemma_integer_block("[reset_after_seconds:"@, reset_after_seconds, marker);
            lemma_clear_joined(before, after_block, marker);
            lemma_end(body_length, marker);
            lemma_behind(before + after_block, end, marker);
            assert(before + at_block =~= before);
        },
    }
}

/// In how many seconds a quota resets is found again in the message that it was written into, or
/// not at all if it was not, unless the status or the error code bears the mark of it.
#[verifier::spinoff_prover]
pub proof fn reset_delay_is_found_again(
    status: Seq<char>,
    code: Option<Seq<char>>,
    reset_at: Option<i64>,
    reset_after_seconds: Option<i64>,
    body_length: int,
)
    requires
        !has_text(status, "[reset_after_seconds:"@),
        code matches Some(code) ==> !has_text(code, "[reset_after_seconds:"@),
    ensures
        marked_i64(
            api_error_text(status, code, reset_at, reset_after_seconds, body_length),
            "[reset_after_seconds:"@,
        ) == reset_after_seconds,
{
    let marker = "[reset_after_seconds:"@;
    let at_block = block("[reset_at:"@, opt_decimal(reset_at));
    let after_block = block(marker, opt_decimal(reset_after_seconds));
    let end = message_end(body_length);
    lemma_markers();
    lemma_message_in_blocks(status, code, reset_at, reset_after_seconds, body_length);
    lemma_start(status, marker);
    lemma_block("[error_code:"@, code, marker);
    let coded = message_start(status) + block("[error_code:"@, code);
    lemma_clear_joined(message_start(status), block("[error_code:"@, code), marker);
    lemma_integer_block("[reset_at:"@, reset_at, marker);
    let before = coded + at_block;
    lemma_clear_joined(coded, at_block, marker);
    match reset_after_seconds {
        Some(value) => {
            let digits = decimal_of(value as int);
            lemma_decimal(value as int);
            decimal_reads_back(value);
            lemma_found(before, marker, digits, seq![' '] + end);
            lemma_regroup(before, marker, digits, end);
        },
        None => {
            lemma_end(body_length, marker);
            lemma_behind(before, end, marker);
            assert(before + after_block =~= before);
        },
    }
}

/// An error code is found again in the message that it was written into, unless it holds a closing
/// bracket or the status bears the mark of a code.
#[verifier::spinoff_prover]
pub proof fn error_code_is_found_again(
    status: Seq<char>,
    code: Seq<char>,
    reset_at: Option<i64>,
    reset_after_seconds: Option<i64>,
    body_length: int,
)
    requires
        !has_text(status, "[error_code:"@),
        !has_text(code, "]"@),
    ensures
        error_code_in(
            api_error_text(status, Some(code), reset_at, reset_after_seconds, body_length),
        ) == Some(code),
{
    let marker = "[error_code:"@;
    let code_block = block(marker, Some(code));
    let at_block = block("[reset_at:"@, opt_decimal(reset_at));
    let after_block = block("[reset_after_seconds:"@, opt_decimal(reset_after_seconds));
    let end = message_end(body_length);
    let start = message_start(status);
    lemma_markers();
    lemma_message_in_blocks(status, Some(code), reset_at, reset_after_seconds, body_length);
    lemma_start(status, marker);
    reveal_strlit("]");
    assert("]"@ =~= seq![']']);
    assert forall|i: int| 0 <= i < code.len() implies #[trigger] code[i] != ']' by {
        if code[i] == ']' {
            assert(code.subrange(i, i + 1) =~= "]"@);
            assert(occurs_at(code, "]"@, i));
        }
    }
    lemma_found(start, marker, code, seq![' '] + (at_block + (after_block + end)));
    lemma_regroup(start, marker, code, at_block + (after_block + end));
    lemma_associate(start + code_block, at_block, after_block + end);
    lemma_associate(start + code_block + at_block, after_block, end);
}

/// A tag of an optional integer holds no equals sign.
proof fn lemma_no_equals(marker: Seq<char>, value: Option<i64>)
    requires
        forall|i: int| 0 <= i < marker.len() ==> #[trigger] marker[i] != '=',
    ensures
        forall|i: int|
            0 <= i < tagged_i64(marker, value).len() ==> #[trigger] tagged_i64(marker, value)[i]
                != '=',
{
    reveal_strlit(" ");
    reveal_strlit("]");
    if let Some(number) = value {
        lemma_decimal_no_equals(number as int);
    }
}

/// An integer in decimal holds no equals sign.
proof fn lemma_decimal_no_equals(value: int)
    ensures
        forall|i: int|
            0 <= i < decimal_of(value).len() ==> #[trigger] decimal_of(value)[i] != '=',
{
    let number = if value < 0 {
        (-value) as nat
    } else {
        value as nat
    };
    lemma_digits_spell(number);
    assert forall|i: int| 0 <= i < decimal_of(value).len() implies #[trigger] decimal_of(value)[i]
        != '=' by {
        if value < 0 {
            if i > 0 {
                assert(is_digit(nat_digits(number)[i - 1]));
            }
        } else {
            assert(is_digit(nat_digits(number)[i]));
        }
    }
}

/// Where no error code was written into a message, none is found in it, unless the status bears the
/// mark of one.
#[verifier::spinoff_prover]
pub proof fn missing_error_code_is_not_found(
    status: Seq<char>,
    reset_at: Option<i64>,
    reset_after_seconds: Option<i64>,
    body_length: int,
)
    requires
        !has_text(status, "[error_code:"@),
        !has_text(status, "error_code="@),
    ensures
        error_code_in(
            api_error_text(status, None, reset_at, reset_after_seconds, body_length),
        ) is None,
{
    let marker = "[error_code:"@;
    let text = api_error_text(status, None, reset_at, reset_after_seconds, body_length);
    let start = message_start(status);
    let at_block = block("[reset_at:"@, opt_decimal(reset_at));
    let after_block = block("[reset_after_seconds:"@, opt_decimal(reset_after_seconds));
    let end = message_end(body_length);
    lemma_markers();
    lemma_message_in_blocks(status, None, reset_at, reset_after_seconds, body_length);
    lemma_start(status, marker);
    lemma_integer_block("[reset_at:"@, reset_at, marker);
    lemma_integer_block("[reset_after_seconds:"@, reset_after_seconds, marker);
    lemma_clear_joined(start, at_block, marker);
    lemma_clear_joined(start + at_block, after_block, marker);
    lemma_end(body_length, marker);
    lemma_behind(start + at_block + after_block, end, marker);
    assert(start + block(marker, None) =~= start);
    assert(!has_text(text, marker));

    let mark = "error_code="@;
    let head = "API 返回错误 "@;
    let dated = tagged_i64("[reset_at:"@, reset_at);
    let timed = tagged_i64("[reset_after_seconds:"@, reset_after_seconds);
    let closing = " [body_len:"@ + decimal_of(body_length) + "]"@;
    let tail = dated + timed + closing;
    reveal_strlit("error_code=");
    reveal_strlit("API 返回错误 ");
    reveal_strlit("[reset_at:");
    reveal_strlit("[reset_after_seconds:");
    reveal_strlit(" [body_len:");
    reveal_strlit("]");
    lemma_no_equals("[reset_at:"@, reset_at);
    lemma_no_equals("[reset_after_seconds:"@, reset_after_seconds);
    lemma_decimal_no_equals(body_length);
    assert(tagged_text(marker, None) =~= Seq::empty());
    assert(text =~= head + status + tail);
    assert forall|i: int| 0 <= i < tail.len() implies #[trigger] tail[i] != '=' by {
        if i < dated.len() {
            assert(tail[i] == dated[i]);
        } else if i < dated.len() + timed.len() {
            assert(tail[i] == timed[i - dated.len()]);
        } else {
            let at = i - dated.len() - timed.len();
            assert(tail[i] == closing[at]);
            if 11 <= at < 11 + decimal_of(body_length).len() {
                assert(closing[at] == decimal_of(body_length)[at - 11]);
            }
        }
    }
    if has_text(text, mark) {
        let at = choose|at: int| occurs_at(text, mark, at);
        lemma_chars(text, mark, at);
        let equals = mark.len() - 1;
        assert(mark[equals] == text[at + equals]);
        if at + equals >= head.len() + status.len() {
            assert(text[at + equals] == tail[at + equals - head.len() - status.len()]);
        } else if at + equals < head.len() {
            assert(text[at + equals] == head[at + equals]);
        } else if at < head.len() {
            let blank = head.len() - 1 - at;
            assert(mark[blank] == text[at + blank]);
            assert(text[at + blank] == head[head.len() - 1]);
        } else {
            let inner = at - head.len();
            assert(status.subrange(inner, inner + mark.len()) =~= text.subrange(
                at,
                at + mark.len(),
            ));
            assert(occurs_at(status, mark, inner));
        }
    }
}

/// The snapshot taken of a refused lookup resets when the response said so.
pub proof fn refused_lookup_resets_as_told(
    previous: Option<QuotaModel>,
    status: Seq<char>,
    code: Option<Seq<char>>,
    reset_at: i64,
    reset_after_seconds: Option<i64>,
    body_length: int,
    now: i64,
)
    requires
        !has_text(status, "[reset_at:"@),
        code matches Some(code) ==> !has_text(code, "[reset_at:"@),
    ensures
        ({
            let message = api_error_text(
                status,
                code,
                Some(reset_at),
                reset_after_seconds,
                body_length,
            );
            let snapshot = snapshot_of_message(previous, message, now);
            &&& snapshot.hourly_reset_time == opt_unix_seconds(Some(reset_at))
            &&& snapshot.weekly_reset_time == opt_unix_seconds(Some(reset_at))
            &&& snapshot.hourly_percentage == 0
            &&& snapshot.weekly_percentage == 0
        }),
{
    reset_time_is_found_again(status, code, Some(reset_at), reset_after_seconds, body_length);
}

} // verus!
