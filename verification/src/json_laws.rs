//! What holds of the readings of JSON trees.
use vstd::prelude::*;

use crate::json::{
    first_i64, i64_or_zero, in_key_order, json_bool, json_get, json_i64, json_of_opt_i64, json_of_opt_text,
    json_spelled_i64, json_text, lemma_is_field_index, number_of, Json, JsonNumber,
};
use crate::text::{i64_of, precedes_is_total, trim_of};

verus! {

/// An object has a field of that name in that place, and none of that name before it.
pub open spec fn has_field_at(value: Json, key: Seq<char>, at: int) -> bool {
    &&& value matches Json::Object(fields)
    &&& 0 <= at < fields.len()
    &&& fields[at].0 == key
    &&& forall|i: int| 0 <= i < at ==> (#[trigger] fields[i]).0 != key
}

/// A value has no field of that name.
pub open spec fn lacks_field(value: Json, key: Seq<char>) -> bool {
    value matches Json::Object(fields) ==> forall|i: int|
        0 <= i < fields.len() ==> (#[trigger] fields[i]).0 != key
}

/// The field of an object is the first of that name.
pub proof fn field_is_found(value: Json, key: Seq<char>, at: int)
    requires
        has_field_at(value, key, at),
    ensures
        json_get(value, key) == Some(value->Object_0[at].1),
{
    lemma_is_field_index(value->Object_0, key, at);
}

/// What has no field of a name has no value under it.
pub proof fn missing_field_is_not_found(value: Json, key: Seq<char>)
    requires
        lacks_field(value, key),
    ensures
        json_get(value, key) is None,
{
    if let Json::Object(fields) = value {
        lemma_is_field_index(fields, key, fields.len() as int);
    }
}

/// A value is found under a name only if an object has a field of that name with that value.
pub proof fn found_field_is_there(value: Json, key: Seq<char>)
    requires
        json_get(value, key) is Some,
    ensures
        exists|at: int| #[trigger] has_field_at(value, key, at) && value->Object_0[at].1 == json_get(
            value,
            key,
        )->0,
{
    if lacks_field(value, key) {
        missing_field_is_not_found(value, key);
    } else {
        let fields = value->Object_0;
        let some = choose|i: int| 0 <= i < fields.len() && (#[trigger] fields[i]).0 == key;
        let at = lemma_first_field(value, key, some);
        field_is_found(value, key, at);
    }
}

/// A name that a field has, some field has first.
proof fn lemma_first_field(value: Json, key: Seq<char>, some: int) -> (at: int)
    requires
        value is Object,
        0 <= some < value->Object_0.len(),
        value->Object_0[some].0 == key,
    ensures
        has_field_at(value, key, at),
    decreases some,
{
    if has_field_at(value, key, some) {
        some
    } else {
        let fields = value->Object_0;
        let earlier = choose|i: int| 0 <= i < some && (#[trigger] fields[i]).0 == key;
        lemma_first_field(value, key, earlier)
    }
}

/// Every field of an object in the order of its keys is found under its name.
pub proof fn ordered_field_is_found(fields: Seq<(Seq<char>, Json)>, at: int)
    requires
        in_key_order(fields),
        0 <= at < fields.len(),
    ensures
        json_get(Json::Object(fields), fields[at].0) == Some(fields[at].1),
{
    assert forall|i: int| 0 <= i < at implies (#[trigger] fields[i]).0 != fields[at].0 by {
        precedes_is_total(fields[i].0, fields[at].0);
    }
    field_is_found(Json::Object(fields), fields[at].0, at);
}

/// Texts, truth values and integers are read as what they are, and as nothing else.
pub proof fn values_are_read_as_what_they_are(value: Json)
    ensures
        value matches Json::Text(text) ==> json_text(value) == Some(text) && json_bool(value) is None
            && json_i64(value) is None && json_spelled_i64(value) == i64_of(trim_of(text)),
        value matches Json::Bool(truth) ==> json_bool(value) == Some(truth) && json_text(value) is None
            && json_i64(value) is None && json_spelled_i64(value) is None,
        value matches Json::Number(number) ==> json_text(value) is None && json_bool(value) is None
            && json_spelled_i64(value) == json_i64(value),
        value is Null || value is Array || value is Object ==> json_text(value) is None && json_bool(
            value,
        ) is None && json_i64(value) is None && json_spelled_i64(value) is None,
        value matches Json::Number(JsonNumber::Unsigned(number)) ==> (if number
            <= 0x7fff_ffff_ffff_ffff {
            json_i64(value) == Some(number as i64)
        } else {
            json_i64(value) is None
        }),
        value matches Json::Number(JsonNumber::Negative(number)) ==> json_i64(value) == Some(number),
        value matches Json::Number(JsonNumber::Double(_)) ==> json_i64(value) is None,
{
}

/// An integer that is written into JSON reads back.
pub proof fn integers_read_back(value: i64)
    ensures
        json_i64(Json::Number(number_of(value))) == Some(value),
        value >= 0 ==> number_of(value) is Unsigned,
        value < 0 ==> number_of(value) is Negative,
        json_of_opt_i64(Some(value)) == Json::Number(number_of(value)),
        json_of_opt_i64(None) == Json::Null,
{
}

/// An optional text is written into JSON as itself, or as nothing.
pub proof fn texts_are_written_as_they_are(text: Seq<char>)
    ensures
        json_of_opt_text(Some(text)) == Json::Text(text),
        json_of_opt_text(None) == Json::Null,
{
}

/// The field in question is or spells no integer.
pub open spec fn reads_no_integer(value: Json, key: Seq<char>) -> bool {
    json_get(value, key) matches Some(item) ==> json_spelled_i64(item) is None
}

/// The field in question is or spells an integer.
pub open spec fn reads_integer(value: Json, key: Seq<char>, number: i64) -> bool {
    json_get(value, key) matches Some(item) && json_spelled_i64(item) == Some(number)
}

/// Of several names the first counts whose field is or spells an integer.
pub proof fn first_readable_field_counts(
    value: Json,
    keys: Seq<Seq<char>>,
    at: int,
    number: i64,
)
    requires
        0 <= at < keys.len(),
        reads_integer(value, keys[at], number),
        forall|i: int| 0 <= i < at ==> reads_no_integer(value, #[trigger] keys[i]),
    ensures
        first_i64(value, keys) == Some(number),
    decreases at,
{
    if at > 0 {
        let rest = keys.skip(1);
        assert(rest[at - 1] == keys[at]);
        assert forall|i: int| 0 <= i < at - 1 implies reads_no_integer(
            value,
            #[trigger] rest[i],
        ) by {
            assert(rest[i] == keys[i + 1]);
        }
        assert(reads_no_integer(value, keys[0]));
        first_readable_field_counts(value, rest, at - 1, number);
    }
}

/// Where no field of the names is or spells an integer, none is read.
pub proof fn no_readable_field_counts(value: Json, keys: Seq<Seq<char>>)
    requires
        forall|i: int| 0 <= i < keys.len() ==> reads_no_integer(value, #[trigger] keys[i]),
    ensures
        first_i64(value, keys) is None,
    decreases keys.len(),
{
    if keys.len() > 0 {
        let rest = keys.skip(1);
        assert forall|i: int| 0 <= i < rest.len() implies reads_no_integer(
            value,
            #[trigger] rest[i],
        ) by {
            assert(rest[i] == keys[i + 1]);
        }
        assert(reads_no_integer(value, keys[0]));
        no_readable_field_counts(value, rest);
    }
}

/// A field that is no integer counts as zero, a spelled one too.
pub proof fn other_fields_count_as_zero(value: Json, key: Seq<char>)
    ensures
        json_get(value, key) is None ==> i64_or_zero(value, key) == 0,
        json_get(value, key) matches Some(item) ==> i64_or_zero(value, key) == (match json_i64(item) {
            Some(number) => number,
            None => 0,
        }),
{
}

} // verus!
