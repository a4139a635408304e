//! JSON trees as plain values, and the readings of them that the quota rules are made of.
use vstd::prelude::*;

use crate::text::{
    comes_before, i64_of, opt_str, parse_i64, precedes, precedes_is_total, precedes_is_transitive,
    same_text, trim, trim_of,
};

verus! {

/// A JSON number: an integer of 64 bits, or the bits of a double-precision number.
#[derive(Clone, Copy, Debug)]
pub enum JsonNumber {
    Unsigned(u64),
    Negative(i64),
    Double(u64),
}

/// A JSON value. A field that an object lacks goes where its key belongs in the order of the keys.
#[derive(Debug)]
pub enum JsonValue {
    Null,
    Bool(bool),
    Number(JsonNumber),
    Text(String),
    Array(Vec<JsonValue>),
    Object(Vec<(String, JsonValue)>),
}

/// What a JSON value is, mathematically.
pub ghost enum Json {
    Null,
    Bool(bool),
    Number(JsonNumber),
    Text(Seq<char>),
    Array(Seq<Json>),
    Object(Seq<(Seq<char>, Json)>),
}

/// What a JSON value is.
pub open spec fn json_of(value: JsonValue) -> Json
    decreases value,
{
    match value {
        JsonValue::Null => Json::Null,
        JsonValue::Bool(value) => Json::Bool(value),
        JsonValue::Number(number) => Json::Number(number),
        JsonValue::Text(text) => Json::Text(text@),
        JsonValue::Array(items) => Json::Array(
            Seq::new(
                items@.len(),
                |i: int|
                    if 0 <= i < items@.len() {
                        json_of(items@[i])
                    } else {
                        Json::Null
                    },
            ),
        ),
        JsonValue::Object(fields) => Json::Object(
            Seq::new(
                fields@.len(),
                |i: int|
                    if 0 <= i < fields@.len() {
                        (fields@[i].0@, json_of(fields@[i].1))
                    } else {
                        (Seq::empty(), Json::Null)
                    },
            ),
        ),
    }
}

impl View for JsonValue {
    type V = Json;

    open spec fn view(&self) -> Json {
        json_of(*self)
    }
}

/// The values of a list, mathematically.
pub open spec fn items_of(items: Seq<JsonValue>) -> Seq<Json> {
    items.map_values(|item: JsonValue| item@)
}

/// The fields of an object, mathematically.
pub open spec fn fields_of(fields: Seq<(String, JsonValue)>) -> Seq<(Seq<char>, Json)> {
    fields.map_values(|field: (String, JsonValue)| (field.0@, field.1@))
}

/// What an array is, from what its items are.
pub proof fn lemma_array_view(items: Vec<JsonValue>)
    ensures
        JsonValue::Array(items)@ == Json::Array(items_of(items@)),
{
    let seen = JsonValue::Array(items)@->Array_0;
    assert forall|i: int| 0 <= i < items@.len() implies #[trigger] seen[i] == items_of(items@)[i] by {
        reveal_with_fuel(json_of, 2);
    }
    assert(seen =~= items_of(items@));
}

/// What an object is, from what its fields are.
pub proof fn lemma_object_view(fields: Vec<(String, JsonValue)>)
    ensures
        JsonValue::Object(fields)@ == Json::Object(fields_of(fields@)),
{
    let seen = JsonValue::Object(fields)@->Object_0;
    assert forall|i: int| 0 <= i < fields@.len() implies #[trigger] seen[i] == fields_of(fields@)[i] by {
        reveal_with_fuel(json_of, 2);
    }
    assert(seen =~= fields_of(fields@));
}

/// An optional JSON value, mathematically.
pub open spec fn opt_json(value: Option<JsonValue>) -> Option<Json> {
    match value {
        Some(value) => Some(value@),
        None => None,
    }
}

/// An optional borrowed JSON value, mathematically.
pub open spec fn opt_json_ref(value: Option<&JsonValue>) -> Option<Json> {
    match value {
        Some(value) => Some(value@),
        None => None,
    }
}

/// The position of the first field named `key`, or the number of fields if there is none.
pub open spec fn field_index(fields: Seq<(Seq<char>, Json)>, key: Seq<char>) -> int
    decreases fields.len(),
{
    if fields.len() == 0 || fields[0].0 == key {
        0
    } else {
        1 + field_index(fields.skip(1), key)
    }
}

/// The field `key` of an object; nothing for any other value.
pub open spec fn json_get(value: Json, key: Seq<char>) -> Option<Json> {
    match value {
        Json::Object(fields) => {
            let at = field_index(fields, key);
            if at < fields.len() {
                Some(fields[at].1)
            } else {
                None
            }
        },
        _ => None,
    }
}

/// The field `key` of a value that may be missing itself.
pub open spec fn json_get_in(value: Option<Json>, key: Seq<char>) -> Option<Json> {
    match value {
        Some(value) => json_get(value, key),
        None => None,
    }
}

/// Where a new field named `key` goes: before the first field with a greater key.
pub open spec fn field_place(fields: Seq<(Seq<char>, Json)>, key: Seq<char>) -> int
    decreases fields.len(),
{
    if fields.len() == 0 || precedes(key, fields[0].0) {
        0
    } else {
        1 + field_place(fields.skip(1), key)
    }
}

/// The fields stand in the order of their keys, each key once.
pub open spec fn in_key_order(fields: Seq<(Seq<char>, Json)>) -> bool {
    forall|i: int, j: int|
        0 <= i < j < fields.len() ==> precedes((#[trigger] fields[i]).0, (#[trigger] fields[j]).0)
}

/// An object with its field `key` set: in its place if it is there, else where its key goes. Any
/// other value stays as it is.
pub open spec fn json_with(value: Json, key: Seq<char>, field: Json) -> Json {
    match value {
        Json::Object(fields) => {
            let at = field_index(fields, key);
            if at < fields.len() {
                Json::Object(fields.update(at, (fields[at].0, field)))
            } else {
                Json::Object(fields.insert(field_place(fields, key), (key, field)))
            }
        },
        _ => value,
    }
}

/// The first field named `key` is so named, and none before it.
proof fn lemma_field_index(fields: Seq<(Seq<char>, Json)>, key: Seq<char>)
    ensures
        0 <= field_index(fields, key) <= fields.len(),
        field_index(fields, key) < fields.len() ==> fields[field_index(fields, key)].0 == key,
        forall|i: int| 0 <= i < field_index(fields, key) ==> (#[trigger] fields[i]).0 != key,
    decreases fields.len(),
{
    if fields.len() > 0 && fields[0].0 != key {
        let rest = fields.skip(1);
        lemma_field_index(rest, key);
        assert forall|i: int| 0 <= i < field_index(fields, key) implies (#[trigger] fields[i]).0
            != key by {
            if i > 0 {
                assert(rest[i - 1] == fields[i]);
            }
        }
    }
}

/// A field that is named `key`, behind others that are not, is the first so named.
pub proof fn lemma_is_field_index(fields: Seq<(Seq<char>, Json)>, key: Seq<char>, at: int)
    requires
        0 <= at <= fields.len(),
        at < fields.len() ==> fields[at].0 == key,
        forall|i: int| 0 <= i < at ==> (#[trigger] fields[i]).0 != key,
    ensures
        field_index(fields, key) == at,
{
    lemma_field_index(fields, key);
}

/// Fields with greater keys stand behind the place of a new one; the last before it has none.
proof fn lemma_field_place(fields: Seq<(Seq<char>, Json)>, key: Seq<char>)
    ensures
        0 <= field_place(fields, key) <= fields.len(),
        field_place(fields, key) < fields.len() ==> precedes(
            key,
            fields[field_place(fields, key)].0,
        ),
        forall|i: int|
            0 <= i < field_place(fields, key) ==> !precedes(key, (#[trigger] fields[i]).0),
    decreases fields.len(),
{
    if fields.len() > 0 && !precedes(key, fields[0].0) {
        let rest = fields.skip(1);
        lemma_field_place(rest, key);
        assert forall|i: int| 0 <= i < field_place(fields, key) implies !precedes(
            key,
            (#[trigger] fields[i]).0,
        ) by {
            if i > 0 {
                assert(rest[i - 1] == fields[i]);
            }
        }
    }
}

/// Fields of which each comes before the next stand in the order of their keys.
pub proof fn lemma_in_key_order(fields: Seq<(Seq<char>, Json)>)
    requires
        forall|i: int|
            0 < i < fields.len() ==> precedes(fields[i - 1].0, (#[trigger] fields[i]).0),
    ensures
        in_key_order(fields),
    decreases fields.len(),
{
    if fields.len() > 0 {
        let front = fields.drop_last();
        let last = fields.len() - 1;
        assert forall|i: int| 0 < i < front.len() implies precedes(
            front[i - 1].0,
            (#[trigger] front[i]).0,
        ) by {
            assert(front[i] == fields[i]);
        }
        lemma_in_key_order(front);
        assert forall|i: int, j: int| 0 <= i < j < fields.len() implies precedes(
            (#[trigger] fields[i]).0,
            (#[trigger] fields[j]).0,
        ) by {
            if j < last {
                assert(front[i] == fields[i] && front[j] == fields[j]);
            } else if i < last - 1 {
                assert(front[i] == fields[i] && front[last - 1] == fields[last - 1]);
                precedes_is_transitive(fields[i].0, fields[last - 1].0, fields[last].0);
            }
        }
    }
}

/// A field that is set keeps the fields of an object in the order of their keys.
pub proof fn set_field_keeps_the_order(
    fields: Seq<(Seq<char>, Json)>,
    key: Seq<char>,
    field: Json,
)
    requires
        in_key_order(fields),
    ensures
        json_with(Json::Object(fields), key, field) matches Json::Object(after) && in_key_order(after),
{
    lemma_field_index(fields, key);
    lemma_field_place(fields, key);
    let place = field_place(fields, key);
    let after = json_with(Json::Object(fields), key, field)->Object_0;
    if field_index(fields, key) == fields.len() {
        assert forall|i: int, j: int| 0 <= i < j < after.len() implies precedes(
            (#[trigger] after[i]).0,
            (#[trigger] after[j]).0,
        ) by {
            let left = if i < place {
                i
            } else {
                i - 1
            };
            let right = if j < place {
                j
            } else {
                j - 1
            };
            if j == place {
                assert(after[i] == fields[i]);
                precedes_is_total(fields[i].0, key);
            } else if i == place {
                assert(after[j] == fields[right]);
                if right > place {
                    precedes_is_transitive(key, fields[place].0, fields[right].0);
                }
            } else {
                assert(after[i] == fields[left] && after[j] == fields[right]);
            }
        }
    }
}

/// A field that is set reads back, and the other fields of the object read as before.
pub proof fn set_field_reads_back(
    fields: Seq<(Seq<char>, Json)>,
    key: Seq<char>,
    field: Json,
    other: Seq<char>,
)
    ensures
        json_get(json_with(Json::Object(fields), key, field), key) == Some(field),
        other != key ==> json_get(json_with(Json::Object(fields), key, field), other) == json_get(
            Json::Object(fields),
            other,
        ),
{
    lemma_field_index(fields, key);
    lemma_field_index(fields, other);
    lemma_field_place(fields, key);
    let place = field_place(fields, key);
    let at = field_index(fields, key);
    let there = field_index(fields, other);
    let after = json_with(Json::Object(fields), key, field)->Object_0;
    if at < fields.len() {
        lemma_is_field_index(after, key, at);
        if other != key {
            lemma_is_field_index(after, other, there);
        }
    } else {
        assert forall|i: int| 0 <= i < place implies (#[trigger] after[i]).0 != key by {
            assert(after[i] == fields[i]);
        }
        lemma_is_field_index(after, key, place);
        if other != key {
            let moved = if there < place {
                there
            } else {
                there + 1
            };
            assert forall|i: int| 0 <= i < moved implies (#[trigger] after[i]).0 != other by {
                if i < place {
                    assert(after[i] == fields[i]);
                } else if i > place {
                    assert(after[i] == fields[i - 1]);
                }
            }
            lemma_is_field_index(after, other, moved);
        }
    }
}

pub open spec fn json_text(value: Json) -> Option<Seq<char>> {
    match value {
        Json::Text(text) => Some(text),
        _ => None,
    }
}

pub open spec fn json_bool(value: Json) -> Option<bool> {
    match value {
        Json::Bool(value) => Some(value),
        _ => None,
    }
}

/// The text of a value that may be missing.
pub open spec fn json_text_in(value: Option<Json>) -> Option<Seq<char>> {
    match value {
        Some(value) => json_text(value),
        None => None,
    }
}

/// The truth value of a value that may be missing.
pub open spec fn json_bool_in(value: Option<Json>) -> Option<bool> {
    match value {
        Some(value) => json_bool(value),
        None => None,
    }
}

pub open spec fn number_i64(number: JsonNumber) -> Option<i64> {
    match number {
        JsonNumber::Unsigned(value) => if value <= i64::MAX {
            Some(value as i64)
        } else {
            None
        },
        JsonNumber::Negative(value) => Some(value),
        JsonNumber::Double(_) => None,
    }
}

/// The integer that a JSON number is, within 64 bits.
pub open spec fn json_i64(value: Json) -> Option<i64> {
    match value {
        Json::Number(number) => number_i64(number),
        _ => None,
    }
}

/// The integer that a JSON number is or that a JSON text spells.
pub open spec fn json_spelled_i64(value: Json) -> Option<i64> {
    match value {
        Json::Number(number) => number_i64(number),
        Json::Text(text) => i64_of(trim_of(text)),
        _ => None,
    }
}

/// The first of the fields `keys` that is or spells an integer.
pub open spec fn first_i64(value: Json, keys: Seq<Seq<char>>) -> Option<i64>
    decreases keys.len(),
{
    if keys.len() == 0 {
        None
    } else {
        match json_get(value, keys[0]) {
            Some(item) => match json_spelled_i64(item) {
                Some(found) => Some(found),
                None => first_i64(value, keys.skip(1)),
            },
            None => first_i64(value, keys.skip(1)),
        }
    }
}

/// The field `key` where it is an integer, and zero where it is not.
pub open spec fn i64_or_zero(value: Json, key: Seq<char>) -> i64 {
    match json_get(value, key) {
        Some(item) => match json_i64(item) {
            Some(number) => number,
            None => 0,
        },
        None => 0,
    }
}

/// A list of keys, as characters.
pub open spec fn texts_of(keys: Seq<&str>) -> Seq<Seq<char>> {
    keys.map_values(|key: &str| key@)
}

/// The JSON number that an integer is.
pub open spec fn number_of(value: i64) -> JsonNumber {
    if value >= 0 {
        JsonNumber::Unsigned(value as u64)
    } else {
        JsonNumber::Negative(value)
    }
}

/// An optional integer in JSON.
pub open spec fn json_of_opt_i64(value: Option<i64>) -> Json {
    match value {
        Some(value) => Json::Number(number_of(value)),
        None => Json::Null,
    }
}

/// An optional text in JSON.
pub open spec fn json_of_opt_text(value: Option<Seq<char>>) -> Json {
    match value {
        Some(value) => Json::Text(value),
        None => Json::Null,
    }
}

/// `serde_json::Value`, a JSON tree of the outside parser.
#[verifier::external_type_specification]
#[verifier::external_body]
pub struct ExSerdeValue(serde_json::Value);

/// The JSON tree that a `serde_json::Value` holds.
pub uninterp spec fn json_tree(value: serde_json::Value) -> Json;

/// The JSON tree that a whole text spells, or what the parser says is wrong with it.
pub uninterp spec fn json_of_text(text: Seq<char>) -> Result<Json, Seq<char>>;

/// The JSON tree that stands at the start of a text, whatever follows it.
pub uninterp spec fn json_at_start(text: Seq<char>) -> Option<Json>;

/// One level of a JSON tree; what is below is still the outside parser's.
enum JsonLevel {
    Null,
    Bool(bool),
    Number(JsonNumber),
    Text(String),
    Items(Vec<serde_json::Value>),
    Fields(Vec<(String, serde_json::Value)>),
}

/// A level shows the top of a tree.
spec fn level_shows(level: JsonLevel, tree: Json) -> bool {
    match level {
        JsonLevel::Null => tree == Json::Null,
        JsonLevel::Bool(value) => tree == Json::Bool(value),
        JsonLevel::Number(number) => tree == Json::Number(number),
        JsonLevel::Text(text) => tree == Json::Text(text@),
        JsonLevel::Items(items) => {
            &&& tree matches Json::Array(trees)
            &&& trees.len() == items@.len()
            &&& forall|i: int| 0 <= i < trees.len() ==> #[trigger] trees[i] == json_tree(items@[i])
        },
        JsonLevel::Fields(fields) => {
            &&& tree matches Json::Object(trees)
            &&& trees.len() == fields@.len()
            &&& forall|i: int|
                0 <= i < trees.len() ==> #[trigger] trees[i] == (
                    fields@[i].0@,
                    json_tree(fields@[i].1),
                )
        },
    }
}

/// `serde_json::from_str` into a `serde_json::Value`: the tree that the text spells, or the
/// parser's message. Which texts are JSON is left to the parser.
#[verifier::external_body]
fn decode(text: &str) -> (decoded: Result<serde_json::Value, String>)
    ensures
        json_of_text(text@) == (match decoded {
            Ok(value) => Ok(json_tree(value)),
            Err(message) => Err(message@),
        }),
{
    match serde_json::from_str::<serde_json::Value>(text) {
        Ok(value) => Ok(value),
        Err(error) => Err(error.to_string()),
    }
}

/// `serde_json::Deserializer::from_str` with the first item of its `into_iter`: the tree at the
/// start of the text, or nothing if there is none.
#[verifier::external_body]
fn decode_start(text: &str) -> (decoded: Option<serde_json::Value>)
    ensures
        json_at_start(text@) == (match decoded {
            Some(value) => Some(json_tree(value)),
            None => None,
        }),
{
    serde_json::Deserializer::from_str(text).into_iter::<serde_json::Value>().next()?.ok()
}

/// The variants of `serde_json::Value`, one by one: each part is moved out as it is. A number is
/// what `as_u64`, else `as_i64`, else `as_f64` gives, the last by its bits; the fields of an
/// object come in the order in which `serde_json::Map` hands them out.
#[verifier::external_body]
fn open(value: serde_json::Value) -> (level: JsonLevel)
    ensures
        level_shows(level, json_tree(value)),
{
    match value {
        serde_json::Value::Null => JsonLevel::Null,
        serde_json::Value::Bool(value) => JsonLevel::Bool(value),
        serde_json::Value::Number(number) => JsonLevel::Number(match (number.as_u64(), number.as_i64()) {
            (Some(value), _) => JsonNumber::Unsigned(value),
            (None, Some(value)) => JsonNumber::Negative(value),
            (None, None) => JsonNumber::Double(number.as_f64().unwrap_or_default().to_bits()),
        }),
        serde_json::Value::String(text) => JsonLevel::Text(text),
        serde_json::Value::Array(items) => JsonLevel::Items(items),
        serde_json::Value::Object(fields) => JsonLevel::Fields(fields.into_iter().collect()),
    }
}

/// A tree of the outside parser as a value of this library.
#[verifier::spinoff_prover]
pub fn from_serde(value: serde_json::Value) -> (tree: JsonValue)
    ensures
        tree@ == json_tree(value),
    decreases json_tree(value),
{
    match open(value) {
        JsonLevel::Null => JsonValue::Null,
        JsonLevel::Bool(value) => JsonValue::Bool(value),
        JsonLevel::Number(number) => JsonValue::Number(number),
        JsonLevel::Text(text) => JsonValue::Text(text),
        JsonLevel::Items(items) => {
            let ghost trees = json_tree(value)->Array_0;
            let mut rest = items;
            let mut reversed: Vec<JsonValue> = Vec::new();
            let total = rest.len();
            while rest.len() > 0
                invariant
                    json_tree(value) == Json::Array(trees),
                    total == items@.len() == trees.len(),
                    forall|i: int| 0 <= i < trees.len() ==> #[trigger] trees[i] == json_tree(items@[i]),
                    rest@.len() + reversed@.len() == total,
                    rest@ == items@.take(rest@.len() as int),
                    forall|i: int|
                        0 <= i < reversed@.len() ==> (#[trigger] reversed@[i])@ == trees[total - 1 - i],
                decreases rest.len(),
            {
                if let Some(item) = rest.pop() {
                    let ghost at = rest@.len() as int;
                    assert(trees[at] == json_tree(item));
                    assert(decreases_to!(json_tree(value) => json_tree(value)->Array_0));
                    assert(decreases_to!(trees => trees[at]));
                    assert(decreases_to!(json_tree(value) => trees[at]));
                    reversed.push(from_serde(item));
                }
            }
            let mut forward: Vec<JsonValue> = Vec::new();
            while reversed.len() > 0
                invariant
                    total == trees.len(),
                    reversed@.len() + forward@.len() == total,
                    forall|i: int|
                        0 <= i < reversed@.len() ==> (#[trigger] reversed@[i])@ == trees[total - 1 - i],
                    forall|i: int| 0 <= i < forward@.len() ==> (#[trigger] forward@[i])@ == trees[i],
                decreases reversed.len(),
            {
                if let Some(item) = reversed.pop() {
                    forward.push(item);
                }
            }
            proof {
                lemma_array_view(forward);
                assert(items_of(forward@) =~= trees);
            }
            JsonValue::Array(forward)
        },
        JsonLevel::Fields(fields) => {
            let ghost trees = json_tree(value)->Object_0;
            let mut rest = fields;
            let mut reversed: Vec<(String, JsonValue)> = Vec::new();
            let total = rest.len();
            while rest.len() > 0
                invariant
                    json_tree(value) == Json::Object(trees),
                    total == fields@.len() == trees.len(),
                    forall|i: int|
                        0 <= i < trees.len() ==> #[trigger] trees[i] == (
                            fields@[i].0@,
                            json_tree(fields@[i].1),
                        ),
                    rest@.len() + reversed@.len() == total,
                    rest@ == fields@.take(rest@.len() as int),
                    forall|i: int|
                        0 <= i < reversed@.len() ==> {
                            &&& (#[trigger] reversed@[i]).0@ == trees[total - 1 - i].0
                            &&& reversed@[i].1@ == trees[total - 1 - i].1
                        },
                decreases rest.len(),
            {
                if let Some((key, item)) = rest.pop() {
                    let ghost at = rest@.len() as int;
                    assert(trees[at] == (key@, json_tree(item)));
                    assert(decreases_to!(json_tree(value) => json_tree(value)->Object_0));
                    assert(decreases_to!(trees => trees[at]));
                    assert(decreases_to!(trees[at] => trees[at].1));
                    assert(decreases_to!(json_tree(value) => trees[at].1));
                    reversed.push((key, from_serde(item)));
                }
            }
            let mut forward: Vec<(String, JsonValue)> = Vec::new();
            while reversed.len() > 0
                invariant
                    total == trees.len(),
                    reversed@.len() + forward@.len() == total,
                    forall|i: int|
                        0 <= i < reversed@.len() ==> {
                            &&& (#[trigger] reversed@[i]).0@ == trees[total - 1 - i].0
                            &&& reversed@[i].1@ == trees[total - 1 - i].1
                        },
                    forall|i: int|
                        0 <= i < forward@.len() ==> {
                            &&& (#[trigger] forward@[i]).0@ == trees[i].0
                            &&& forward@[i].1@ == trees[i].1
                        },
                decreases reversed.len(),
            {
                if let Some(field) = reversed.pop() {
                    forward.push(field);
                }
            }
            proof {
                lemma_object_view(forward);
                assert(fields_of(forward@) =~= trees);
            }
            JsonValue::Object(forward)
        },
    }
}

/// The JSON tree that a whole text spells, or the parser's message.
pub fn parse_json(text: &str) -> (parsed: Result<JsonValue, String>)
    ensures
        json_of_text(text@) == (match parsed {
            Ok(value) => Ok(value@),
            Err(message) => Err(message@),
        }),
{
    match decode(text) {
        Ok(value) => Ok(from_serde(value)),
        Err(message) => Err(message),
    }
}

/// The JSON tree at the start of a text.
pub fn parse_json_start(text: &str) -> (parsed: Option<JsonValue>)
    ensures
        opt_json(parsed) == json_at_start(text@),
{
    match decode_start(text) {
        Some(value) => Some(from_serde(value)),
        None => None,
    }
}

impl Clone for JsonValue {
    fn clone(&self) -> (copy: Self)
        ensures
            copy@ == self@,
        decreases self,
    {
        match self {
            JsonValue::Null => JsonValue::Null,
            JsonValue::Bool(value) => JsonValue::Bool(*value),
            JsonValue::Number(number) => JsonValue::Number(*number),
            JsonValue::Text(text) => JsonValue::Text(text.clone()),
            JsonValue::Array(items) => {
                let mut copies: Vec<JsonValue> = Vec::new();
                let total = items.len();
                for i in 0..total
                    invariant
                        *self == JsonValue::Array(*items),
                        total == items@.len(),
                        copies@.len() == i,
                        forall|j: int| 0 <= j < i ==> (#[trigger] copies@[j])@ == items@[j]@,
                {
                    assert(decreases_to!(*self => self->Array_0));
                    assert(decreases_to!(*items => items@));
                    assert(decreases_to!(items@ => items@[i as int]));
                    copies.push(items[i].clone());
                }
                proof {
                    lemma_array_view(*items);
                    lemma_array_view(copies);
                    assert(items_of(copies@) =~= items_of(items@));
                }
                JsonValue::Array(copies)
            },
            JsonValue::Object(fields) => {
                let mut copies: Vec<(String, JsonValue)> = Vec::new();
                let total = fields.len();
                for i in 0..total
                    invariant
                        *self == JsonValue::Object(*fields),
                        total == fields@.len(),
                        copies@.len() == i,
                        forall|j: int|
                            0 <= j < i ==> {
                                &&& (#[trigger] copies@[j]).0@ == fields@[j].0@
                                &&& copies@[j].1@ == fields@[j].1@
                            },
                {
                    assert(decreases_to!(*self => self->Object_0));
                    assert(decreases_to!(*fields => fields@));
                    assert(decreases_to!(fields@ => fields@[i as int]));
                    assert(decreases_to!(fields@[i as int] => fields@[i as int].1));
                    copies.push((fields[i].0.clone(), fields[i].1.clone()));
                }
                proof {
                    lemma_object_view(*fields);
                    lemma_object_view(copies);
                    assert(fields_of(copies@) =~= fields_of(fields@));
                }
                JsonValue::Object(copies)
            },
        }
    }
}

impl JsonValue {
    /// The field `key` of an object.
    pub fn get(&self, key: &str) -> (field: Option<&JsonValue>)
        ensures
            opt_json_ref(field) == json_get(self@, key@),
    {
        match self {
            JsonValue::Object(fields) => {
                let ghost all = fields_of(fields@);
                let total = fields.len();
                let mut at: usize = 0;
                proof {
                    lemma_object_view(*fields);
                    assert(all.skip(0) =~= all);
                }
                while at < total
                    invariant
                        self@ == Json::Object(all),
                        all == fields_of(fields@),
                        total == fields@.len(),
                        at <= total,
                        field_index(all, key@) == at + field_index(all.skip(at as int), key@),
                    decreases total - at,
                {
                    assert(all[at as int] == (fields@[at as int].0@, fields@[at as int].1@));
                    assert(all.skip(at as int)[0] == all[at as int]);
                    if same_text(fields[at].0.as_str(), key) {
                        return Some(&fields[at].1);
                    }
                    assert(all.skip(at as int).skip(1) =~= all.skip(at + 1));
                    at = at + 1;
                }
                None
            },
            _ => None,
        }
    }

    /// The characters of a text.
    pub fn as_str(&self) -> (text: Option<&str>)
        ensures
            opt_str(text) == json_text(self@),
    {
        match self {
            JsonValue::Text(text) => Some(text.as_str()),
            _ => None,
        }
    }

    /// The truth value.
    pub fn as_bool(&self) -> (value: Option<bool>)
        ensures
            value == json_bool(self@),
    {
        match self {
            JsonValue::Bool(value) => Some(*value),
            _ => None,
        }
    }

    /// The integer, where it fits in 64 bits.
    pub fn as_i64(&self) -> (value: Option<i64>)
        ensures
            value == json_i64(self@),
    {
        match self {
            JsonValue::Number(JsonNumber::Unsigned(value)) => if *value <= i64::MAX as u64 {
                Some(*value as i64)
            } else {
                None
            },
            JsonValue::Number(JsonNumber::Negative(value)) => Some(*value),
            _ => None,
        }
    }

    /// Sets the field `key` of an object; any other value stays as it is.
    pub fn insert(&mut self, key: &str, field: JsonValue)
        ensures
            final(self)@ == json_with(old(self)@, key@, field@),
    {
        match self {
            JsonValue::Object(fields) => {
                let ghost before = fields@;
                let ghost all = fields_of(fields@);
                let total = fields.len();
                let mut at: usize = 0;
                proof {
                    lemma_object_view(*fields);
                    assert(all.skip(0) =~= all);
                }
                while at < total && !same_text(fields[at].0.as_str(), key)
                    invariant
                        total == fields@.len() == all.len(),
                        fields@ == before,
                        all == fields_of(before),
                        at <= total,
                        field_index(all, key@) == at + field_index(all.skip(at as int), key@),
                    decreases total - at,
                {
                    assert(all.skip(at as int)[0] == all[at as int]);
                    assert(all.skip(at as int).skip(1) =~= all.skip(at + 1));
                    at = at + 1;
                }
                if at < total {
                    assert(all.skip(at as int)[0] == all[at as int]);
                    fields[at].1 = field;
                } else {
                    let mut place: usize = 0;
                    while place < total && !comes_before(key, fields[place].0.as_str())
                        invariant
                            total == fields@.len() == all.len(),
                            fields@ == before,
                            all == fields_of(before),
                            place <= total,
                            field_place(all, key@) == place + field_place(
                                all.skip(place as int),
                                key@,
                            ),
                        decreases total - place,
                    {
                        assert(all.skip(place as int)[0] == all[place as int]);
                        assert(all.skip(place as int).skip(1) =~= all.skip(place + 1));
                        place = place + 1;
                    }
                    assert(place < total ==> all.skip(place as int)[0] == all[place as int]);
                    fields.insert(place, (key.to_owned(), field));
                }
                proof {
                    lemma_object_view(*fields);
                    assert(Json::Object(fields_of(fields@)) == json_with(Json::Object(all), key@, field@)) by {
                        assert(fields_of(fields@) =~= json_with(Json::Object(all), key@, field@)->Object_0);
                    }
                }
            },
            _ => {},
        }
    }
}

/// The integer in JSON.
pub fn json_integer(value: i64) -> (number: JsonValue)
    ensures
        number@ == Json::Number(number_of(value)),
{
    if value >= 0 {
        JsonValue::Number(JsonNumber::Unsigned(value as u64))
    } else {
        JsonValue::Number(JsonNumber::Negative(value))
    }
}

/// An optional integer in JSON.
pub fn json_optional_integer(value: Option<i64>) -> (number: JsonValue)
    ensures
        number@ == json_of_opt_i64(value),
{
    match value {
        Some(value) => json_integer(value),
        None => JsonValue::Null,
    }
}

/// An optional text in JSON.
pub fn json_optional_text(value: Option<&str>) -> (text: JsonValue)
    ensures
        text@ == json_of_opt_text(opt_str(value)),
{
    match value {
        Some(value) => JsonValue::Text(value.to_owned()),
        None => JsonValue::Null,
    }
}

/// An object with the given fields.
pub fn json_object(fields: Vec<(String, JsonValue)>) -> (object: JsonValue)
    ensures
        object@ == Json::Object(fields_of(fields@)),
{
    proof {
        lemma_object_view(fields);
    }
    JsonValue::Object(fields)
}

/// The first of the fields `keys` that is an integer, or a text that spells one.
pub fn first_i64_field(value: &JsonValue, keys: &[&str]) -> (found: Option<i64>)
    ensures
        found == first_i64(value@, texts_of(keys@)),
{
    let ghost all = texts_of(keys@);
    let mut at: usize = 0;
    assert(all.skip(0) =~= all);
    while at < keys.len()
        invariant
            all == texts_of(keys@),
            at <= keys@.len(),
            first_i64(value@, all) == first_i64(value@, all.skip(at as int)),
        decreases keys@.len() - at,
    {
        assert(all.skip(at as int)[0] == keys@[at as int]@);
        assert(all.skip(at as int).skip(1) =~= all.skip(at + 1));
        if let Some(item) = value.get(keys[at]) {
            match item {
                JsonValue::Text(text) => {
                    let spelled = parse_i64(trim(text.as_str()));
                    if spelled.is_some() {
                        return spelled;
                    }
                },
                _ => {
                    let number = item.as_i64();
                    if number.is_some() {
                        return number;
                    }
                },
            }
        }
        at = at + 1;
    }
    None
}

/// The field `key` as an integer, or zero.
pub fn read_i64(value: &JsonValue, key: &str) -> (number: i64)
    ensures
        number == i64_or_zero(value@, key@),
{
    match value.get(key) {
        Some(item) => match item.as_i64() {
            Some(number) => number,
            None => 0,
        },
        None => 0,
    }
}

/// The field `key` as a truth value, or false.
pub fn read_bool(value: &JsonValue, key: &str) -> (flag: bool)
    ensures
        flag == (json_bool_in(json_get(value@, key@)) == Some(true)),
{
    match value.get(key) {
        Some(item) => match item.as_bool() {
            Some(flag) => flag,
            None => false,
        },
        None => false,
    }
}

/// The field `key` as a text.
pub fn text_field<'a>(value: &'a JsonValue, key: &str) -> (text: Option<&'a str>)
    ensures
        opt_str(text) == json_text_in(json_get(value@, key@)),
{
    match value.get(key) {
        Some(item) => item.as_str(),
        None => None,
    }
}

} // verus!
