//! The JSON values option arguments are sent as, made by `serde_json`.
use serde_json::Value;
use vstd::prelude::*;

verus! {

#[verifier::external_type_specification]
#[verifier::external_body]
pub struct ExJsonValue(Value);

/// `Value::clone` gives back an equal value.
pub assume_specification[ <Value as Clone>::clone ](value: &Value) -> (r: Value)
    ensures
        r == *value,
;

/// `Value` equality; nothing is claimed of the result.
pub assume_specification[ <Value as PartialEq>::eq ](value: &Value, other: &Value) -> bool;

/// The JSON string value holding these characters (`Value::String`).
pub uninterp spec fn json_string(text: Seq<char>) -> Value;

/// The JSON boolean value (`Value::Bool`).
pub uninterp spec fn json_bool(b: bool) -> Value;

/// The JSON integer value of an `i64` (`Value::Number(Number::from(i))`).
pub uninterp spec fn json_i64(i: i64) -> Value;

/// The JSON number `serde_json` makes of a decimal floating-point text:
/// `None` when the text does not parse as a float or is not finite.
pub uninterp spec fn json_float_from_text(text: Seq<char>) -> Option<Value>;

/// `Value::String(text)`.
#[verifier::external_body]
pub(crate) fn json_string_value(text: String) -> (r: Value)
    ensures
        r == json_string(text@),
{
    Value::String(text)
}

/// `Value::Bool(b)`.
#[verifier::external_body]
pub(crate) fn json_bool_value(b: bool) -> (r: Value)
    ensures
        r == json_bool(b),
{
    Value::Bool(b)
}

/// `Value::Number(Number::from(i))`.
#[verifier::external_body]
pub(crate) fn json_i64_value(i: i64) -> (r: Value)
    ensures
        r == json_i64(i),
{
    Value::Number(serde_json::Number::from(i))
}

/// Parses `text` as a float with `str::parse` and makes a JSON number of it
/// with `Number::from_f64`, which refuses infinities and NaN.
#[verifier::external_body]
pub(crate) fn json_float_value(text: &str) -> (r: Option<Value>)
    ensures
        r == json_float_from_text(text@),
{
    text.parse().ok().and_then(serde_json::Number::from_f64).map(Value::Number)
}

/// The text under `key` of a JSON object value (`Value::get(key)` then
/// `Value::as_str`); `None` when there is no such text.
pub uninterp spec fn value_str_field(value: Value, key: Seq<char>) -> Option<Seq<char>>;

/// `value.get(key).and_then(Value::as_str)`, copied. The contract only
/// names the result.
#[verifier::external_body]
pub(crate) fn json_value_str_field(value: &Value, key: &str) -> (r: Option<String>)
    ensures
        match r {
            Some(s) => value_str_field(*value, key@) == Some(s@),
            None => value_str_field(*value, key@) is None,
        },
{
    value.get(key).and_then(Value::as_str).map(|s| s.to_owned())
}

/// The JSON document `serde_json` reads from these bytes
/// (`serde_json::from_slice::<Value>`); `None` where they hold no JSON
/// document.
pub uninterp spec fn parsed_value(bytes: Seq<u8>) -> Option<Value>;

/// `serde_json::from_slice::<Value>(bytes)`, the error dropped. The contract
/// only names the result.
#[verifier::external_body]
pub(crate) fn parse_json_bytes(bytes: &[u8]) -> (r: Option<Value>)
    ensures
        r == parsed_value(bytes@),
{
    serde_json::from_slice::<Value>(bytes).ok()
}

/// The bytes of the JSON document `null`.
pub open spec fn null_document() -> Seq<u8> {
    seq![110u8, 117u8, 108u8, 108u8]
}

/// The JSON null value: the value `serde_json` reads from the document
/// `null`.
pub open spec fn json_null() -> Value {
    match parsed_value(null_document()) {
        Some(v) => v,
        None => arbitrary(),
    }
}

/// The integer under `key` of a JSON object value, as `Value::get(key)`
/// then `Value::as_u64` reads it; `None` when there is no such integer.
pub uninterp spec fn value_u64_field(value: Value, key: Seq<char>) -> Option<u64>;

/// `value.get(key).and_then(Value::as_u64)`. The contract only names the
/// result.
#[verifier::external_body]
pub(crate) fn json_value_u64_field(value: &Value, key: &str) -> (r: Option<u64>)
    ensures
        r == value_u64_field(*value, key@),
{
    value.get(key).and_then(Value::as_u64)
}

/// The number under `key` of a JSON object value, as `Number::as_i64` and
/// `Number::as_u64` read it; `None` when the field is absent or not a
/// number.
pub uninterp spec fn value_number_field(value: Value, key: Seq<char>) -> Option<(Option<i64>, Option<u64>)>;

/// `value.get(key)` when it is a `Value::Number`, read with `as_i64` and
/// `as_u64`. The contract only names the result.
#[verifier::external_body]
pub(crate) fn json_value_number_field(value: &Value, key: &str) -> (r: Option<(Option<i64>, Option<u64>)>)
    ensures
        r == value_number_field(*value, key@),
{
    match value.get(key) {
        Some(Value::Number(number)) => Some((number.as_i64(), number.as_u64())),
        _ => None,
    }
}

/// The JSON integer value of a `u64` (`Value::Number(Number::from(u))`).
pub uninterp spec fn json_u64(u: u64) -> Value;

/// The JSON array holding these values, in order (`Value::Array`).
pub uninterp spec fn json_array(items: Seq<Value>) -> Value;

/// The JSON object made of these entries (`Value::Object` collected from
/// them; a later entry replaces an earlier one with the same key).
pub uninterp spec fn json_object(entries: Seq<(Seq<char>, Value)>) -> Value;

/// `Value::from(())`, which is `Value::Null`: the value `serde_json` reads
/// from the document `null`.
#[verifier::external_body]
pub(crate) fn json_null_value() -> (r: Value)
    ensures
        parsed_value(null_document()) == Some(r),
{
    Value::from(())
}

/// `Value::Number(Number::from(u))`.
#[verifier::external_body]
pub(crate) fn json_u64_value(u: u64) -> (r: Value)
    ensures
        r == json_u64(u),
{
    Value::Number(serde_json::Number::from(u))
}

/// `Value::Array(items)`.
#[verifier::external_body]
pub(crate) fn json_array_value(items: Vec<Value>) -> (r: Value)
    ensures
        r == json_array(items@),
{
    Value::Array(items)
}

/// The texts and values of object entries.
pub open spec fn entries_view(entries: Seq<(String, Value)>) -> Seq<(Seq<char>, Value)> {
    entries.map_values(|e: (String, Value)| (e.0@, e.1))
}

/// `Value::Object` collected from the entries.
#[verifier::external_body]
pub(crate) fn json_object_value(entries: Vec<(String, Value)>) -> (r: Value)
    ensures
        r == json_object(entries_view(entries@)),
{
    Value::Object(entries.into_iter().collect())
}

/// A JSON number as `serde_json` keeps it: a non-negative integer, a
/// negative integer, or a float (written as the decimal text that reads back
/// as it).
#[derive(Clone, Debug, PartialEq, Eq)]
pub enum JsonNumber {
    PosInt(u64),
    NegInt(i64),
    Float(String),
}

/// A JSON document as the library reads it.
#[derive(Debug, PartialEq, Eq)]
pub enum Json {
    Null,
    Bool(bool),
    Number(JsonNumber),
    Text(String),
    Array(Vec<Json>),
    Object(Vec<(String, Json)>),
}

/// The position of the first entry with `key`.
pub open spec fn key_index(entries: Seq<(String, Json)>, key: Seq<char>) -> Option<int>
    decreases entries.len(),
{
    if entries.len() == 0 {
        None
    } else if entries[0].0@ == key {
        Some(0)
    } else {
        match key_index(entries.drop_first(), key) {
            Some(i) => Some(i + 1),
            None => None,
        }
    }
}

/// The value of the first entry with `key`, when `j` is an object
/// (`Value::get` with a string key).
pub open spec fn json_get(j: Json, key: Seq<char>) -> Option<Json> {
    match j {
        Json::Object(entries) => match key_index(entries@, key) {
            Some(i) => Some(entries@[i].1),
            None => None,
        },
        _ => None,
    }
}

/// The value behind an optional reference.
pub open spec fn deref_json(j: Option<&Json>) -> Option<Json> {
    match j {
        Some(v) => Some(*v),
        None => None,
    }
}

/// `Value::as_str`.
pub open spec fn json_as_str(j: Option<Json>) -> Option<Seq<char>> {
    match j {
        Some(Json::Text(s)) => Some(s@),
        _ => None,
    }
}

/// `Value::as_u64`.
pub open spec fn json_as_u64(j: Option<Json>) -> Option<u64> {
    match j {
        Some(Json::Number(JsonNumber::PosInt(u))) => Some(u),
        _ => None,
    }
}

/// `Value::as_bool`.
pub open spec fn json_as_bool(j: Option<Json>) -> Option<bool> {
    match j {
        Some(Json::Bool(b)) => Some(b),
        _ => None,
    }
}

/// `Value::as_array`.
pub open spec fn json_as_array(j: Option<Json>) -> Option<Seq<Json>> {
    match j {
        Some(Json::Array(items)) => Some(items@),
        _ => None,
    }
}

proof fn lemma_key_index(entries: Seq<(String, Json)>, key: Seq<char>, i: int)
    requires
        0 <= i <= entries.len(),
        forall|k: int| 0 <= k < i ==> entries[k].0@ != key,
    ensures
        i < entries.len() && entries[i].0@ == key ==> key_index(entries, key) == Some(i),
        i == entries.len() ==> key_index(entries, key) is None,
    decreases i,
{
    if i > 0 {
        assert forall|k: int| 0 <= k < i - 1 implies entries.drop_first()[k].0@ != key by {
            assert(entries.drop_first()[k] == entries[k + 1]);
        }
        lemma_key_index(entries.drop_first(), key, i - 1);
    }
}

fn text_eq(a: &String, b: &str) -> (r: bool)
    ensures
        r == (a@ == b@),
{
    let x = crate::text::chars_of(a.as_str());
    let y = crate::text::chars_of(b);
    crate::text::chars_eq(&x, &y)
}

/// `Value::get(key)` over the model.
pub fn json_get_field<'a>(j: &'a Json, key: &str) -> (r: Option<&'a Json>)
    ensures
        match r {
            Some(v) => json_get(*j, key@) == Some(*v) && decreases_to!(*j => *v),
            None => json_get(*j, key@) is None,
        },
{
    match j {
        Json::Object(entries) => {
            let mut i: usize = 0;
            while i < entries.len()
                invariant
                    *j == Json::Object(*entries),
                    i <= entries@.len(),
                    forall|k: int| 0 <= k < i ==> entries@[k].0@ != key@,
                decreases entries@.len() - i,
            {
                if text_eq(&entries[i].0, key) {
                    proof {
                        lemma_key_index(entries@, key@, i as int);
                        assert(json_get(*j, key@) == Some(entries@[i as int].1));
                        assert(decreases_to!(*j => (*j)->Object_0));
                        assert(decreases_to!(*entries => entries@));
                        assert(decreases_to!(entries@ => entries@[i as int]));
                        assert(decreases_to!(entries@[i as int] => entries@[i as int].1));
                    }
                    return Some(&entries[i].1);
                }
                i = i + 1;
            }
            proof {
                lemma_key_index(entries@, key@, i as int);
            }
            None
        },
        _ => None,
    }
}

/// `Value::as_str` over the model.
pub fn json_str_of<'a>(j: Option<&'a Json>) -> (r: Option<&'a String>)
    ensures
        match r {
            Some(s) => json_as_str(match j { Some(v) => Some(*v), None => None }) == Some(s@),
            None => json_as_str(match j { Some(v) => Some(*v), None => None }) is None,
        },
{
    match j {
        Some(Json::Text(s)) => Some(s),
        _ => None,
    }
}

/// The `Value` the model stands for; a float text that does not read back
/// as a finite float becomes null.
pub open spec fn json_value_of(j: Json) -> Value
    decreases j,
{
    match j {
        Json::Null => json_null(),
        Json::Bool(b) => json_bool(b),
        Json::Number(JsonNumber::PosInt(u)) => json_u64(u),
        Json::Number(JsonNumber::NegInt(i)) => json_i64(i),
        Json::Number(JsonNumber::Float(text)) => match json_float_from_text(text@) {
            Some(v) => v,
            None => json_null(),
        },
        Json::Text(s) => json_string(s@),
        Json::Array(items) => json_array(json_values_of(items@)),
        Json::Object(entries) => json_object(json_entries_of(entries@)),
    }
}

/// The values the models of a list stand for.
pub open spec fn json_values_of(items: Seq<Json>) -> Seq<Value>
    decreases items,
{
    if items.len() == 0 {
        seq![]
    } else {
        json_values_of(items.drop_last()).push(json_value_of(items.last()))
    }
}

/// The entries the models of an object's entries stand for.
pub open spec fn json_entries_of(entries: Seq<(String, Json)>) -> Seq<(Seq<char>, Value)>
    decreases entries,
{
    if entries.len() == 0 {
        seq![]
    } else {
        json_entries_of(entries.drop_last()).push((entries.last().0@, json_value_of(entries.last().1)))
    }
}

/// The `Value` a JSON model stands for.
pub fn json_to_value(j: &Json) -> (r: Value)
    ensures
        r == json_value_of(*j),
    decreases j,
{
    match j {
        Json::Null => json_null_value(),
        Json::Bool(b) => json_bool_value(*b),
        Json::Number(JsonNumber::PosInt(u)) => json_u64_value(*u),
        Json::Number(JsonNumber::NegInt(i)) => json_i64_value(*i),
        Json::Number(JsonNumber::Float(text)) => match json_float_value(text.as_str()) {
            Some(v) => v,
            None => json_null_value(),
        },
        Json::Text(s) => json_string_value(s.clone()),
        Json::Array(items) => {
            let mut values: Vec<Value> = Vec::new();
            let mut i: usize = 0;
            proof {
                assert(items@.take(0) =~= Seq::<Json>::empty());
            }
            while i < items.len()
                invariant
                    *j == Json::Array(*items),
                    i <= items@.len(),
                    values@ == json_values_of(items@.take(i as int)),
                decreases items@.len() - i,
            {
                proof {
                    assert(items@.take(i + 1).drop_last() =~= items@.take(i as int));
                    assert(*j == Json::Array(*items));
                    assert(decreases_to!(*j => (*j)->Array_0));
                    assert(decreases_to!(*items => items@));
                    assert(decreases_to!(items@ => items@[i as int]));
                    assert(decreases_to!(*j => items@[i as int]));
                }
                let v = json_to_value(&items[i]);
                values.push(v);
                i = i + 1;
            }
            proof {
                assert(items@.take(items@.len() as int) =~= items@);
            }
            json_array_value(values)
        },
        Json::Object(entries) => {
            let mut out: Vec<(String, Value)> = Vec::new();
            let mut i: usize = 0;
            proof {
                assert(entries@.take(0) =~= Seq::<(String, Json)>::empty());
                assert(entries_view(out@) =~= Seq::<(Seq<char>, Value)>::empty());
            }
            while i < entries.len()
                invariant
                    *j == Json::Object(*entries),
                    i <= entries@.len(),
                    entries_view(out@) == json_entries_of(entries@.take(i as int)),
                decreases entries@.len() - i,
            {
                proof {
                    assert(entries@.take(i + 1).drop_last() =~= entries@.take(i as int));
                    assert(*j == Json::Object(*entries));
                    assert(decreases_to!(*j => (*j)->Object_0));
                    assert(decreases_to!(*entries => entries@));
                    assert(decreases_to!(entries@ => entries@[i as int]));
                    assert(decreases_to!(entries@[i as int] => entries@[i as int].1));
                    assert(decreases_to!(*j => entries@[i as int].1));
                }
                let v = json_to_value(&entries[i].1);
                let ghost before = out@;
                out.push((entries[i].0.clone(), v));
                i = i + 1;
                proof {
                    assert(entries_view(out@) =~= entries_view(before).push((entries@[i - 1].0@, v)));
                }
            }
            proof {
                assert(entries@.take(entries@.len() as int) =~= entries@);
            }
            json_object_value(out)
        },
    }
}

} // verus!
