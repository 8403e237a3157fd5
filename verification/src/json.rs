//! JSON values, as the `serde_json` crate parses and holds them.
//!
//! A value is opaque here: the gateway hands most values on untouched. What
//! it reads of a value, it reads through the functions of this module, and
//! each of them names the result of the `serde_json` function that it calls.

use serde_json::Value;
use vstd::prelude::*;

verus! {

/// `serde_json::Value`: any JSON value.
#[verifier::external_type_specification]
#[verifier::external_body]
pub struct ExValue(Value);

/// `serde_json::Map`: the members of a JSON object.
#[verifier::external_type_specification]
#[verifier::external_body]
#[verifier::reject_recursive_types(K)]
#[verifier::reject_recursive_types(V)]
pub struct ExMap<K, V>(serde_json::Map<K, V>);

/// `serde_json::Error`: why bytes are no JSON text of the kind asked for.
#[verifier::external_type_specification]
#[verifier::external_body]
pub struct ExJsonError(serde_json::Error);

/// The object that `serde_json::from_slice` reads from `bytes`, `None` where
/// it reports an error: where the bytes are no JSON text, or the text is no
/// object.
pub uninterp spec fn json_object(bytes: Seq<u8>) -> Option<serde_json::Map<String, Value>>;

/// The members of an object, each with its key, in the order in which the
/// object's iterator yields them.
pub uninterp spec fn object_fields(object: serde_json::Map<String, Value>) -> Seq<
    (Seq<char>, Value),
>;

/// What `Value::as_str` returns: the characters of a value that is a string,
/// `None` for any other value.
pub uninterp spec fn json_str(value: Value) -> Option<Seq<char>>;

/// What `Value::as_f64` returns, as the bit pattern of the double: the number
/// that a value is, `None` for a value that is no number.
pub uninterp spec fn json_f64_bits(value: Value) -> Option<u64>;

/// The value that `Value::String` makes of a string.
pub uninterp spec fn json_string(text: Seq<char>) -> Value;

/// The compact JSON text of a value, as its `Display` impl writes it.
pub uninterp spec fn json_text(value: Value) -> Seq<char>;

/// The compact JSON text of an object, as `serde_json::to_string` writes it,
/// `None` where it reports an error.
pub uninterp spec fn object_text(object: serde_json::Map<String, Value>) -> Option<Seq<char>>;

/// The fields of a parsed object as keys and values.
pub open spec fn fields_view(fields: Seq<(String, Value)>) -> Seq<(Seq<char>, Value)> {
    Seq::new(fields.len(), |i: int| (fields[i].0@, fields[i].1))
}

/// `serde_json::from_slice` at the type of a JSON object.
#[verifier::external_body]
pub(crate) fn parse_object(bytes: &[u8]) -> (r: Result<
    serde_json::Map<String, Value>,
    serde_json::Error,
>)
    ensures
        r matches Ok(object) ==> json_object(bytes@) == Some(object),
        r is Err ==> json_object(bytes@) is None,
{
    serde_json::from_slice(bytes)
}

/// `Map::into_iter`, collected: the members of the object in the iterator's
/// order.
#[verifier::external_body]
pub(crate) fn into_fields(object: serde_json::Map<String, Value>) -> (fields: Vec<
    (String, Value),
>)
    ensures
        fields_view(fields@) == object_fields(object),
{
    object.into_iter().collect()
}

/// `serde_json::to_string` at the type of a JSON object.
#[verifier::external_body]
pub(crate) fn object_to_string(object: &serde_json::Map<String, Value>) -> (r: Result<
    String,
    serde_json::Error,
>)
    ensures
        r matches Ok(text) ==> object_text(*object) == Some(text@),
        r is Err ==> object_text(*object) is None,
{
    serde_json::to_string(object)
}

/// `Value::as_str`.
#[verifier::external_body]
pub(crate) fn value_as_str(value: &Value) -> (r: Option<&str>)
    ensures
        r matches Some(s) ==> json_str(*value) == Some(s@),
        r is None ==> json_str(*value) is None,
{
    value.as_str()
}

/// `Value::as_f64`, the double given by its bits.
#[verifier::external_body]
pub(crate) fn value_as_f64_bits(value: &Value) -> (r: Option<u64>)
    ensures
        r == json_f64_bits(*value),
{
    value.as_f64().map(|number| number.to_bits())
}

/// `Value::to_string`: the text that the value's `Display` impl writes.
#[verifier::external_body]
pub(crate) fn value_to_string(value: &Value) -> (text: String)
    ensures
        text@ == json_text(*value),
{
    value.to_string()
}

/// `Value::String`: the value that is the string `text`. `Value::as_str`
/// gives the string back.
#[verifier::external_body]
pub(crate) fn string_value(text: String) -> (value: Value)
    ensures
        value == json_string(text@),
        json_str(value) == Some(text@),
{
    Value::String(text)
}

} // verus!
