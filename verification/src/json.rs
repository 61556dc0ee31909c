//! JSON values: what the calls into `serde_json` are taken to do.
//!
//! [`Json`] is the mathematical content of a JSON document. Everything the library
//! knows about `serde_json` is stated here, over that content.

use serde_json::Value;
use vstd::prelude::*;

use crate::text;

verus! {

/// Declares `serde_json::Value`, whose content [`json_of`] names.
#[verifier::external_type_specification]
#[verifier::external_body]
pub struct ExValue(serde_json::Value);

/// Declares `serde_json::Map`, whose content [`fields_of`] names.
#[verifier::external_type_specification]
#[verifier::external_body]
#[verifier::reject_recursive_types(K)]
#[verifier::reject_recursive_types(V)]
pub struct ExMap<K, V>(serde_json::Map<K, V>);

/// The content of a JSON document. A number is an unsigned integer, a negative
/// integer, or the bits of a finite double-precision number.
pub enum Json {
    Null,
    Bool(bool),
    Unsigned(u64),
    Negative(i64),
    Double(u64),
    Text(Seq<char>),
    Array(Seq<Json>),
    Object(Map<Seq<char>, Json>),
}

/// What a JSON value holds.
pub uninterp spec fn json_of(value: serde_json::Value) -> Json;

/// What the fields of a JSON object hold.
pub uninterp spec fn fields_of(fields: serde_json::Map<String, serde_json::Value>) -> Map<
    Seq<char>,
    Json,
>;

/// An object without fields.
pub open spec fn no_fields() -> Map<Seq<char>, Json> {
    Map::empty()
}

/// What the items of a JSON array hold.
pub open spec fn items_of(items: Seq<Value>) -> Seq<Json> {
    items.map_values(|item: Value| json_of(item))
}

// ---------------------------------------------------------------------------
// Reading
// ---------------------------------------------------------------------------

/// `Value::as_u64`: the number, if the value is an unsigned integer.
pub assume_specification[ serde_json::Value::as_u64 ](value: &Value) -> (r: Option<u64>)
    ensures
        r == match json_of(*value) {
            Json::Unsigned(n) => Some(n),
            _ => None,
        },
;

/// `Value::as_bool`: the truth value, if the value is one.
pub assume_specification[ serde_json::Value::as_bool ](value: &Value) -> (r: Option<bool>)
    ensures
        r == match json_of(*value) {
            Json::Bool(b) => Some(b),
            _ => None,
        },
;

/// `Value::as_str`: the text, if the value is one.
pub assume_specification[ serde_json::Value::as_str ](value: &Value) -> (r: Option<&str>)
    ensures
        match json_of(*value) {
            Json::Text(s) => r is Some && r->0@ == s,
            _ => r is None,
        },
;

/// `Value::is_null`: whether the value is null.
pub assume_specification[ serde_json::Value::is_null ](value: &Value) -> (r: bool)
    ensures
        r == (json_of(*value) == Json::Null),
;

/// `Value::as_array`: the items, if the value is an array.
pub assume_specification[ serde_json::Value::as_array ](value: &Value) -> (r: Option<&Vec<Value>>)
    ensures
        match json_of(*value) {
            Json::Array(items) => r is Some && items_of(r->0@) == items,
            _ => r is None,
        },
;

/// `Value::as_object`: the fields, if the value is an object.
pub assume_specification[ serde_json::Value::as_object ](value: &Value) -> (r: Option<
    &serde_json::Map<String, Value>,
>)
    ensures
        match json_of(*value) {
            Json::Object(fields) => r is Some && fields_of(*r->0) == fields,
            _ => r is None,
        },
;

/// `Value::get` with a string: the field of that name, if the value is an object
/// that has one.
#[verifier::external_body]
pub(crate) fn get<'a>(value: &'a Value, key: &str) -> (r: Option<&'a Value>)
    ensures
        match json_of(*value) {
            Json::Object(fields) => if fields.contains_key(key@) {
                r is Some && json_of(*r->0) == fields[key@]
            } else {
                r is None
            },
            _ => r is None,
        },
{
    value.get(key)
}

/// `Map::get`: the field of that name, if there is one.
#[verifier::external_body]
pub(crate) fn field<'a>(fields: &'a serde_json::Map<String, Value>, key: &str) -> (r: Option<
    &'a Value,
>)
    ensures
        if fields_of(*fields).contains_key(key@) {
            r is Some && json_of(*r->0) == fields_of(*fields)[key@]
        } else {
            r is None
        },
{
    fields.get(key)
}

/// `Map::keys`: the names of the fields, each once, in some order.
#[verifier::external_body]
pub(crate) fn keys(fields: &serde_json::Map<String, Value>) -> (r: Vec<String>)
    ensures
        text::texts(r@).to_set() == fields_of(*fields).dom(),
        text::texts(r@).no_duplicates(),
{
    fields.keys().cloned().collect()
}

// ---------------------------------------------------------------------------
// Building
// ---------------------------------------------------------------------------

/// `Value::clone`: a value that holds the same.
pub assume_specification[ <serde_json::Value as Clone>::clone ](value: &Value) -> (r: Value)
    ensures
        json_of(r) == json_of(*value),
;

/// `Map::clone`: fields that hold the same.
pub assume_specification[ <serde_json::Map<String, Value> as Clone>::clone ](
    fields: &serde_json::Map<String, Value>,
) -> (r: serde_json::Map<String, Value>)
    ensures
        fields_of(r) == fields_of(*fields),
;

/// `Map::new`: no fields.
pub assume_specification[ serde_json::Map::<String, Value>::new ]() -> (fields:
    serde_json::Map<String, Value>)
    ensures
        fields_of(fields) == no_fields(),
;

/// `Map::insert`: sets a field, whether it was there or not.
#[verifier::external_body]
pub(crate) fn set(fields: &mut serde_json::Map<String, Value>, key: &str, value: Value)
    ensures
        fields_of(*final(fields)) == fields_of(*old(fields)).insert(key@, json_of(value)),
{
    fields.insert(key.to_owned(), value);
}

/// `Map::remove`: removes a field, if it is there.
#[verifier::external_body]
pub(crate) fn unset(fields: &mut serde_json::Map<String, Value>, key: &str)
    ensures
        fields_of(*final(fields)) == fields_of(*old(fields)).remove(key@),
{
    fields.remove(key);
}

/// `Value::from` on an unsigned integer.
#[verifier::external_body]
pub(crate) fn number(n: u64) -> (r: Value)
    ensures
        json_of(r) == Json::Unsigned(n),
{
    Value::from(n)
}

/// `Value::from` on a truth value.
#[verifier::external_body]
pub(crate) fn boolean(b: bool) -> (r: Value)
    ensures
        json_of(r) == Json::Bool(b),
{
    Value::from(b)
}

/// `Value::from` on a text.
#[verifier::external_body]
pub(crate) fn text(s: &str) -> (r: Value)
    ensures
        json_of(r) == Json::Text(s@),
{
    Value::from(s)
}

/// `Value::from` on a list of values.
#[verifier::external_body]
pub(crate) fn array(items: Vec<Value>) -> (r: Value)
    ensures
        json_of(r) == Json::Array(items_of(items@)),
{
    Value::from(items)
}

/// `Value::from` on fields.
#[verifier::external_body]
pub(crate) fn object(fields: serde_json::Map<String, Value>) -> (r: Value)
    ensures
        json_of(r) == Json::Object(fields_of(fields)),
{
    Value::from(fields)
}

/// `Value::default`: null.
#[verifier::external_body]
pub(crate) fn null() -> (r: Value)
    ensures
        json_of(r) == Json::Null,
{
    Value::default()
}

} // verus!
