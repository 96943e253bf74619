//! JSON values held as `serde_json::Value`, with the contents a contract can
//! speak of.

use serde_json::Value;
use vstd::prelude::*;

verus! {

/// `serde_json::Value`, opaque here: what a value holds is [`json`].
#[verifier::external_type_specification]
#[verifier::external_body]
pub struct ExValue(Value);

/// The contents of a JSON value. A number stands for itself: nothing here reads
/// one, and a copy keeps it.
pub enum Json {
    Null,
    Bool(bool),
    Number(Value),
    Text(Seq<char>),
    Array(Seq<Json>),
    Object(Map<Seq<char>, Json>),
}

/// What a `serde_json::Value` holds.
pub uninterp spec fn json(value: Value) -> Json;

/// The field `name` of an object; `None` for a missing field and for anything
/// that is no object.
pub open spec fn field_of(held: Json, name: Seq<char>) -> Option<Json> {
    match held {
        Json::Object(fields) => if fields.contains_key(name) {
            Some(fields[name])
        } else {
            None
        },
        _ => None,
    }
}

/// The text of a string value; `None` for anything else and for nothing.
pub open spec fn text_of(held: Option<Json>) -> Option<Seq<char>> {
    match held {
        Some(Json::Text(held)) => Some(held),
        _ => None,
    }
}

/// A text as a value, null where there is none.
pub open spec fn opt_text(text: Option<Seq<char>>) -> Json {
    match text {
        Some(held) => Json::Text(held),
        None => Json::Null,
    }
}

/// Named values as the fields of an object.
pub open spec fn fields_of(fields: Seq<(String, Value)>) -> Map<Seq<char>, Json>
    decreases fields.len(),
{
    if fields.len() == 0 {
        Map::empty()
    } else {
        fields_of(fields.drop_last()).insert(fields.last().0@, json(fields.last().1))
    }
}

/// `serde_json::Value::as_str`: the text of a string value, `None` for every
/// other kind of value.
#[verifier::external_body]
pub(crate) fn as_text<'a>(value: &'a Value) -> (found: Option<&'a str>)
    ensures
        match json(*value) {
            Json::Text(held) => found matches Some(text) && text@ == held,
            _ => found is None,
        },
{
    value.as_str()
}

/// `serde_json::Value::as_bool`: the truth value of a boolean, `None` for every
/// other kind of value.
#[verifier::external_body]
pub(crate) fn as_bool(value: &Value) -> (found: Option<bool>)
    ensures
        match json(*value) {
            Json::Bool(held) => found == Some(held),
            _ => found is None,
        },
{
    value.as_bool()
}

/// `serde_json::Value::get` with a string: the named field of an object, `None`
/// when the object lacks it and for every other kind of value.
#[verifier::external_body]
pub(crate) fn field<'a>(value: &'a Value, name: &str) -> (found: Option<&'a Value>)
    ensures
        match field_of(json(*value), name@) {
            Some(held) => found matches Some(inner) && json(*inner) == held,
            None => found is None,
        },
{
    value.get(name)
}

/// `serde_json::Value::clone`: a deep copy, indistinguishable from the value.
#[verifier::external_body]
pub(crate) fn copy_of(value: &Value) -> (copy: Value)
    ensures
        copy == *value,
{
    value.clone()
}

/// `serde_json::Value::is_null`: whether the value is null.
#[verifier::external_body]
pub(crate) fn is_null(value: &Value) -> (null: bool)
    ensures
        null == (json(*value) is Null),
{
    value.is_null()
}

/// `serde_json::Value::get` with a position: that element of an array, `None`
/// behind its end and for every other kind of value.
#[verifier::external_body]
pub(crate) fn element<'a>(value: &'a Value, at: usize) -> (found: Option<&'a Value>)
    ensures
        match json(*value) {
            Json::Array(items) => if at < items.len() {
                found matches Some(inner) && json(*inner) == items[at as int]
            } else {
                found is None
            },
            _ => found is None,
        },
{
    value.get(at)
}

/// `serde_json::Value::as_array`: how many elements an array has, `None` for
/// every other kind of value.
#[verifier::external_body]
pub(crate) fn array_len(value: &Value) -> (len: Option<usize>)
    ensures
        match json(*value) {
            Json::Array(items) => len matches Some(n) && n == items.len(),
            _ => len is None,
        },
{
    value.as_array().map(|items| items.len())
}

/// `serde_json::Value::as_object`: how many fields an object has, `None` for
/// every other kind of value.
#[verifier::external_body]
pub(crate) fn object_len(value: &Value) -> (len: Option<usize>)
    ensures
        match json(*value) {
            Json::Object(fields) => len matches Some(n) && fields.dom().finite() && n
                == fields.len(),
            _ => len is None,
        },
{
    value.as_object().map(|fields| fields.len())
}

/// `serde_json::Value::String`: the text as a string value.
#[verifier::external_body]
pub(crate) fn text_value(text: String) -> (value: Value)
    ensures
        json(value) == Json::Text(text@),
{
    Value::String(text)
}

/// `serde_json::Value::from` on an optional text: the text as a string value,
/// null for none.
#[verifier::external_body]
pub(crate) fn opt_text_value(text: Option<String>) -> (value: Value)
    ensures
        json(value) == opt_text(crate::text::opt_view(text)),
{
    Value::from(text)
}

/// `serde_json::Map::from_iter`, as a `serde_json::Value::Object`: the object
/// with these fields. No name occurs twice, so which of two would stay is left
/// open.
#[verifier::external_body]
pub(crate) fn object_of(fields: Vec<(String, Value)>) -> (value: Value)
    requires
        forall|i: int, j: int|
            0 <= i < j < fields.len() ==> (#[trigger] fields@[i]).0@ != (#[trigger] fields@[j]).0@,
    ensures
        json(value) == Json::Object(fields_of(fields@)),
{
    Value::Object(serde_json::Map::from_iter(fields))
}

/// The text of a named field, where the value is an object whose field is a
/// string.
pub fn text_field<'a>(value: &'a Value, name: &str) -> (found: Option<&'a str>)
    ensures
        crate::text::opt_str_view(found) == text_of(field_of(json(*value), name@)),
{
    match field(value, name) {
        Some(inner) => as_text(inner),
        None => None,
    }
}

} // verus!
