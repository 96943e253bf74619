//! Reading records out of JSON payloads.
//!
//! A record is an object, with its fields by name, or an array, with its fields
//! in order. Fields it does not know are ignored in an object and refused in an
//! array. An optional field may be missing or null.

use serde_json::Value;
use vstd::prelude::*;

use crate::json::{self, Json};
use crate::text;

verus! {

/// The field of a record, by its name or by its position.
pub open spec fn part(held: Json, name: Seq<char>, at: int) -> Option<Json> {
    match held {
        Json::Object(_) => json::field_of(held, name),
        Json::Array(items) => if 0 <= at < items.len() {
            Some(items[at])
        } else {
            None
        },
        _ => None,
    }
}

/// Whether a value can be a record of so many fields at all.
pub open spec fn is_record(held: Json, fields: int) -> bool {
    match held {
        Json::Object(_) => true,
        Json::Array(items) => items.len() <= fields,
        _ => false,
    }
}

/// An optional text field: missing and null are no text, a string is its text,
/// and anything else is not a field of the record.
pub open spec fn optional_text(held: Option<Json>) -> Option<Option<Seq<char>>> {
    match held {
        None | Some(Json::Null) => Some(None),
        Some(Json::Text(text)) => Some(Some(text)),
        _ => None,
    }
}

/// An optional field of any kind: missing and null are nothing.
pub open spec fn optional_value(held: Option<Json>) -> Option<Json> {
    match held {
        None | Some(Json::Null) => None,
        Some(inner) => Some(inner),
    }
}

/// Whether a value names a variant: by its name, or by an object whose one
/// field has that name and is null.
pub open spec fn names_variant(held: Json, name: Seq<char>) -> bool {
    match held {
        Json::Text(text) => text == name,
        Json::Object(fields) => fields.len() == 1 && json::field_of(held, name) == Some(Json::Null),
        _ => false,
    }
}

/// The field of a record, by its name or by its position.
pub fn find_part<'a>(value: &'a Value, name: &str, at: usize) -> (found: Option<&'a Value>)
    ensures
        match part(json::json(*value), name@, at as int) {
            Some(held) => found matches Some(inner) && json::json(*inner) == held,
            None => found is None,
        },
{
    match json::object_len(value) {
        Some(_) => json::field(value, name),
        None => json::element(value, at),
    }
}

/// Whether a value can be a record of so many fields at all.
pub fn can_be_record(value: &Value, fields: usize) -> (possible: bool)
    ensures
        possible == is_record(json::json(*value), fields as int),
{
    if json::object_len(value).is_some() {
        return true;
    }
    match json::array_len(value) {
        Some(len) => len <= fields,
        None => false,
    }
}

/// A required text field.
pub fn required_text_part(value: &Value, name: &str, at: usize) -> (found: Option<String>)
    ensures
        text::opt_view(found) == json::text_of(part(json::json(*value), name@, at as int)),
{
    match find_part(value, name, at) {
        Some(inner) => text::opt_owned(json::as_text(inner)),
        None => None,
    }
}

/// An optional text field; `None` where the field is there and is no text.
pub fn optional_text_part(value: &Value, name: &str, at: usize) -> (found: Option<Option<String>>)
    ensures
        match optional_text(part(json::json(*value), name@, at as int)) {
            Some(held) => found matches Some(text) && text::opt_view(text) == held,
            None => found is None,
        },
{
    match find_part(value, name, at) {
        Some(inner) => if json::is_null(inner) {
            Some(None)
        } else {
            match json::as_text(inner) {
                Some(text) => Some(Some(text.to_string())),
                None => None,
            }
        },
        None => Some(None),
    }
}

/// The contents of an optional value.
pub open spec fn opt_json(value: Option<Value>) -> Option<Json> {
    match value {
        Some(held) => Some(json::json(held)),
        None => None,
    }
}

/// An optional field of any kind.
pub fn optional_value_part(value: &Value, name: &str, at: usize) -> (found: Option<Value>)
    ensures
        opt_json(found) == optional_value(part(json::json(*value), name@, at as int)),
{
    match find_part(value, name, at) {
        Some(inner) => if json::is_null(inner) {
            None
        } else {
            Some(json::copy_of(inner))
        },
        None => None,
    }
}

/// Whether a value names a variant.
pub fn is_variant(value: &Value, name: &str) -> (named: bool)
    ensures
        named == names_variant(json::json(*value), name@),
{
    match json::as_text(value) {
        Some(text) => text::str_eq(text, name),
        None => match json::object_len(value) {
            Some(len) => len == 1 && match json::field(value, name) {
                Some(inner) => json::is_null(inner),
                None => false,
            },
            None => false,
        },
    }
}

} // verus!
