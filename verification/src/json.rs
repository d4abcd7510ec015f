//! Opaque JSON values and their ghost model.
//!
//! Incoming records are parsed into `serde_json::Value`, which the verifier
//! cannot look inside. This module names what such a value holds — a ghost
//! `JsonModel` — and wraps the few accessors the classifier needs, each with a
//! contract over that model.

use vstd::prelude::*;
use vstd::string::StringSliceAdditionalSpecFns;

verus! {

/// Ghost model of a JSON value. Text is modeled as its UTF-8 bytes and object
/// keys likewise; numbers carry no payload because nothing in this library
/// reads one.
pub enum JsonModel {
    Null,
    Bool(bool),
    Number,
    Text(Seq<u8>),
    Array(Seq<JsonModel>),
    Object(Map<Seq<u8>, JsonModel>),
}

#[verifier::external_type_specification]
#[verifier::external_body]
pub struct ExJsonValue(serde_json::Value);

/// What a parsed JSON value holds.
pub uninterp spec fn value_model(v: serde_json::Value) -> JsonModel;

/// What a byte string denotes as JSON: `None` when it does not parse,
/// otherwise the model of the parsed value.
pub uninterp spec fn json_of(bytes: Seq<u8>) -> Option<JsonModel>;

/// Relies on serde_json::from_slice::<serde_json::Value>: whether bytes parse
/// as a JSON document, and the value they denote, depend on the bytes alone.
#[verifier::external_body]
pub(crate) fn parse_json(bytes: &[u8]) -> (r: Option<serde_json::Value>)
    ensures
        r is Some <==> json_of(bytes@) is Some,
        r matches Some(v) ==> json_of(bytes@) == Some(value_model(v)),
{
    serde_json::from_slice(bytes).ok()
}

/// Relies on serde_json::Value::get with a string index: on an object it
/// looks the key up in the map, on every other value it returns `None`.
#[verifier::external_body]
pub(crate) fn value_get<'a>(v: &'a serde_json::Value, key: &str) -> (r: Option<
    &'a serde_json::Value,
>)
    ensures
        r is Some <==> (value_model(*v) matches JsonModel::Object(m) && m.contains_key(
            key.spec_bytes(),
        )),
        r matches Some(f) ==> (value_model(*v) matches JsonModel::Object(m) && m.contains_key(
            key.spec_bytes(),
        ) && value_model(*f) == m[key.spec_bytes()]),
{
    v.get(key)
}

/// Relies on serde_json::Value::as_str: the string slice exactly when the
/// value is a JSON string.
#[verifier::external_body]
pub(crate) fn value_as_str<'a>(v: &'a serde_json::Value) -> (r: Option<&'a str>)
    ensures
        r is Some <==> value_model(*v) is Text,
        r matches Some(s) ==> value_model(*v) == JsonModel::Text(s.spec_bytes()),
{
    v.as_str()
}

/// Relies on serde_json::Value::as_array: the element vector exactly when the
/// value is a JSON array.
#[verifier::external_body]
pub(crate) fn value_as_array<'a>(v: &'a serde_json::Value) -> (r: Option<
    &'a Vec<serde_json::Value>,
>)
    ensures
        r is Some <==> value_model(*v) is Array,
        r matches Some(a) ==> value_model(*v) == JsonModel::Array(
            a@.map_values(|x: serde_json::Value| value_model(x)),
        ),
{
    v.as_array()
}

/// Field lookup on the model: what `Value::get` sees.
pub open spec fn get_field(j: JsonModel, key: Seq<u8>) -> Option<JsonModel> {
    match j {
        JsonModel::Object(m) => if m.contains_key(key) {
            Some(m[key])
        } else {
            None
        },
        _ => None,
    }
}

} // verus!
