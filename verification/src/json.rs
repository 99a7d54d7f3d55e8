//! Trusted access to the raw JSON document that a fetch produced.
//!
//! The remote snapshot arrives as one `serde_json::Value`. The value is opaque
//! to the verifier, so each way the decoder reads it goes through one small
//! trusted wrapper around the corresponding `serde_json` operation. Every one
//! of those operations is a pure function of its arguments, so each wrapper's
//! result carries a name that the decoder's contract can speak of.

use vstd::prelude::*;

verus! {

#[verifier::external_type_specification]
#[verifier::external_body]
pub struct ExValue(serde_json::Value);

/// The JSON value denoted by a piece of text, or `None` when the text is not
/// valid JSON. Named, not written out: JSON's grammar takes pages to state.
pub uninterp spec fn json_value_of(text: Seq<char>) -> Option<serde_json::Value>;

/// The member of an object under a key, or `None` when the value is not an
/// object or has no such member.
pub uninterp spec fn json_member_of(v: serde_json::Value, key: Seq<char>) -> Option<
    serde_json::Value,
>;

/// A JSON string's text, or `None` when the value is not a string.
pub uninterp spec fn json_string_of(v: serde_json::Value) -> Option<Seq<char>>;

/// A JSON number's decimal text, or `None` when the value is not a number.
pub uninterp spec fn json_number_text_of(v: serde_json::Value) -> Option<Seq<u8>>;

/// A JSON array's items in order, or `None` when the value is not an array.
pub uninterp spec fn json_items_of(v: serde_json::Value) -> Option<Seq<serde_json::Value>>;

/// A JSON object's entries in the object map's iteration order, or `None`
/// when the value is not an object.
pub uninterp spec fn json_entries_of(v: serde_json::Value) -> Option<
    Seq<(Seq<char>, serde_json::Value)>,
>;

/// Relies on serde_json::from_str: parses JSON text into a `Value`; a pure
/// function of the text, here named [`json_value_of`].
#[verifier::external_body]
pub(crate) fn parse_json(s: &str) -> (r: Option<serde_json::Value>)
    ensures
        match r {
            Some(v) => json_value_of(s@) == Some(v),
            None => json_value_of(s@) is None,
        },
{
    serde_json::from_str(s).ok()
}

/// Relies on serde_json::Value::get: the member of an object under the given
/// key; a pure function of value and key, here named [`json_member_of`].
#[verifier::external_body]
pub(crate) fn json_get<'a>(v: &'a serde_json::Value, key: &str) -> (r: Option<
    &'a serde_json::Value,
>)
    ensures
        match r {
            Some(m) => json_member_of(*v, key@) == Some(*m),
            None => json_member_of(*v, key@) is None,
        },
{
    v.get(key)
}

/// Relies on serde_json::Value::String carrying the string's text; named
/// [`json_string_of`].
#[verifier::external_body]
pub(crate) fn json_str(v: &serde_json::Value) -> (r: Option<String>)
    ensures
        match r {
            Some(s) => json_string_of(*v) == Some(s@),
            None => json_string_of(*v) is None,
        },
{
    match v {
        serde_json::Value::String(s) => Some(s.clone()),
        _ => None,
    }
}

/// Relies on serde_json::Number's Display impl: the decimal text of a JSON
/// number (plain digits for integers, shortest round-trip form for floats),
/// a pure function of the number; named [`json_number_text_of`].
#[verifier::external_body]
pub(crate) fn json_number_bytes(v: &serde_json::Value) -> (r: Option<Vec<u8>>)
    ensures
        match r {
            Some(b) => json_number_text_of(*v) == Some(b@),
            None => json_number_text_of(*v) is None,
        },
{
    match v {
        serde_json::Value::Number(n) => Some(n.to_string().into_bytes()),
        _ => None,
    }
}

/// Relies on serde_json::Value::Array carrying the array's items; named
/// [`json_items_of`].
#[verifier::external_body]
pub(crate) fn json_array(v: &serde_json::Value) -> (r: Option<Vec<serde_json::Value>>)
    ensures
        match r {
            Some(items) => json_items_of(*v) == Some(items@),
            None => json_items_of(*v) is None,
        },
{
    match v {
        serde_json::Value::Array(items) => Some(items.clone()),
        _ => None,
    }
}

/// Relies on serde_json::Value::Object and serde_json::Map::iter: the object's
/// entries in the map's iteration order (sorted by key, since the map is a
/// BTreeMap), a pure function of the object; named [`json_entries_of`].
#[verifier::external_body]
pub(crate) fn json_object_entries(v: &serde_json::Value) -> (r: Option<
    Vec<(String, serde_json::Value)>,
>)
    ensures
        match r {
            Some(entries) => json_entries_of(*v) == Some(
                entries@.map_values(|p: (String, serde_json::Value)| (p.0@, p.1)),
            ),
            None => json_entries_of(*v) is None,
        },
{
    match v {
        serde_json::Value::Object(map) => Some(
            map.iter().map(|(k, val)| (k.clone(), val.clone())).collect(),
        ),
        _ => None,
    }
}

} // verus!
