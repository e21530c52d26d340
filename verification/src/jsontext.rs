//! The JSON boundary: every structured parser reads JSON text through the
//! four small functions here, which lean on `serde_json`.
//!
//! What a given text decodes to is a function of the text alone, so each
//! result is given a name (an otherwise unspecified spec function) and the
//! verified parsers are specified over those names.

use vstd::prelude::*;

verus! {

/// Whether `s` is one well-formed JSON document.
pub uninterp spec fn json_parses(s: Seq<char>) -> bool;

/// The texts of the top-level elements of the JSON document `s`: the items
/// of an array, or the document itself when it is not an array; nothing
/// when `s` is not well-formed JSON.
pub uninterp spec fn json_element_texts(s: Seq<char>) -> Option<Seq<Seq<char>>>;

/// The string value of the field `key` of the JSON object written in `s`,
/// when `s` is a well-formed object and that field holds a string.
pub uninterp spec fn json_str_field(s: Seq<char>, key: Seq<char>) -> Option<Seq<char>>;

/// The value of the field `key` of the JSON object written in `s`, when
/// `s` is a well-formed object and that field holds an unsigned integer.
pub uninterp spec fn json_u64_field(s: Seq<char>, key: Seq<char>) -> Option<u64>;

/// Whether `s` is one well-formed JSON document.
///
/// Relies on `serde_json::from_str::<serde_json::Value>`, which accepts
/// exactly the well-formed documents; acceptance depends on the text alone.
#[verifier::external_body]
pub(crate) fn json_is_valid(s: &str) -> (r: bool)
    ensures
        r == json_parses(s@),
{
    serde_json::from_str::<serde_json::Value>(s).is_ok()
}

/// Splits one JSON document into the texts of its top-level elements: an
/// array yields its items, any other document yields itself.
///
/// Relies on `serde_json::from_str::<serde_json::Value>` to decode the
/// document and on `serde_json::Value`'s `to_string` to write each array
/// item back out; both depend on the text alone.
#[verifier::external_body]
pub(crate) fn json_elements(s: &str) -> (r: Option<Vec<String>>)
    ensures
        match r {
            Some(v) => json_element_texts(s@) == Some(v.deep_view()),
            None => json_element_texts(s@) is None,
        },
{
    match serde_json::from_str::<serde_json::Value>(s) {
        Ok(serde_json::Value::Array(items)) => Some(
            items.iter().map(|item| item.to_string()).collect(),
        ),
        Ok(_) => Some(vec![s.to_string()]),
        Err(_) => None,
    }
}

/// Reads one string field of the JSON object written in `s`.
///
/// Relies on `serde_json::from_str::<serde_json::Value>`, `Value::get` and
/// `Value::as_str`: the result is the field's string value when the
/// document is an object, the field is present and it holds a string, and
/// `None` otherwise; it depends on the text and the key alone.
#[verifier::external_body]
pub(crate) fn json_get_str(s: &str, key: &str) -> (r: Option<String>)
    ensures
        match r {
            Some(v) => json_str_field(s@, key@) == Some(v@),
            None => json_str_field(s@, key@) is None,
        },
{
    match serde_json::from_str::<serde_json::Value>(s) {
        Ok(v) => v.get(key).and_then(|f| f.as_str()).map(|t| t.to_string()),
        Err(_) => None,
    }
}

/// Reads one unsigned-integer field of the JSON object written in `s`.
///
/// Relies on `serde_json::from_str::<serde_json::Value>`, `Value::get` and
/// `Value::as_u64`: the result is the field's value when the document is an
/// object, the field is present and it holds an integer that fits in a
/// `u64`, and `None` otherwise; it depends on the text and the key alone.
#[verifier::external_body]
pub(crate) fn json_get_u64(s: &str, key: &str) -> (r: Option<u64>)
    ensures
        match r {
            Some(v) => json_u64_field(s@, key@) == Some(v),
            None => json_u64_field(s@, key@) is None,
        },
{
    match serde_json::from_str::<serde_json::Value>(s) {
        Ok(v) => v.get(key).and_then(|f| f.as_u64()),
        Err(_) => None,
    }
}

} // verus!
