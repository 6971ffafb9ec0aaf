//! What the library takes from serde_json: the JSON types, parsing, and
//! looking values up by JSON pointer.

use vstd::prelude::*;

verus! {

#[verifier::external_type_specification]
#[verifier::external_body]
pub struct ExJsonValue(serde_json::Value);

#[verifier::external_type_specification]
#[verifier::external_body]
#[verifier::reject_recursive_types(K)]
#[verifier::reject_recursive_types(V)]
pub struct ExJsonMap<K, V>(serde_json::Map<K, V>);

#[verifier::external_type_specification]
#[verifier::external_body]
pub struct ExJsonError(serde_json::Error);

/// serde_json reads `text` as one JSON document.
pub uninterp spec fn is_json_document(text: Seq<char>) -> bool;

/// The string that the document read from `text` holds at the JSON pointer
/// `pointer`; `None` where nothing is there or the value is no string.
pub uninterp spec fn json_string_at(text: Seq<char>, pointer: Seq<char>) -> Option<Seq<char>>;

/// The document read from `text` holds an object at the JSON pointer `pointer`.
pub uninterp spec fn json_object_at(text: Seq<char>, pointer: Seq<char>) -> bool;

/// The object that the document read from `text` holds at the JSON pointer
/// `pointer`, where `json_object_at(text, pointer)` holds.
pub uninterp spec fn json_map_at(text: Seq<char>, pointer: Seq<char>) -> serde_json::Map<String, serde_json::Value>;

/// A JSON document with the text it was read from. Only `parse_document`
/// makes one, so the value is always what serde_json read from the text.
pub struct Document {
    text: String,
    value: serde_json::Value,
}

impl Document {
    /// The text the document was read from.
    pub closed spec fn source(&self) -> Seq<char> {
        self.text@
    }
}

/// Relies on serde_json::from_str into a `Value`: it fails exactly on text
/// that is not one JSON document, and which text that is depends on the text
/// alone.
#[verifier::external_body]
pub(crate) fn parse_document(text: &str) -> (r: Result<Document, serde_json::Error>)
    ensures
        r is Ok <==> is_json_document(text@),
        r matches Ok(d) ==> d.source() == text@,
{
    match serde_json::from_str(text) {
        Ok(value) => Ok(Document { text: text.to_string(), value }),
        Err(e) => Err(e),
    }
}

/// Relies on serde_json::Value::pointer: the value at `pointer`, kept when
/// it is a string. What is there depends on the text and the pointer alone.
#[verifier::external_body]
pub(crate) fn string_at<'a>(doc: &'a Document, pointer: &str) -> (r: Option<&'a str>)
    ensures
        match r {
            Some(s) => json_string_at(doc.source(), pointer@) == Some(s@),
            None => json_string_at(doc.source(), pointer@) is None,
        },
{
    match doc.value.pointer(pointer) {
        Some(serde_json::Value::String(s)) => Some(s.as_str()),
        Some(serde_json::Value::Null) => None,
        Some(serde_json::Value::Bool(_)) => None,
        Some(serde_json::Value::Number(_)) => None,
        Some(serde_json::Value::Array(_)) => None,
        Some(serde_json::Value::Object(_)) => None,
        None => None,
    }
}

/// Relies on serde_json::Value::pointer: the value at `pointer`, kept when
/// it is an object. What is there depends on the text and the pointer alone.
#[verifier::external_body]
pub(crate) fn object_at<'a>(
    doc: &'a Document,
    pointer: &str,
) -> (r: Option<&'a serde_json::Map<String, serde_json::Value>>)
    ensures
        r is Some <==> json_object_at(doc.source(), pointer@),
        r matches Some(m) ==> *m == json_map_at(doc.source(), pointer@),
{
    match doc.value.pointer(pointer) {
        Some(serde_json::Value::Object(m)) => Some(m),
        Some(serde_json::Value::Null) => None,
        Some(serde_json::Value::Bool(_)) => None,
        Some(serde_json::Value::Number(_)) => None,
        Some(serde_json::Value::String(_)) => None,
        Some(serde_json::Value::Array(_)) => None,
        None => None,
    }
}

/// serde_json's `Clone` for `Map<String, Value>`: a copy of the object, equal
/// to it as a value.
pub assume_specification[ <serde_json::Map<String, serde_json::Value> as Clone>::clone ](
    m: &serde_json::Map<String, serde_json::Value>,
) -> (r: serde_json::Map<String, serde_json::Value>)
    ensures
        r == *m,
;

} // verus!
