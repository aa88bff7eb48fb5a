//! The calls into `serde_json` that reading a Game State Integration payload
//! makes. A parsed document keeps the bytes it was parsed from, and what the
//! calls return is named as a function of those bytes.

use vstd::prelude::*;

use serde_json::Value;

use crate::gsi::{leaf_view_of, JsonScalar, LeafView};

verus! {

#[verifier::external_type_specification]
#[verifier::external_body]
pub struct ExJsonValue(serde_json::Value);

/// A JSON document that `serde_json` parsed, with the bytes it was parsed
/// from. Only `json_parse` makes one, so the two always belong together.
pub struct JsonDoc {
    value: Value,
    source: Vec<u8>,
}

impl View for JsonDoc {
    type V = Seq<u8>;

    /// The bytes the document was parsed from.
    closed spec fn view(&self) -> Seq<u8> {
        self.source@
    }
}

/// What `serde_json` says of the bytes as one JSON document: `None` when it
/// accepts them, else its description of the error (its message, line and
/// column).
pub uninterp spec fn json_parse_error(bytes: Seq<u8>) -> Option<Seq<char>>;

/// Whether `serde_json` accepts the bytes as one JSON document.
pub open spec fn json_accepts(bytes: Seq<u8>) -> bool {
    json_parse_error(bytes) is None
}

/// The leaf that the JSON pointer `pointer` addresses in the document parsed
/// from `doc`: a boolean, a number as its decimal text, a string, or another
/// value; `None` where the pointer addresses nothing.
pub uninterp spec fn json_leaf(doc: Seq<u8>, pointer: Seq<char>) -> Option<LeafView>;

/// The keys, in the map's order, of the root member `key` of the document
/// parsed from `doc`, when that member is an object.
pub uninterp spec fn json_member_keys(doc: Seq<u8>, key: Seq<char>) -> Option<Seq<Seq<char>>>;

/// `serde_json::from_slice::<Value>`: parses the bytes as one JSON document;
/// an error is turned into its text by `Display`. Stated: the document it
/// gives is that of the bytes passed in, and whether it succeeds, and the
/// error's text when it does not, are what `json_parse_error` names for the
/// bytes.
#[verifier::external_body]
pub(crate) fn json_parse(bytes: &[u8]) -> (r: Result<JsonDoc, String>)
    ensures
        match r {
            Ok(doc) => json_parse_error(bytes@) is None && doc@ == bytes@,
            Err(message) => json_parse_error(bytes@) == Some(message@),
        },
{
    match serde_json::from_slice::<Value>(bytes) {
        Ok(value) => Ok(JsonDoc { value, source: bytes.to_vec() }),
        Err(error) => Err(error.to_string()),
    }
}

/// `Value::pointer`, with the value found turned into a leaf (a number by
/// `Number`'s `Display`). Stated: the result is the leaf that `json_leaf`
/// names for the document's bytes and the pointer.
#[verifier::external_body]
pub(crate) fn json_leaf_at(doc: &JsonDoc, pointer: &str) -> (r: Option<JsonScalar>)
    ensures
        leaf_view_of(r) == json_leaf(doc@, pointer@),
{
    match doc.value.pointer(pointer) {
        None => None,
        Some(Value::Bool(b)) => Some(JsonScalar::Bool(*b)),
        Some(Value::Number(n)) => Some(JsonScalar::Number(n.to_string())),
        Some(Value::String(s)) => Some(JsonScalar::Text(s.clone())),
        Some(_) => Some(JsonScalar::Other),
    }
}

/// `Value::get` on the root, then `Map::keys` of the object found. Stated:
/// the result is what `json_member_keys` names for the document's bytes and
/// the key.
#[verifier::external_body]
pub(crate) fn json_member_keys_of(doc: &JsonDoc, key: &str) -> (r: Option<Vec<String>>)
    ensures
        match r {
            Some(keys) => json_member_keys(doc@, key@) == Some(
                keys@.map_values(|k: String| k@),
            ),
            None => json_member_keys(doc@, key@) is None,
        },
{
    match doc.value.get(key) {
        Some(Value::Object(map)) => Some(map.keys().cloned().collect()),
        _ => None,
    }
}

} // verus!
