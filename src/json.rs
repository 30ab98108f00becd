//! What a response body holds at a path, read with serde_json.
use vstd::prelude::*;

verus! {

/// The value found at a path of a JSON document, as far as a price reader cares.
#[derive(Clone, Debug, PartialEq, Eq)]
pub enum JsonLeaf {
    /// Nothing stands at the path.
    Missing,
    /// A JSON string, its contents.
    Text(String),
    /// A JSON number, as serde_json writes it back out.
    Number(String),
    /// An object, an array, a boolean or null.
    Other,
}

/// What `serde_json` finds at a JSON pointer of a text: `None` where the text is
/// not one JSON document.
pub uninterp spec fn json_leaf_at(text: Seq<char>, pointer: Seq<char>) -> Option<JsonLeaf>;

/// Relies on serde_json::from_str into a `Value` (an error exactly where the text is
/// not one JSON document), then on `Value::pointer` (RFC 6901 lookup) and on the
/// `Display` of `Number`. The result depends on the two texts alone.
#[verifier::external_body]
pub(crate) fn leaf_at(text: &str, pointer: &str) -> (r: Option<JsonLeaf>)
    ensures
        r == json_leaf_at(text@, pointer@),
{
    match serde_json::from_str::<serde_json::Value>(text) {
        Err(_) => None,
        Ok(v) => Some(match v.pointer(pointer) {
            None => JsonLeaf::Missing,
            Some(serde_json::Value::String(s)) => JsonLeaf::Text(s.clone()),
            Some(serde_json::Value::Number(n)) => JsonLeaf::Number(n.to_string()),
            Some(_) => JsonLeaf::Other,
        }),
    }
}

} // verus!
