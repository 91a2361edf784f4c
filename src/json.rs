use vstd::prelude::*;
use crate::reading::Reading;

verus! {

/// A JSON number as the decoders read it: the unsigned integer it is, if it
/// is one, and the floating-point value it converts to, if any.
#[derive(Clone, Debug)]
pub struct JsonNumber {
    pub unsigned: Option<u64>,
    pub real: Option<Reading>,
}

/// A parsed JSON document. Object members keep the order in which the parser
/// hands them out, one member per key.
#[derive(Debug)]
pub enum Json {
    Null,
    Bool(bool),
    Number(JsonNumber),
    Text(String),
    Array(Vec<Json>),
    Object(Vec<(String, Json)>),
}

/// `serde_json`'s dynamically typed JSON value, carried opaquely.
#[verifier::external_type_specification]
#[verifier::external_body]
pub struct ExValue(serde_json::Value);

/// What `serde_json` parses a text into, as a `Json` tree; `None` when the
/// text is not a JSON document.
pub uninterp spec fn json_parse(text: Seq<char>) -> Option<Json>;

/// Relies on `serde_json::from_str::<serde_json::Value>`: the result depends
/// on the text alone. The tree is converted member for member.
#[verifier::external_body]
pub(crate) fn parse_document(text: &str) -> (r: Option<Json>)
    ensures
        r == json_parse(text@),
{
    serde_json::from_str::<serde_json::Value>(text).ok().map(json_of_value)
}

/// The conversion step of `parse_document`, recursive over the tree: it moves
/// each node into the matching `Json` variant; a number keeps `as_u64` and the
/// encoding of `as_f64`.
#[verifier::external_body]
fn json_of_value(v: serde_json::Value) -> Json {
    match v {
        serde_json::Value::Null => Json::Null,
        serde_json::Value::Bool(b) => Json::Bool(b),
        serde_json::Value::Number(n) => Json::Number(
            JsonNumber { unsigned: n.as_u64(), real: n.as_f64().map(|x| Reading { bits: x.to_bits() }) },
        ),
        serde_json::Value::String(s) => Json::Text(s),
        serde_json::Value::Array(a) => Json::Array(a.into_iter().map(json_of_value).collect()),
        serde_json::Value::Object(m) => Json::Object(m.into_iter().map(|(k, x)| (k, json_of_value(x))).collect()),
    }
}

} // verus!
