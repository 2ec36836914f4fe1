//! A plain representation of a parsed JSON document, and the one
//! trusted crossing into serde_json that produces it. Everything the
//! schema layer does with the tree afterwards is verified.

use vstd::prelude::*;

verus! {

/// A JSON tree as plain values. Numbers outside the unsigned 64-bit
/// range (negative or fractional) carry no payload: nothing in the
/// upstream item schema reads them, only their presence matters.
pub enum JsonVal {
    Null,
    Bool(bool),
    UInt(u64),
    NonUInt,
    Str(String),
    Arr(Vec<JsonVal>),
    Obj(Vec<(String, JsonVal)>),
}

/// What parsing a byte string as one JSON document yields: a function
/// of the bytes alone, `None` on malformed input.
pub uninterp spec fn json_parse(b: Seq<u8>) -> Option<JsonVal>;

#[verifier::external_type_specification]
#[verifier::external_body]
pub struct ExValue(serde_json::Value);

/// Relies on the serde_json::Value variants: each arm moves one parsed
/// node into the crate's own representation, arrays and objects
/// recursively; serde_json::Number::as_u64 tells whole unsigned
/// numbers apart from the rest.
#[verifier::external_body]
fn tree_of_value(v: serde_json::Value) -> JsonVal {
    match v {
        serde_json::Value::Null => JsonVal::Null,
        serde_json::Value::Bool(b) => JsonVal::Bool(b),
        serde_json::Value::Number(n) => match n.as_u64() {
            Some(u) => JsonVal::UInt(u),
            None => JsonVal::NonUInt,
        },
        serde_json::Value::String(s) => JsonVal::Str(s),
        serde_json::Value::Array(a) => JsonVal::Arr(a.into_iter().map(tree_of_value).collect()),
        serde_json::Value::Object(m) => JsonVal::Obj(
            m.into_iter().map(|(k, w)| (k, tree_of_value(w))).collect(),
        ),
    }
}

/// Relies on serde_json::from_slice::<serde_json::Value>: the parse is
/// a function of the input bytes alone (objects come back with unique
/// keys, sorted; a repeated key keeps its last value), and a malformed
/// document is an error, reported here as None.
#[verifier::external_body]
pub fn parse_json(b: &[u8]) -> (r: Option<JsonVal>)
    ensures
        r == json_parse(b@),
{
    match serde_json::from_slice::<serde_json::Value>(b) {
        Ok(v) => Some(tree_of_value(v)),
        Err(_) => None,
    }
}

} // verus!
