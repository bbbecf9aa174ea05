//! The JSON model the payload logic works on.  Parsing is done by
//! `serde_json` behind trusted declarations; the parsed document is rebuilt
//! as the library's own tree so that path navigation is verified.

use vstd::prelude::*;

verus! {

/// A JSON document as the payload logic reads it: string leaves, arrays and
/// objects in declaration order; every other scalar (null, booleans,
/// numbers) collapses to `Other`, which no path can resolve to a string.
pub enum Json {
    Str(String),
    Arr(Vec<Json>),
    Obj(Vec<(String, Json)>),
    Other,
}

#[verifier::external_type_specification]
#[verifier::external_body]
pub struct ExJsonValue(serde_json::Value);

/// The contents of a `serde_json::Value`, seen as the library's own tree.
pub uninterp spec fn json_of(v: serde_json::Value) -> Json;

/// What `serde_json::from_str::<serde_json::Value>` parses a text to, seen
/// through `json_of`; `None` when the text is not valid JSON.
pub uninterp spec fn json_parse(s: Seq<char>) -> Option<Json>;

/// Relies on `serde_json::from_str::<serde_json::Value>`: whether a text
/// parses, and what it parses to, depend on the text alone.
#[verifier::external_body]
fn parse_json_value(s: &str) -> (r: Option<serde_json::Value>)
    ensures
        match r {
            Some(v) => json_parse(s@) == Some(json_of(v)),
            None => json_parse(s@) is None,
        },
{
    match serde_json::from_str::<serde_json::Value>(s) {
        Ok(v) => Some(v),
        Err(_) => None,
    }
}

/// Relies on the variants of `serde_json::Value`: rebuilds the value as the
/// library's own tree, one arm per variant, keys and elements in order.
#[verifier::external_body]
fn json_value_to_tree(v: &serde_json::Value) -> (r: Json)
    ensures
        r == json_of(*v),
{
    match v {
        serde_json::Value::String(s) => Json::Str(s.clone()),
        serde_json::Value::Array(a) => Json::Arr(a.iter().map(json_value_to_tree).collect()),
        serde_json::Value::Object(o) => Json::Obj(
            o.iter().map(|(k, x)| (k.clone(), json_value_to_tree(x))).collect(),
        ),
        _ => Json::Other,
    }
}

/// Parse a JSON text into the library's tree; `None` when malformed.
pub fn parse_json(s: &str) -> (r: Option<Json>)
    ensures
        match r {
            Some(doc) => json_parse(s@) == Some(doc),
            None => json_parse(s@) is None,
        },
{
    match parse_json_value(s) {
        Some(v) => Some(json_value_to_tree(&v)),
        None => None,
    }
}

} // verus!
