//! JSON values, one level deep.

use vstd::prelude::*;
use serde_json::Value;

verus! {

/// A JSON value. What lies inside an array or an object is held as JSON
/// text, to be read again where it is needed.
#[derive(Debug, Clone, PartialEq, Eq)]
pub enum Json {
    Null,
    Bool(bool),
    /// A number, as it is written out.
    Number(String),
    Text(String),
    /// The elements, each as JSON text.
    Array(Vec<String>),
    /// The members in the order of their keys, each value as JSON text.
    Object(Vec<(String, String)>),
}

/// What a [`Json`] value holds.
pub enum JsonView {
    Null,
    Bool(bool),
    Number(Seq<char>),
    Text(Seq<char>),
    Array(Seq<Seq<char>>),
    Object(Seq<(Seq<char>, Seq<char>)>),
}

impl View for Json {
    type V = JsonView;

    open spec fn view(&self) -> JsonView {
        match self {
            Json::Null => JsonView::Null,
            Json::Bool(b) => JsonView::Bool(*b),
            Json::Number(n) => JsonView::Number(n@),
            Json::Text(t) => JsonView::Text(t@),
            Json::Array(a) => JsonView::Array(Seq::new(a@.len(), |i: int| a@[i]@)),
            Json::Object(m) => JsonView::Object(Seq::new(m@.len(), |i: int| (m@[i].0@, m@[i].1@))),
        }
    }
}

/// What a parsed text holds.
pub open spec fn json_view(value: Option<Json>) -> Option<JsonView> {
    match value {
        Some(v) => Some(v@),
        None => None,
    }
}

/// The JSON value that a text writes, where it writes one.
pub uninterp spec fn json_of(text: Seq<char>) -> Option<JsonView>;

/// Calls `serde_json::from_str` for a `serde_json::Value` and tells its
/// variants apart; numbers, elements and member values are written out with
/// their `to_string`. The result depends on the text alone. The contract
/// names it; it does not say which texts are JSON.
#[verifier::external_body]
pub(crate) fn parse_json(text: &str) -> (r: Option<Json>)
    ensures
        json_view(r) == json_of(text@),
{
    Some(match serde_json::from_str::<Value>(text).ok()? {
        Value::Null => Json::Null,
        Value::Bool(b) => Json::Bool(b),
        Value::Number(n) => Json::Number(n.to_string()),
        Value::String(s) => Json::Text(s),
        Value::Array(a) => Json::Array(a.iter().map(|v| v.to_string()).collect()),
        Value::Object(m) => Json::Object(m.iter().map(|(k, v)| (k.clone(), v.to_string())).collect()),
    })
}

} // verus!
