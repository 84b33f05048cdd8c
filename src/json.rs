//! One level of a JSON document at a time, read with serde_json.
use vstd::prelude::*;
use serde_json::Value;

verus! {

/// The top level of a JSON value. The members of an array or an object are
/// kept as their own JSON text, to be read in turn.
#[derive(Debug, Clone)]
pub enum JsonNode {
    Null,
    Bool(bool),
    /// A number, in serde_json's notation.
    Number(String),
    Text(String),
    /// The items' JSON texts, in order.
    Array(Vec<String>),
    /// Each key with its value's JSON text.
    Object(Vec<(String, String)>),
}

/// `JsonNode` as character sequences.
pub enum NodeModel {
    Null,
    Bool(bool),
    Number(Seq<char>),
    Text(Seq<char>),
    Array(Seq<Seq<char>>),
    Object(Seq<(Seq<char>, Seq<char>)>),
}

impl View for JsonNode {
    type V = NodeModel;

    open spec fn view(&self) -> NodeModel {
        match self {
            JsonNode::Null => NodeModel::Null,
            JsonNode::Bool(b) => NodeModel::Bool(*b),
            JsonNode::Number(n) => NodeModel::Number(n@),
            JsonNode::Text(s) => NodeModel::Text(s@),
            JsonNode::Array(items) => NodeModel::Array(items.deep_view()),
            JsonNode::Object(members) => NodeModel::Object(members.deep_view()),
        }
    }
}

/// The top level of `text` read as one JSON value, or `None` where it is
/// not JSON.
pub uninterp spec fn json_node_of(text: Seq<char>) -> Option<NodeModel>;

/// Relies on `serde_json::from_str` into `serde_json::Value`: whether `text`
/// is one JSON value, and that value's top level. Members are rendered back
/// to compact JSON by `serde_json::Value`'s `Display`.
#[verifier::external_body]
pub(crate) fn parse_json_node(text: &str) -> (r: Option<JsonNode>)
    ensures
        r is Some <==> json_node_of(text@) is Some,
        r matches Some(n) ==> json_node_of(text@) == Some(n@),
{
    match serde_json::from_str::<Value>(text) {
        Ok(Value::Null) => Some(JsonNode::Null),
        Ok(Value::Bool(b)) => Some(JsonNode::Bool(b)),
        Ok(Value::Number(n)) => Some(JsonNode::Number(n.to_string())),
        Ok(Value::String(s)) => Some(JsonNode::Text(s)),
        Ok(Value::Array(a)) => Some(JsonNode::Array(a.iter().map(|v| v.to_string()).collect())),
        Ok(Value::Object(m)) => Some(JsonNode::Object(m.iter().map(|(k, v)| (k.clone(), v.to_string())).collect())),
        Err(_) => None,
    }
}

/// `text` as a JSON object: its members.
pub open spec fn as_object(text: Seq<char>) -> Option<Seq<(Seq<char>, Seq<char>)>> {
    match json_node_of(text) {
        Some(NodeModel::Object(ms)) => Some(ms),
        _ => None,
    }
}

/// `text` as a JSON array: its items' texts.
pub open spec fn as_array(text: Seq<char>) -> Option<Seq<Seq<char>>> {
    match json_node_of(text) {
        Some(NodeModel::Array(items)) => Some(items),
        _ => None,
    }
}

/// `text` as a JSON string: its characters.
pub open spec fn as_text(text: Seq<char>) -> Option<Seq<char>> {
    match json_node_of(text) {
        Some(NodeModel::Text(s)) => Some(s),
        _ => None,
    }
}

/// The value text of the first member of `ms` named `key`.
pub open spec fn member(ms: Seq<(Seq<char>, Seq<char>)>, key: Seq<char>) -> Option<Seq<char>>
    decreases ms.len(),
{
    if ms.len() == 0 {
        None
    } else if ms[0].0 == key {
        Some(ms[0].1)
    } else {
        member(ms.drop_first(), key)
    }
}

/// An optional text as character sequences.
pub open spec fn opt_view(o: Option<String>) -> Option<Seq<char>> {
    match o {
        Some(s) => Some(s@),
        None => None,
    }
}

/// Reads `text` as a JSON object.
pub fn object_of(text: &str) -> (r: Option<Vec<(String, String)>>)
    ensures
        r is Some <==> as_object(text@) is Some,
        r matches Some(ms) ==> as_object(text@) == Some(ms.deep_view()),
{
    match parse_json_node(text) {
        Some(JsonNode::Object(ms)) => Some(ms),
        _ => None,
    }
}

/// Reads `text` as a JSON array.
pub fn array_of(text: &str) -> (r: Option<Vec<String>>)
    ensures
        r is Some <==> as_array(text@) is Some,
        r matches Some(items) ==> as_array(text@) == Some(items.deep_view()),
{
    match parse_json_node(text) {
        Some(JsonNode::Array(items)) => Some(items),
        _ => None,
    }
}

/// Reads `text` as a JSON string.
pub fn text_of(text: &str) -> (r: Option<String>)
    ensures
        opt_view(r) == as_text(text@),
{
    match parse_json_node(text) {
        Some(JsonNode::Text(s)) => Some(s),
        _ => None,
    }
}

/// The value text of the first member of `ms` named `key`.
pub fn find_member(ms: &Vec<(String, String)>, key: &str) -> (r: Option<String>)
    ensures
        opt_view(r) == member(ms.deep_view(), key@),
{
    let ghost v = ms.deep_view();
    let mut i: usize = 0;
    assert(v.skip(0) =~= v);
    while i < ms.len()
        invariant
            v == ms.deep_view(),
            i <= ms.len(),
            member(v, key@) == member(v.skip(i as int), key@),
        decreases ms.len() - i,
    {
        let ghost rest = v.skip(i as int);
        assert(rest[0] == v[i as int]);
        assert(rest.drop_first() =~= v.skip(i + 1));
        assert(v[i as int] == (ms[i as int].0@, ms[i as int].1@));
        if crate::text::same_text(ms[i].0.as_str(), key) {
            return Some(ms[i].1.clone());
        }
        i = i + 1;
    }
    None
}

} // verus!
