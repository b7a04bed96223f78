//! A JSON value held as plain data, filled and printed by `serde_json`.
use vstd::prelude::*;

use crate::text::same_text;

verus! {

#[verifier::external_type_specification]
#[verifier::external_body]
pub struct ExJsonValue(serde_json::Value);

/// A JSON document. Integers that fit in `i64` are `Int`; any other number
/// keeps the text that `serde_json` prints for it. An object keeps its
/// members in the order the parser gave them.
#[derive(Debug, PartialEq)]
pub enum Json {
    Null,
    Bool(bool),
    Int(i64),
    Number(String),
    Str(String),
    Array(Vec<Json>),
    Object(Vec<(String, Json)>),
}

/// What `serde_json::from_str` makes of a text: `None` where the text is
/// not one JSON document.
pub uninterp spec fn parsed_json(text: Seq<char>) -> Option<Json>;

/// The indented text that `serde_json::to_string_pretty` prints for a value.
pub uninterp spec fn pretty_json(j: Json) -> Seq<char>;

/// Moves a parsed `serde_json::Value` into a `Json`, one variant for one.
#[verifier::external_body]
fn json_from_value(v: serde_json::Value) -> Json {
    match v {
        serde_json::Value::Null => Json::Null,
        serde_json::Value::Bool(b) => Json::Bool(b),
        serde_json::Value::Number(n) => match n.as_i64() {
            Some(i) => Json::Int(i),
            None => Json::Number(n.to_string()),
        },
        serde_json::Value::String(s) => Json::Str(s),
        serde_json::Value::Array(a) => Json::Array(a.into_iter().map(json_from_value).collect()),
        serde_json::Value::Object(o) => Json::Object(
            o.into_iter().map(|(k, x)| (k, json_from_value(x))).collect(),
        ),
    }
}

/// Copies a `Json` into a `serde_json::Value`, one variant for one.
#[verifier::external_body]
fn json_to_value(j: &Json) -> serde_json::Value {
    match j {
        Json::Null => serde_json::Value::Null,
        Json::Bool(b) => serde_json::Value::Bool(*b),
        Json::Int(i) => serde_json::Value::from(*i),
        Json::Number(t) => t.parse().map_or(serde_json::Value::Null, serde_json::Value::Number),
        Json::Str(s) => serde_json::Value::String(s.clone()),
        Json::Array(a) => serde_json::Value::Array(a.iter().map(json_to_value).collect()),
        Json::Object(o) => serde_json::Value::Object(
            o.iter().map(|(k, x)| (k.clone(), json_to_value(x))).collect(),
        ),
    }
}

/// Relies on `serde_json::from_str::<serde_json::Value>`: parses one JSON
/// document, and the same text always gives the same value.
#[verifier::external_body]
pub fn parse_json(text: &str) -> (r: Option<Json>)
    ensures
        r == parsed_json(text@),
{
    serde_json::from_str::<serde_json::Value>(text).ok().map(json_from_value)
}

/// Relies on `serde_json::to_string_pretty`: the value as indented JSON
/// text. It fails only where a `Serialize` impl fails or a map has keys
/// that are not strings; `serde_json::Value`'s impl does neither, so it
/// always succeeds here.
#[verifier::external_body]
pub fn render_json(j: &Json) -> (r: Option<String>)
    ensures
        r is Some,
        r matches Some(t) ==> t@ == pretty_json(*j),
{
    serde_json::to_string_pretty(&json_to_value(j)).ok()
}

/// The first member at or after position `i` whose name is `key`.
pub open spec fn find_member(es: Seq<(String, Json)>, key: Seq<char>, i: int) -> Option<Json>
    decreases es.len() - i,
{
    if i < 0 || i >= es.len() {
        None
    } else if es[i].0@ == key {
        Some(es[i].1)
    } else {
        find_member(es, key, i + 1)
    }
}

/// The member `key` of an object; `None` for a missing member or a value
/// that is not an object (as `serde_json::Value::get` answers).
pub open spec fn member(j: Json, key: Seq<char>) -> Option<Json> {
    match j {
        Json::Object(es) => find_member(es@, key, 0),
        _ => None,
    }
}

/// The text of a JSON string.
pub open spec fn str_value(j: Option<Json>) -> Option<Seq<char>> {
    match j {
        Some(Json::Str(s)) => Some(s@),
        _ => None,
    }
}

impl Json {
    /// The member `key` of an object.
    pub fn get(&self, key: &str) -> (r: Option<&Json>)
        ensures
            match r {
                Some(x) => member(*self, key@) == Some(*x),
                None => member(*self, key@) is None,
            },
    {
        match self {
            Json::Object(es) => {
                let mut i: usize = 0;
                assert(member(*self, key@) == find_member(es@, key@, 0));
                while i < es.len()
                    invariant
                        i <= es@.len(),
                        member(*self, key@) == find_member(es@, key@, 0),
                        find_member(es@, key@, 0) == find_member(es@, key@, i as int),
                    decreases es.len() - i,
                {
                    if same_text(es[i].0.as_str(), key) {
                        assert(find_member(es@, key@, i as int) == Some(es@[i as int].1));
                        return Some(&es[i].1);
                    }
                    i = i + 1;
                }
                None
            },
            _ => None,
        }
    }

    /// The text of a JSON string.
    pub fn as_text(&self) -> (r: Option<&String>)
        ensures
            match r {
                Some(s) => *self == Json::Str(*s),
                None => !(*self is Str),
            },
    {
        match self {
            Json::Str(s) => Some(s),
            _ => None,
        }
    }
}

/// The text of a member that holds a string.
pub fn member_text<'a>(j: &'a Json, key: &str) -> (r: Option<&'a String>)
    ensures
        match r {
            Some(s) => str_value(member(*j, key@)) == Some(s@),
            None => str_value(member(*j, key@)) is None,
        },
{
    match j.get(key) {
        Some(v) => v.as_text(),
        None => None,
    }
}

} // verus!
