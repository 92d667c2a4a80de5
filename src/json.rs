//! A JSON document as the library reads it, and field lookup in it.
use crate::text::text_eq;
use vstd::prelude::*;

verus! {

/// A parsed JSON value. An object keeps its members in the order the parser
/// gives them, each key once. A number is kept as a mark alone: nothing in
/// this library reads its value.
#[derive(Debug)]
pub enum Json {
    Null,
    Bool(bool),
    Number,
    Str(String),
    Array(Vec<Json>),
    Object(Vec<(String, Json)>),
}

/// What `text` parses to as a JSON document; `None` where it is not one.
pub uninterp spec fn parsed_json(text: Seq<char>) -> Option<Json>;

#[verifier::external_type_specification]
#[verifier::external_body]
pub struct ExJsonValue(serde_json::Value);

/// Relies on `serde_json::from_str::<serde_json::Value>`: a document parses
/// to one value, which depends on the text alone.
#[verifier::external_body]
pub fn parse_json(text: &str) -> (r: Option<Json>)
    ensures
        r == parsed_json(text@),
{
    serde_json::from_str::<serde_json::Value>(text).ok().map(json_from_value)
}

/// Relies on the shape of `serde_json::Value`: each variant moves into the
/// variant of the same name, members in the order the map walks them.
#[verifier::external_body]
fn json_from_value(v: serde_json::Value) -> Json {
    match v {
        serde_json::Value::Null => Json::Null,
        serde_json::Value::Bool(b) => Json::Bool(b),
        serde_json::Value::Number(_) => Json::Number,
        serde_json::Value::String(s) => Json::Str(s),
        serde_json::Value::Array(a) => Json::Array(a.into_iter().map(json_from_value).collect()),
        serde_json::Value::Object(m) => Json::Object(
            m.into_iter().map(|(k, v)| (k, json_from_value(v))).collect(),
        ),
    }
}

/// The value of the first member of `fields` under `key`.
pub open spec fn field(fields: Seq<(String, Json)>, key: Seq<char>) -> Option<Json>
    decreases fields.len(),
{
    if fields.len() == 0 {
        None
    } else if fields[0].0@ == key {
        Some(fields[0].1)
    } else {
        field(fields.drop_first(), key)
    }
}

/// The member of `j` under `key`, where `j` is an object.
pub open spec fn member(j: Json, key: Seq<char>) -> Option<Json> {
    match j {
        Json::Object(fields) => field(fields@, key),
        _ => None,
    }
}

/// The text of `j`, where it is a string.
pub open spec fn text_of(j: Json) -> Option<Seq<char>> {
    match j {
        Json::Str(s) => Some(s@),
        _ => None,
    }
}

/// The text of the member of `j` under `key`, where there is one and it is a string.
pub open spec fn member_text(j: Json, key: Seq<char>) -> Option<Seq<char>> {
    match member(j, key) {
        Some(v) => text_of(v),
        None => None,
    }
}

/// The value of the first member of `fields` under `key`.
pub fn get_field<'a>(fields: &'a Vec<(String, Json)>, key: &str) -> (r: Option<&'a Json>)
    ensures
        r is None <==> field(fields@, key@) is None,
        r matches Some(v) ==> field(fields@, key@) == Some(*v),
{
    let mut i: usize = 0;
    assert(fields@.subrange(0, fields.len() as int) =~= fields@);
    while i < fields.len()
        invariant
            i <= fields.len(),
            field(fields@, key@) == field(fields@.subrange(i as int, fields.len() as int), key@),
        decreases fields.len() - i,
    {
        let ghost rest = fields@.subrange(i as int, fields.len() as int);
        assert(rest.drop_first() =~= fields@.subrange(i + 1, fields.len() as int));
        if text_eq(fields[i].0.as_str(), key) {
            return Some(&fields[i].1);
        }
        i = i + 1;
    }
    None
}

/// The member of `j` under `key`, where `j` is an object.
pub fn get_member<'a>(j: &'a Json, key: &str) -> (r: Option<&'a Json>)
    ensures
        r is None <==> member(*j, key@) is None,
        r matches Some(v) ==> member(*j, key@) == Some(*v),
{
    match j {
        Json::Object(fields) => get_field(fields, key),
        _ => None,
    }
}

/// The text of the member of `j` under `key`, where there is one and it is a string.
pub fn get_text<'a>(j: &'a Json, key: &str) -> (r: Option<&'a str>)
    ensures
        r is None <==> member_text(*j, key@) is None,
        r matches Some(t) ==> member_text(*j, key@) == Some(t@),
{
    match get_member(j, key) {
        Some(Json::Str(s)) => Some(s.as_str()),
        _ => None,
    }
}

} // verus!
