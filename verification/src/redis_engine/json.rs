//! JSON documents: the tree that the snapshot logic reads and builds, and
//! the calls that turn text into a tree and a tree into text.
use vstd::prelude::*;
use crate::redis_engine::util::Text;

verus! {

/// A JSON document.
pub enum Json {
    Null,
    Bool(bool),
    /// A number, held as the literal that writes it.
    Number(String),
    Text(String),
    Array(Vec<Json>),
    /// The members of an object, each with its name.
    Object(Vec<(String, Json)>),
}

/// A JSON document as the contracts see it.
pub enum JsonModel {
    Null,
    Bool(bool),
    Number(Text),
    Text(Text),
    Array(Seq<JsonModel>),
    Object(Seq<(Text, JsonModel)>),
}

/// The document that a tree holds.
pub open spec fn json_model(tree: Json) -> JsonModel
    decreases tree,
{
    match tree {
        Json::Null => JsonModel::Null,
        Json::Bool(b) => JsonModel::Bool(b),
        Json::Number(n) => JsonModel::Number(n@),
        Json::Text(s) => JsonModel::Text(s@),
        Json::Array(items) => JsonModel::Array(
            Seq::new(
                items.len() as nat,
                |i: int|
                    if 0 <= i < items.len() {
                        json_model(items[i])
                    } else {
                        JsonModel::Null
                    },
            ),
        ),
        Json::Object(members) => JsonModel::Object(
            Seq::new(
                members.len() as nat,
                |i: int|
                    if 0 <= i < members.len() {
                        (members[i].0@, json_model(members[i].1))
                    } else {
                        (Seq::empty(), JsonModel::Null)
                    },
            ),
        ),
    }
}

impl DeepView for Json {
    type V = JsonModel;

    open spec fn deep_view(&self) -> JsonModel {
        json_model(*self)
    }
}

/// Declares `serde_json::Value`, the document type of `serde_json`. Nothing
/// is claimed of what is inside one but through `value_model`.
#[verifier::external_type_specification]
#[verifier::external_body]
pub struct ExJsonValue(serde_json::Value);

/// Declares `serde_json::Error`, the error of reading and writing. Nothing
/// is claimed of what is inside one.
#[verifier::external_type_specification]
#[verifier::external_body]
pub struct ExJsonError(serde_json::Error);

/// The document that a `serde_json::Value` holds.
pub uninterp spec fn value_model(value: serde_json::Value) -> JsonModel;

/// The document that `serde_json::from_str` reads from a text, if it reads one.
pub uninterp spec fn json_parse(text: Text) -> Option<JsonModel>;

/// The document that a `serde_json::Value` built from a tree holds: the
/// members of an object under their names as `serde_json::Map` keeps them,
/// and each number as `serde_json::Number` reads its literal.
pub uninterp spec fn json_stored(tree: JsonModel) -> JsonModel;

/// The text that `serde_json::to_string_pretty` writes for a document, if it
/// writes one.
pub uninterp spec fn json_pretty(tree: JsonModel) -> Option<Text>;

/// Calls `serde_json::from_str` for a `serde_json::Value`. The contract
/// claims that what comes back depends on the text alone: whether a
/// document comes back, and which.
#[verifier::external_body]
fn parse_value(text: &str) -> (out: Result<serde_json::Value, serde_json::Error>)
    ensures
        match out {
            Ok(v) => json_parse(text@) == Some(value_model(v)),
            Err(_) => json_parse(text@) is None,
        },
{
    serde_json::from_str::<serde_json::Value>(text)
}

/// Copies a `serde_json::Value` into a tree of this library, variant by
/// variant. A number comes over as the literal that `serde_json::Number`
/// writes for it, the members of an object in the order in which
/// `serde_json::Map` hands them out. The contract claims no more than that
/// the tree holds the document of the value.
#[verifier::external_body]
fn lift(value: &serde_json::Value) -> (out: Json)
    ensures
        out.deep_view() == value_model(*value),
{
    match value {
        serde_json::Value::Null => Json::Null,
        serde_json::Value::Bool(b) => Json::Bool(*b),
        serde_json::Value::Number(n) => Json::Number(n.to_string()),
        serde_json::Value::String(s) => Json::Text(s.clone()),
        serde_json::Value::Array(items) => Json::Array(items.iter().map(lift).collect()),
        serde_json::Value::Object(members) => Json::Object(
            members.iter().map(|(k, v)| (k.clone(), lift(v))).collect(),
        ),
    }
}

/// Builds a `serde_json::Value` from a tree of this library, variant by
/// variant. The members of an object go into a `serde_json::Map`; a number
/// whose literal `serde_json::Number` does not read becomes `null`. The
/// contract claims that the document of the value depends on the tree alone.
#[verifier::external_body]
fn lower(tree: &Json) -> (out: serde_json::Value)
    ensures
        value_model(out) == json_stored(tree.deep_view()),
{
    match tree {
        Json::Null => serde_json::Value::Null,
        Json::Bool(b) => serde_json::Value::Bool(*b),
        Json::Number(n) => n.parse().map_or(serde_json::Value::Null, serde_json::Value::Number),
        Json::Text(s) => serde_json::Value::String(s.clone()),
        Json::Array(items) => serde_json::Value::Array(items.iter().map(lower).collect()),
        Json::Object(members) => serde_json::Value::Object(
            members.iter().map(|(k, v)| (k.clone(), lower(v))).collect(),
        ),
    }
}

/// Calls `serde_json::to_string_pretty` on a `serde_json::Value`. The
/// contract claims that what comes back depends on the document alone.
#[verifier::external_body]
fn pretty_value(value: &serde_json::Value) -> (out: Result<String, serde_json::Error>)
    ensures
        match out {
            Ok(s) => json_pretty(value_model(*value)) == Some(s@),
            Err(_) => json_pretty(value_model(*value)) is None,
        },
{
    serde_json::to_string_pretty(value)
}

/// Writes a JSON document as indented text.
pub fn pretty_json(tree: &Json) -> (out: Option<String>)
    ensures
        match out {
            Some(s) => json_pretty(json_stored(tree.deep_view())) == Some(s@),
            None => json_pretty(json_stored(tree.deep_view())) is None,
        },
{
    match pretty_value(&lower(tree)) {
        Ok(s) => Some(s),
        Err(_) => None,
    }
}

/// Reads a JSON document from a text.
pub fn parse_json(text: &str) -> (out: Option<Json>)
    ensures
        match out {
            Some(tree) => json_parse(text@) == Some(tree.deep_view()),
            None => json_parse(text@) is None,
        },
{
    match parse_value(text) {
        Ok(v) => Some(lift(&v)),
        Err(_) => None,
    }
}

} // verus!
