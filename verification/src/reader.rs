//! Reading text into the generic tree.
//!
//! Both encodings are read into the same tree, that of `serde_json`, which
//! is then copied into a [`Node`]. What the two decoders make of a text is
//! not stated here: it has a name, [`json_document`] or [`yaml_document`],
//! and the contracts of the library speak of the text through that name.

use serde_json::Value as Json;
use vstd::prelude::*;

use crate::tree::{Node, Number, Tree};

verus! {

/// `serde_json::Value`, the tree of `serde_json`. It is only handed on to be
/// copied into a [`Node`].
#[verifier::external_type_specification]
#[verifier::external_body]
pub struct ExJsonValue(serde_json::Value);

/// `serde_json::Error`, carried as it is. Nothing is said of what it holds.
#[verifier::external_type_specification]
#[verifier::external_body]
pub struct ExJsonError(serde_json::Error);

/// `serde_yaml::Error`, carried as it is. Nothing is said of what it holds.
#[verifier::external_type_specification]
#[verifier::external_body]
pub struct ExYamlError(serde_yaml::Error);

/// The tree that `serde_json` reads from `text` as a map, or `None` where
/// it rejects the text.
pub uninterp spec fn json_document(text: Seq<char>) -> Option<Tree>;

/// The tree that `serde_yaml` reads from `text` as a map, or `None` where
/// it rejects the text.
pub uninterp spec fn yaml_document(text: Seq<char>) -> Option<Tree>;

/// Copies a `serde_json::Value` into a [`Node`], variant by variant. A number
/// is told apart by `as_u64`, `as_i64` and `as_f64`, in this order; a float
/// is kept as its bits.
#[verifier::external_body]
fn lift(doc: Json) -> Node {
    match doc {
        Json::Null => Node::Null,
        Json::Bool(b) => Node::Boolean(b),
        Json::Number(n) => Node::Number(
            match (n.as_u64(), n.as_i64()) {
                (Some(u), _) => Number::PosInt(u),
                (_, Some(i)) => Number::NegInt(i),
                _ => Number::Float(n.as_f64().unwrap_or_default().to_bits()),
            },
        ),
        Json::String(s) => Node::Text(s),
        Json::Array(a) => Node::Array(a.into_iter().map(lift).collect()),
        Json::Object(m) => Node::Object(m.into_iter().map(|(k, v)| (k, lift(v))).collect()),
    }
}

/// Calls `serde_json::from_str` for a map of `serde_json`, from strings to
/// values, and copies the map into a tree.
///
/// The result is a function of the text alone. It is an object, and a map
/// holds no key twice, at any depth.
#[verifier::external_body]
fn read_json(text: &str) -> (r: Result<Node, serde_json::Error>)
    ensures
        match r {
            Ok(v) => json_document(text@) == Some(v@) && v@ is Object && v@.well_formed(),
            Err(_) => json_document(text@) is None,
        },
{
    serde_json::from_str::<serde_json::Map<String, Json>>(text).map(|m| lift(Json::Object(m)))
}

/// Calls `serde_yaml::from_str` for the same map of `serde_json`, so that
/// both encodings give the same kind of tree, and copies the map into a tree.
///
/// The result is a function of the text alone. It is an object, and a map
/// holds no key twice, at any depth.
#[verifier::external_body]
fn read_yaml(text: &str) -> (r: Result<Node, serde_yaml::Error>)
    ensures
        match r {
            Ok(v) => yaml_document(text@) == Some(v@) && v@ is Object && v@.well_formed(),
            Err(_) => yaml_document(text@) is None,
        },
{
    serde_yaml::from_str::<serde_json::Map<String, Json>>(text).map(|m| lift(Json::Object(m)))
}

/// Reads a JSON text whose top is an object into a tree.
///
/// An object of the text that holds a key twice keeps the last value, and
/// the entries of an object come sorted by key. A number is `PosInt` where
/// it is written as an integer from 0 to `u64::MAX`, `NegInt` where it is
/// written as a negative integer down to `i64::MIN`, and `Float` else.
pub fn parse_json_document(text: &str) -> (r: Result<Node, serde_json::Error>)
    ensures
        match r {
            Ok(v) => json_document(text@) == Some(v@) && v@ is Object && v@.well_formed(),
            Err(_) => json_document(text@) is None,
        },
{
    read_json(text)
}

/// Reads a YAML text whose top is a mapping into a tree.
///
/// A text that holds no node at all is read as the mapping without entries.
/// Every key of a mapping is taken as text, as it is written: `200` is the
/// key `"200"`. A value is read by what it looks like, before any type is
/// known: written without quotes, `1.0` and `2024` are numbers and `true` is
/// a boolean, so none of them fits a field that holds text (`version: 1.0`
/// has to be written `version: "1.0"`). A number that JSON cannot write
/// (`.nan`, `.inf`) is read as `null`.
pub fn parse_yaml_document(text: &str) -> (r: Result<Node, serde_yaml::Error>)
    ensures
        match r {
            Ok(v) => yaml_document(text@) == Some(v@) && v@ is Object && v@.well_formed(),
            Err(_) => yaml_document(text@) is None,
        },
{
    read_yaml(text)
}

} // verus!
