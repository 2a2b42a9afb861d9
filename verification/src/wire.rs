//! The boundary to `serde_json`: its types, and what its functions are trusted to do.

use serde_json::Value;
use vstd::prelude::*;

use crate::json::{first_wins, JsonTree};

verus! {

/// The number type of `serde_json`, carried through documents unread.
#[verifier::external_type_specification]
#[verifier::external_body]
pub struct ExNumber(serde_json::Number);

/// The document type of `serde_json`.
#[verifier::external_type_specification]
#[verifier::external_body]
pub struct ExValue(serde_json::Value);

/// The object type of `serde_json`.
#[verifier::external_type_specification]
#[verifier::external_body]
#[verifier::reject_recursive_types(K)]
#[verifier::reject_recursive_types(V)]
pub struct ExMap<K, V>(serde_json::Map<K, V>);

/// The document that a `serde_json::Value` holds.
pub uninterp spec fn value_tree(value: serde_json::Value) -> JsonTree;

/// The members that a `serde_json::Map` holds.
pub uninterp spec fn map_tree(map: serde_json::Map<String, serde_json::Value>) -> Map<
    Seq<char>,
    JsonTree,
>;

/// What `serde_json::from_slice` makes of these bytes when a `Value` is asked for: the document,
/// or the text of the error.
pub uninterp spec fn parsed_json(bytes: Seq<u8>) -> Result<JsonTree, Seq<char>>;

/// One level of a document of `serde_json`.
pub(crate) enum Shape {
    Null,
    Bool(bool),
    Number(serde_json::Number),
    Text(String),
    Array(Vec<Value>),
    Object(serde_json::Map<String, Value>),
}

/// The document of which this is the outermost level.
pub(crate) open spec fn shape_tree(shape: Shape) -> JsonTree {
    match shape {
        Shape::Null => JsonTree::Null,
        Shape::Bool(flag) => JsonTree::Bool(flag),
        Shape::Number(number) => JsonTree::Number(number),
        Shape::Text(text) => JsonTree::Text(text@),
        Shape::Array(items) => JsonTree::Array(items@.map_values(|item: Value| value_tree(item))),
        Shape::Object(members) => JsonTree::Object(map_tree(members)),
    }
}

/// The names and documents of a list of members.
pub(crate) open spec fn value_pairs(entries: Seq<(String, Value)>) -> Seq<(Seq<char>, JsonTree)> {
    entries.map_values(|entry: (String, Value)| (entry.0@, value_tree(entry.1)))
}

/// Calls `serde_json::from_slice` for a `Value`. Claims only that the outcome, the document or the
/// text of the error, is determined by the bytes.
#[verifier::external_body]
pub(crate) fn parse_value(bytes: &[u8]) -> (outcome: Result<Value, String>)
    ensures
        match outcome {
            Ok(value) => parsed_json(bytes@) == Ok::<JsonTree, Seq<char>>(value_tree(value)),
            Err(message) => parsed_json(bytes@) == Err::<JsonTree, Seq<char>>(message@),
        },
{
    serde_json::from_slice::<Value>(bytes).map_err(|e| e.to_string())
}

/// Tells the variants of `serde_json::Value` apart. Claims that each variant holds the outermost
/// level of the document: an array its items in order, an object its members.
#[verifier::external_body]
pub(crate) fn open_value(value: Value) -> (shape: Shape)
    ensures
        shape_tree(shape) == value_tree(value),
{
    match value {
        Value::Null => Shape::Null,
        Value::Bool(flag) => Shape::Bool(flag),
        Value::Number(number) => Shape::Number(number),
        Value::String(text) => Shape::Text(text),
        Value::Array(items) => Shape::Array(items),
        Value::Object(members) => Shape::Object(members),
    }
}

/// Builds a `serde_json::Value` from its outermost level. Claims the same of each variant as
/// opening does.
#[verifier::external_body]
pub(crate) fn close_value(shape: Shape) -> (value: Value)
    ensures
        value_tree(value) == shape_tree(shape),
{
    match shape {
        Shape::Null => Value::Null,
        Shape::Bool(flag) => Value::Bool(flag),
        Shape::Number(number) => Value::Number(number),
        Shape::Text(text) => Value::String(text),
        Shape::Array(items) => Value::Array(items),
        Shape::Object(members) => Value::Object(members),
    }
}

/// `serde_json::Map::into_iter` hands out each member of the object once, so no name comes twice.
/// Nothing is claimed of the order.
#[verifier::external_body]
pub(crate) fn map_entries(map: serde_json::Map<String, Value>) -> (entries: Vec<(String, Value)>)
    ensures
        forall|i: int, j: int|
            0 <= i < j < entries@.len() ==> (#[trigger] entries@[i]).0@ != (
            #[trigger] entries@[j]).0@,
        map_tree(map) == first_wins(value_pairs(entries@)),
{
    map.into_iter().collect()
}

/// `serde_json::Map::new` makes an object without members.
pub assume_specification[ serde_json::Map::<String, serde_json::Value>::new ]() -> (map:
    serde_json::Map<String, serde_json::Value>)
    ensures
        (map_tree(map) == Map::<Seq<char>, JsonTree>::empty()),
;

/// `serde_json::Map::insert` gives the member of that name the value, adding it where there was
/// none; the other members stay. It returns the value that the member had.
pub assume_specification[ serde_json::Map::<String, serde_json::Value>::insert ](
    map: &mut serde_json::Map<String, serde_json::Value>,
    k: String,
    v: serde_json::Value,
) -> (previous: Option<serde_json::Value>)
    ensures
        map_tree(*final(map)) == map_tree(*old(map)).insert(k@, value_tree(v)),
        match previous {
            Some(value) => map_tree(*old(map)).dom().contains(k@) && value_tree(value) == map_tree(
                *old(map),
            )[k@],
            None => !map_tree(*old(map)).dom().contains(k@),
        },
;

/// `clone` of a `serde_json::Number` gives the same number.
pub assume_specification[ <serde_json::Number as Clone>::clone ](
    number: &serde_json::Number,
) -> (copy: serde_json::Number)
    ensures
        copy == *number,
;

} // verus!
