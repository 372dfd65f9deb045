//! JSON values, as [`serde_json`] holds them.

use vstd::prelude::*;
use serde_json::Value;
use crate::text;

verus! {

/// A JSON value.
#[verifier::external_type_specification]
#[verifier::external_body]
pub struct ExValue(serde_json::Value);

/// A JSON error.
#[verifier::external_type_specification]
#[verifier::external_body]
pub struct ExJsonError(serde_json::Error);

/// What a JSON value holds.
pub enum JsonTree {
    /// `null`.
    Null,
    /// `true` or `false`.
    Bool(bool),
    /// A number, as it is written.
    Number(Seq<char>),
    /// A string.
    Text(Seq<char>),
    /// An array.
    Array(Seq<JsonTree>),
    /// An object: what each name stands for.
    Object(Map<Seq<char>, JsonTree>),
}

/// What a JSON value holds.
pub uninterp spec fn json_tree(value: serde_json::Value) -> JsonTree;

/// What JSON values hold.
pub open spec fn json_trees(values: Seq<Value>) -> Seq<JsonTree> {
    values.map_values(|value: Value| json_tree(value))
}

/// The member of an object, `None` where there is no such member or the value is not an object.
pub open spec fn member(tree: JsonTree, name: Seq<char>) -> Option<JsonTree> {
    match tree {
        JsonTree::Object(members) => if members.contains_key(name) {
            Some(members[name])
        } else {
            None
        },
        _ => None,
    }
}

/// The characters of a string, `None` where the value is not a string.
pub open spec fn text_in(tree: JsonTree) -> Option<Seq<char>> {
    match tree {
        JsonTree::Text(text) => Some(text),
        _ => None,
    }
}

/// The unsigned 64-bit number that a number is, `None` where it is another number or the value is not
/// a number.
pub open spec fn number_in(tree: JsonTree) -> Option<nat> {
    match tree {
        JsonTree::Number(number) => text::unsigned_number(number, u64::MAX as nat),
        _ => None,
    }
}

/// The items of an array, `None` where the value is not an array.
pub open spec fn items_in(tree: JsonTree) -> Option<Seq<JsonTree>> {
    match tree {
        JsonTree::Array(items) => Some(items),
        _ => None,
    }
}

/// The JSON value that bytes spell, `None` where they spell none.
pub uninterp spec fn json_spelled(raw: Seq<u8>) -> Option<JsonTree>;

/// `serde_json::from_slice` into a `Value`: the JSON value that the bytes spell.
#[verifier::external_body]
pub(crate) fn parse(raw: &[u8]) -> (r: Result<Value, serde_json::Error>)
    ensures
        r is Ok <==> json_spelled(raw@) is Some,
        r is Ok ==> json_tree(r->Ok_0) == json_spelled(raw@)->0,
{
    serde_json::from_slice(raw)
}

/// `Value::get` with a string: the member of an object under a name, nothing for any other value.
#[verifier::external_body]
pub(crate) fn get<'a>(value: &'a Value, name: &str) -> (r: Option<&'a Value>)
    ensures
        r is Some <==> member(json_tree(*value), name@) is Some,
        r is Some ==> json_tree(*r->0) == member(json_tree(*value), name@)->0,
{
    value.get(name)
}

/// The clone of a `Value` holds what the value holds.
#[verifier::external_body]
pub(crate) fn copy(value: &Value) -> (r: Value)
    ensures
        json_tree(r) == json_tree(*value),
{
    value.clone()
}

/// `Value::is_null`.
pub assume_specification[ serde_json::Value::is_null ](value: &serde_json::Value) -> (r: bool)
    ensures
        r == (json_tree(*value) is Null),
;

/// `Value::as_str`: the characters of a string, nothing for any other value.
pub assume_specification[ serde_json::Value::as_str ](value: &serde_json::Value) -> (r: Option<
    &str,
>)
    ensures
        r is Some <==> text_in(json_tree(*value)) is Some,
        r is Some ==> r->0@ == text_in(json_tree(*value))->0,
;

/// `Value::as_u64`: the number, where it is an integer from zero to the largest of 64 bits; nothing
/// for any other value. Such a number is written in digits alone, and no other number is.
pub assume_specification[ serde_json::Value::as_u64 ](value: &serde_json::Value) -> (r: Option<u64>)
    ensures
        r is Some <==> number_in(json_tree(*value)) is Some,
        r is Some ==> r->0 == number_in(json_tree(*value))->0,
;

/// `Value::as_array`: the items of an array, nothing for any other value.
pub assume_specification[ serde_json::Value::as_array ](value: &serde_json::Value) -> (r: Option<
    &Vec<serde_json::Value>,
>)
    ensures
        r is Some <==> items_in(json_tree(*value)) is Some,
        r is Some ==> json_trees(r->0@) == items_in(json_tree(*value))->0,
;

/// `Value::Null`.
#[verifier::external_body]
pub(crate) fn null() -> (r: Value)
    ensures
        json_tree(r) == JsonTree::Null,
{
    Value::Null
}

/// `Value::from` an unsigned number: the number, written in decimal.
#[verifier::external_body]
pub(crate) fn number(n: u64) -> (r: Value)
    ensures
        json_tree(r) == JsonTree::Number(text::numeral(n as nat, 10)),
{
    Value::from(n)
}

/// `Value::String`.
#[verifier::external_body]
pub(crate) fn string(text: String) -> (r: Value)
    ensures
        json_tree(r) == JsonTree::Text(text@),
{
    Value::String(text)
}

/// `Value::Array`.
#[verifier::external_body]
pub(crate) fn array(items: Vec<Value>) -> (r: Value)
    ensures
        json_tree(r) == JsonTree::Array(json_trees(items@)),
{
    Value::Array(items)
}

/// `Value::Object` without members.
#[verifier::external_body]
pub(crate) fn object() -> (r: Value)
    ensures
        json_tree(r) == JsonTree::Object(Map::empty()),
{
    Value::Object(serde_json::Map::new())
}

/// `serde_json::Map::insert` into an object: the object with that member, in place of any it had
/// under the name.
#[verifier::external_body]
pub(crate) fn with_member(object: Value, name: &str, value: Value) -> (r: Value)
    ensures
        json_tree(object) matches JsonTree::Object(members) ==> json_tree(r) == JsonTree::Object(
            members.insert(name@, json_tree(value)),
        ),
{
    let mut object = object;
    if let Value::Object(members) = &mut object {
        members.insert(name.to_string(), value);
    }
    object
}

/// What is looked for in a value is found exactly where the value is of that kind: a member in an object
/// that has it, characters in a string, items in an array.
pub proof fn values_hold_what_their_kind_holds(tree: JsonTree, name: Seq<char>)
    ensures
        member(tree, name) is Some <==> tree is Object && tree->Object_0.contains_key(name),
        member(tree, name) is Some ==> member(tree, name)->0 == tree->Object_0[name],
        text_in(tree) is Some <==> tree is Text,
        text_in(tree) is Some ==> text_in(tree)->0 == tree->Text_0,
        items_in(tree) is Some <==> tree is Array,
        items_in(tree) is Some ==> items_in(tree)->0 == tree->Array_0,
        number_in(tree) is Some ==> tree is Number,
        tree is Number ==> number_in(tree) == text::unsigned_number(
            tree->Number_0,
            u64::MAX as nat,
        ),
{
}

/// A list of values holds what each of them holds, in its place.
pub proof fn values_keep_their_places(values: Seq<Value>)
    ensures
        json_trees(values).len() == values.len(),
        forall|i: int| 0 <= i < values.len() ==> #[trigger] json_trees(values)[i] == json_tree(values[i]),
{
}

} // verus!
