//! JSON values: their mathematical model, and how they are made.

use serde_json::{Map as JsonMap, Value};
use vstd::prelude::*;
use vstd::string::*;

verus! {

broadcast use vstd::string::group_string_axioms;

/// What a JSON value holds, as a mathematical tree. Numbers are integers.
#[verifier::ext_equal]
pub enum Json {
    Null,
    Bool(bool),
    Int(int),
    Str(Seq<char>),
    Arr(Seq<Json>),
    Obj(Map<Seq<char>, Json>),
}

/// The members of the empty object.
pub open spec fn no_members() -> Map<Seq<char>, Json> {
    Map::empty()
}

/// The trees of the values of a list.
pub open spec fn json_list(items: Seq<Value>) -> Seq<Json> {
    items.map_values(|item: Value| json_of(item))
}

/// An array of strings.
pub open spec fn strings(items: Seq<Seq<char>>) -> Json {
    Json::Arr(items.map_values(|s: Seq<char>| Json::Str(s)))
}

/// The texts of a list of string slices.
pub open spec fn texts(items: Seq<&str>) -> Seq<Seq<char>> {
    items.map_values(|s: &str| s@)
}

/// The texts of a list of strings.
pub open spec fn owned_texts(items: Seq<String>) -> Seq<Seq<char>> {
    items.map_values(|s: String| s@)
}

// ───────────────────────── serde_json ─────────────────────────

/// `serde_json::Value`, a JSON value. What it holds is named by `json_of`.
#[verifier::external_type_specification]
#[verifier::external_body]
pub struct ExValue(serde_json::Value);

/// `serde_json::Map`, the members of a JSON object. What it holds is named by `members_of`.
#[verifier::external_type_specification]
#[verifier::external_body]
#[verifier::reject_recursive_types(K)]
#[verifier::reject_recursive_types(V)]
pub struct ExMap<K, V>(serde_json::Map<K, V>);

/// The tree that a `serde_json::Value` holds.
pub uninterp spec fn json_of(value: Value) -> Json;

/// The members that a `serde_json::Map` holds: the tree of the value under each key.
pub uninterp spec fn members_of(map: JsonMap<String, Value>) -> Map<Seq<char>, Json>;

/// `serde_json::Map::new` makes a map without members.
pub assume_specification[ serde_json::Map::<String, Value>::new ]() -> (map: JsonMap<String, Value>)
    ensures
        members_of(map) == no_members(),
;

/// `serde_json::Map::insert` puts a value under a key, in place of the one that was there, and
/// returns the value that was there.
pub assume_specification[ serde_json::Map::<String, Value>::insert ](
    map: &mut JsonMap<String, Value>,
    k: String,
    v: Value,
) -> (previous: Option<Value>)
    ensures
        members_of(*final(map)) == members_of(*old(map)).insert(k@, json_of(v)),
        previous is Some <==> members_of(*old(map)).contains_key(k@),
        previous is Some ==> json_of(previous->0) == members_of(*old(map))[k@],
;

/// `serde_json::Value::from(())` is the null value.
#[verifier::external_body]
pub(crate) fn null() -> (value: Value)
    ensures
        json_of(value) == Json::Null,
{
    Value::from(())
}

/// `serde_json::Value::from(bool)` is the boolean.
#[verifier::external_body]
pub(crate) fn boolean(b: bool) -> (value: Value)
    ensures
        json_of(value) == Json::Bool(b),
{
    Value::from(b)
}

/// `serde_json::Value::from(u64)` is the number.
#[verifier::external_body]
pub(crate) fn number(n: u64) -> (value: Value)
    ensures
        json_of(value) == Json::Int(n as int),
{
    Value::from(n)
}

/// `serde_json::Value::from(i64)` is the number, negative or not.
#[verifier::external_body]
pub(crate) fn signed_number(n: i64) -> (value: Value)
    ensures
        json_of(value) == Json::Int(n as int),
{
    Value::from(n)
}

/// `serde_json::Value::from(&str)` is a string with the same characters.
#[verifier::external_body]
pub(crate) fn text(s: &str) -> (value: Value)
    ensures
        json_of(value) == Json::Str(s@),
{
    Value::from(s)
}

/// `serde_json::Value::from(Vec<Value>)` is the array of the given values, in their order.
#[verifier::external_body]
pub(crate) fn array(items: Vec<Value>) -> (value: Value)
    ensures
        json_of(value) == Json::Arr(json_list(items@)),
{
    Value::from(items)
}

/// `serde_json::Value::from(Map<String, Value>)` is the object with the members of the map.
#[verifier::external_body]
pub(crate) fn object(map: JsonMap<String, Value>) -> (value: Value)
    ensures
        json_of(value) == Json::Obj(members_of(map)),
{
    Value::from(map)
}

/// `serde_json::Value::clone` makes a value that holds the same tree.
#[verifier::external_body]
pub(crate) fn duplicate(value: &Value) -> (copy: Value)
    ensures
        json_of(copy) == json_of(*value),
{
    value.clone()
}

// ───────────────────────── building ─────────────────────────

/// Puts a value under a key, in place of the one that was there.
pub(crate) fn put(map: &mut JsonMap<String, Value>, key: &str, value: Value)
    ensures
        members_of(*final(map)) == members_of(*old(map)).insert(key@, json_of(value)),
{
    map.insert(key.to_owned(), value);
}

/// An array of the given strings.
pub(crate) fn string_array(items: &[&str]) -> (value: Value)
    ensures
        json_of(value) == strings(texts(items@)),
{
    let mut values: Vec<Value> = Vec::new();
    for i in 0..items.len()
        invariant
            values.len() == i,
            forall|k: int|
                0 <= k < i ==> json_of(#[trigger] values@[k]) == Json::Str(items@[k]@),
    {
        values.push(text(items[i]));
    }
    assert(json_list(values@) =~= texts(items@).map_values(|s: Seq<char>| Json::Str(s)));
    array(values)
}

/// An array of the given strings.
pub(crate) fn owned_string_array(items: &Vec<String>) -> (value: Value)
    ensures
        json_of(value) == strings(owned_texts(items@)),
{
    let mut values: Vec<Value> = Vec::new();
    for i in 0..items.len()
        invariant
            values.len() == i,
            forall|k: int|
                0 <= k < i ==> json_of(#[trigger] values@[k]) == Json::Str(items@[k]@),
    {
        values.push(text(items[i].as_str()));
    }
    assert(json_list(values@) =~= owned_texts(items@).map_values(|s: Seq<char>| Json::Str(s)));
    array(values)
}

} // verus!
