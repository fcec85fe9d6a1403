//! JSON values as the `serde_json` crate parses them.

use crate::json::{member_of, JsonModel};
use crate::text::{text_in, texts};
use vstd::prelude::*;

verus! {

/// `serde_json::Value`, held as it is.
#[verifier::external_type_specification]
#[verifier::external_body]
pub struct ExValue(serde_json::Value);

/// What a parsed JSON value holds.
pub uninterp spec fn tree_of(v: serde_json::Value) -> JsonModel;

/// What a JSON text parses to, or the message of the error that it gives.
pub uninterp spec fn parsed(text: Seq<char>) -> Result<JsonModel, Seq<char>>;

pub open spec fn trees(s: Seq<serde_json::Value>) -> Seq<JsonModel> {
    s.map_values(|v: serde_json::Value| tree_of(v))
}

pub open spec fn tree_in(o: Option<&serde_json::Value>) -> Option<JsonModel> {
    match o {
        Some(v) => Some(tree_of(*v)),
        None => None,
    }
}

/// `serde_json::from_str` into a `Value`: the value, or the error's message, that the text
/// alone decides.
#[verifier::external_body]
pub(crate) fn parse_json(text: &str) -> (r: Result<serde_json::Value, String>)
    ensures
        match r {
            Ok(v) => parsed(text@) == Ok::<JsonModel, Seq<char>>(tree_of(v)),
            Err(e) => parsed(text@) == Err::<JsonModel, Seq<char>>(e@),
        },
{
    match serde_json::from_str::<serde_json::Value>(text) {
        Ok(v) => Ok(v),
        Err(e) => Err(e.to_string()),
    }
}

/// `Value::get` with a name: the member of an object, none of anything else.
#[verifier::external_body]
pub(crate) fn member<'a>(v: &'a serde_json::Value, name: &str) -> (r: Option<&'a serde_json::Value>)
    ensures
        tree_in(r) == tree_of(*v).member(name@),
{
    v.get(name)
}

/// The names of an object's members, in order.
pub open spec fn names_of(ms: Seq<(Seq<char>, JsonModel)>) -> Seq<Seq<char>> {
    ms.map_values(|m: (Seq<char>, JsonModel)| m.0)
}

/// `Value::as_object` and `Map::keys`: the names of an object's members, in the order in which
/// the map holds them; none of anything else.
#[verifier::external_body]
pub(crate) fn member_names(v: &serde_json::Value) -> (r: Option<Vec<String>>)
    ensures
        match tree_of(*v) {
            JsonModel::Object(ms) => r matches Some(names) && texts(names@) == names_of(ms),
            _ => r is None,
        },
{
    v.as_object().map(|m| m.keys().cloned().collect())
}

/// `Value::as_number` and the number's `Display`: the notation of a number. A parsed value
/// holds every number by its notation.
#[verifier::external_body]
pub(crate) fn numeral(v: &serde_json::Value) -> (r: Option<String>)
    ensures
        match tree_of(*v) {
            JsonModel::Number(t) => text_in(r) == Some(t),
            JsonModel::Single(_) => false,
            _ => text_in(r) is None,
        },
{
    v.as_number().map(|n| n.to_string())
}

/// `Value::as_str`: the text of a string.
pub assume_specification[ serde_json::Value::as_str ](v: &serde_json::Value) -> (r: Option<&str>)
    ensures
        match r {
            Some(s) => tree_of(*v).text() == Some(s@),
            None => tree_of(*v).text() is None,
        },
;

/// `Value::as_array`: the items of an array, in order.
pub assume_specification[ serde_json::Value::as_array ](v: &serde_json::Value) -> (r: Option<
    &Vec<serde_json::Value>,
>)
    ensures
        match r {
            Some(a) => tree_of(*v).items() == Some(trees(a@)),
            None => tree_of(*v).items() is None,
        },
;

/// `Value::as_u64`: a number that was read as a non-negative integer; such a one is noted
/// in digits alone, and no other number is.
pub assume_specification[ serde_json::Value::as_u64 ](v: &serde_json::Value) -> (r: Option<u64>)
    ensures
        match r {
            Some(n) => tree_of(*v).whole() == Some(n as nat),
            None => tree_of(*v).whole() is None,
        },
;

/// `Value::as_bool`: a truth value.
pub assume_specification[ serde_json::Value::as_bool ](v: &serde_json::Value) -> (r: Option<bool>)
    ensures
        r == tree_of(*v).flag(),
;

/// `Value::is_null`: whether this is `null`.
pub assume_specification[ serde_json::Value::is_null ](v: &serde_json::Value) -> (r: bool)
    ensures
        r == (tree_of(*v) is Null),
;

/// The member of a value that may be missing.
pub(crate) fn member_in<'a>(o: Option<&'a serde_json::Value>, name: &str) -> (r: Option<
    &'a serde_json::Value,
>)
    ensures
        tree_in(r) == member_of(tree_in(o), name@),
{
    match o {
        Some(v) => member(v, name),
        None => None,
    }
}

/// Missing, or `null`.
pub(crate) fn absent(o: Option<&serde_json::Value>) -> (r: bool)
    ensures
        r == (tree_in(o) is None || tree_in(o)->0 is Null),
{
    match o {
        Some(v) => v.is_null(),
        None => true,
    }
}

/// The bytes of a JSON value's compact notation.
pub uninterp spec fn notation(tree: JsonModel) -> Seq<u8>;

/// `serde_json::to_vec`: the compact notation of a value. It fails only on a map whose keys
/// are no strings, or where a type refuses to be written; a value is neither.
#[verifier::external_body]
pub(crate) fn to_bytes(v: &serde_json::Value) -> (r: Result<Vec<u8>, String>)
    ensures
        match r {
            Ok(b) => b@ == notation(tree_of(*v)),
            Err(_) => false,
        },
{
    match serde_json::to_vec(v) {
        Ok(b) => Ok(b),
        Err(e) => Err(e.to_string()),
    }
}

} // verus!
