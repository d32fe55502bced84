//! JSON values, by way of `serde_json`.
//!
//! A value is built piece by piece with the constructors of `serde_json` and
//! printed by it. Nothing here looks inside a value: each constructor's result
//! has a name, and contracts speak of those names.

use vstd::prelude::*;

verus! {

/// `serde_json::Value`, a JSON value.
#[verifier::external_type_specification]
#[verifier::external_body]
pub struct ExValue(serde_json::Value);

/// `serde_json::Map`, the entries of a JSON object under construction.
#[verifier::external_type_specification]
#[verifier::external_body]
#[verifier::reject_recursive_types(K)]
#[verifier::reject_recursive_types(V)]
pub struct ExObject<K, V>(serde_json::Map<K, V>);

/// The JSON string that holds `s`.
pub uninterp spec fn text_value(s: Seq<char>) -> serde_json::Value;

/// The JSON number of a signed integer.
pub uninterp spec fn signed_value(n: i32) -> serde_json::Value;

/// The JSON number of an unsigned integer.
pub uninterp spec fn unsigned_value(n: u64) -> serde_json::Value;

/// The JSON boolean.
pub uninterp spec fn flag_value(b: bool) -> serde_json::Value;

/// The entries that an object under construction holds.
pub uninterp spec fn entries(m: serde_json::Map<String, serde_json::Value>) -> Map<
    Seq<char>,
    serde_json::Value,
>;

/// The entries of the empty object.
pub open spec fn no_entries() -> Map<Seq<char>, serde_json::Value> {
    Map::empty()
}

/// The JSON object with the given entries.
pub uninterp spec fn object_value(e: Map<Seq<char>, serde_json::Value>) -> serde_json::Value;

/// The JSON array with the given elements.
pub uninterp spec fn array_value(s: Seq<serde_json::Value>) -> serde_json::Value;

/// A value printed over several lines, or why it could not be printed.
pub uninterp spec fn pretty_text(v: serde_json::Value) -> Result<Seq<char>, Seq<char>>;

/// `Value::from(&str)` makes the JSON string of its argument.
#[verifier::external_body]
pub(crate) fn text(s: &str) -> (r: serde_json::Value)
    ensures
        r == text_value(s@),
{
    serde_json::Value::from(s)
}

/// `Value::from(i32)` makes the JSON number of its argument.
#[verifier::external_body]
pub(crate) fn signed(n: i32) -> (r: serde_json::Value)
    ensures
        r == signed_value(n),
{
    serde_json::Value::from(n)
}

/// `Value::from(u64)` makes the JSON number of its argument.
#[verifier::external_body]
pub(crate) fn unsigned(n: u64) -> (r: serde_json::Value)
    ensures
        r == unsigned_value(n),
{
    serde_json::Value::from(n)
}

/// `Value::from(bool)` makes the JSON boolean of its argument.
#[verifier::external_body]
pub(crate) fn flag(b: bool) -> (r: serde_json::Value)
    ensures
        r == flag_value(b),
{
    serde_json::Value::from(b)
}

/// `Map::new` makes an object without entries.
#[verifier::external_body]
pub(crate) fn object() -> (r: serde_json::Map<String, serde_json::Value>)
    ensures
        entries(r) == no_entries(),
{
    serde_json::Map::new()
}

/// `Map::insert` gives the key `key` the value `v` and leaves the other
/// entries as they are.
#[verifier::external_body]
pub(crate) fn put(
    m: &mut serde_json::Map<String, serde_json::Value>,
    key: &str,
    v: serde_json::Value,
)
    ensures
        entries(*final(m)) == entries(*old(m)).insert(key@, v),
{
    m.insert(String::from(key), v);
}

/// `Value::from(Map)` makes the JSON object with the entries of its argument.
/// The map keeps its entries in the order of their keys, not in that of their
/// insertion, so the entries alone decide the object.
#[verifier::external_body]
pub(crate) fn object_of(m: serde_json::Map<String, serde_json::Value>) -> (r: serde_json::Value)
    ensures
        r == object_value(entries(m)),
{
    serde_json::Value::from(m)
}

/// `Value::from(Vec)` makes the JSON array with the elements of its argument.
#[verifier::external_body]
pub(crate) fn array_of(v: Vec<serde_json::Value>) -> (r: serde_json::Value)
    ensures
        r == array_value(v@),
{
    serde_json::Value::from(v)
}

/// `serde_json::to_string_pretty` prints a value; its error comes as the text
/// of that error.
#[verifier::external_body]
pub(crate) fn pretty(v: &serde_json::Value) -> (r: Result<String, String>)
    ensures
        match (r, pretty_text(*v)) {
            (Ok(t), Ok(p)) => t@ == p,
            (Err(e), Err(p)) => e@ == p,
            _ => false,
        },
{
    serde_json::to_string_pretty(v).map_err(|e| e.to_string())
}

} // verus!
