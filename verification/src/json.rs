//! JSON, as far as the assistant reads it: the members of an object that are
//! strings, those that are booleans, and any member as text.

use vstd::prelude::*;

verus! {

/// A JSON value of the `serde_json` crate.
#[verifier::external_type_specification]
#[verifier::external_body]
pub struct ExJsonValue(serde_json::Value);

/// The members of a JSON object that are strings. A value that is no object has
/// none.
pub uninterp spec fn json_strings(v: serde_json::Value) -> Map<Seq<char>, Seq<char>>;

/// The members of a JSON object that are booleans. A value that is no object
/// has none.
pub uninterp spec fn json_bools(v: serde_json::Value) -> Map<Seq<char>, bool>;

/// The members of a JSON object, each as compact JSON text. A value that is no
/// object has none.
pub uninterp spec fn json_texts(v: serde_json::Value) -> Map<Seq<char>, Seq<char>>;

/// What is read of a JSON value.
#[verifier::ext_equal]
pub struct JsonModel {
    pub strings: Map<Seq<char>, Seq<char>>,
    pub bools: Map<Seq<char>, bool>,
    pub texts: Map<Seq<char>, Seq<char>>,
}

/// What is read of `v`.
pub open spec fn json_model(v: serde_json::Value) -> JsonModel {
    JsonModel { strings: json_strings(v), bools: json_bools(v), texts: json_texts(v) }
}

/// What `serde_json::from_str` makes of a text: nothing where the text is not
/// JSON.
pub uninterp spec fn json_of(s: Seq<char>) -> Option<JsonModel>;

/// `serde_json::from_str` into a `Value`: succeeds exactly on JSON text, and
/// what comes out depends on the text alone.
#[verifier::external_body]
pub(crate) fn parse_json(s: &str) -> (r: Option<serde_json::Value>)
    ensures
        r is Some <==> json_of(s@) is Some,
        r matches Some(v) ==> json_of(s@) == Some(json_model(v)),
{
    serde_json::from_str(s).ok()
}

/// `serde_json::Value::get` with a key, then `as_str`: the member of that name
/// if it is a string.
#[verifier::external_body]
pub(crate) fn str_member(v: &serde_json::Value, key: &str) -> (r: Option<String>)
    ensures
        r is Some <==> json_strings(*v).contains_key(key@),
        r matches Some(s) ==> s@ == json_strings(*v)[key@],
{
    match v.get(key) {
        Some(m) => m.as_str().map(String::from),
        None => None,
    }
}

/// `serde_json::Value::get` with a key, then `as_bool`: the member of that name
/// if it is a boolean.
#[verifier::external_body]
pub(crate) fn bool_member(v: &serde_json::Value, key: &str) -> (r: Option<bool>)
    ensures
        r is Some <==> json_bools(*v).contains_key(key@),
        r matches Some(b) ==> b == json_bools(*v)[key@],
{
    match v.get(key) {
        Some(m) => m.as_bool(),
        None => None,
    }
}

/// `serde_json::Value::get` with a key, then its `Display`: the member of that
/// name as compact JSON text.
#[verifier::external_body]
pub(crate) fn text_member(v: &serde_json::Value, key: &str) -> (r: Option<String>)
    ensures
        r is Some <==> json_texts(*v).contains_key(key@),
        r matches Some(s) ==> s@ == json_texts(*v)[key@],
{
    match v.get(key) {
        Some(m) => Some(m.to_string()),
        None => None,
    }
}

/// The string member `key`, or `default`.
pub open spec fn string_or(m: JsonModel, key: Seq<char>, default: Seq<char>) -> Seq<char> {
    if m.strings.contains_key(key) {
        m.strings[key]
    } else {
        default
    }
}

/// The boolean member `key`, or `default`.
pub open spec fn bool_or(m: JsonModel, key: Seq<char>, default: bool) -> bool {
    if m.bools.contains_key(key) {
        m.bools[key]
    } else {
        default
    }
}

/// The string member `key`, or `default`.
pub fn str_member_or(v: &serde_json::Value, key: &str, default: &str) -> (s: String)
    ensures
        s@ == string_or(json_model(*v), key@, default@),
{
    match str_member(v, key) {
        Some(s) => s,
        None => default.to_owned(),
    }
}

/// The boolean member `key`, or `default`.
pub fn bool_member_or(v: &serde_json::Value, key: &str, default: bool) -> (b: bool)
    ensures
        b == bool_or(json_model(*v), key@, default),
{
    match bool_member(v, key) {
        Some(b) => b,
        None => default,
    }
}

} // verus!
