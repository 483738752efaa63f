//! JSON documents, read and written by `serde_json`.
//!
//! A document is carried as a `serde_json::Value`. What the library needs to
//! know of one is named here; the functions at the end make the calls, and
//! their contracts are taken on trust.

use serde_json::Value;
use vstd::prelude::*;

verus! {

#[verifier::external_type_specification]
#[verifier::external_body]
pub struct ExValue(serde_json::Value);

#[verifier::external_type_specification]
#[verifier::external_body]
pub struct ExJsonError(serde_json::Error);

/// The document that `serde_json::from_str` reads from a text, or `None`
/// where it rejects the text.
pub uninterp spec fn json_parse(text: Seq<char>) -> Option<Value>;

/// The members of a document that is an object, in the order in which its
/// map hands them out: each key, with the member's text where the member is a
/// string. `None` for a document that is no object.
pub uninterp spec fn json_members(v: Value) -> Option<Seq<(Seq<char>, Option<Seq<char>>)>>;

/// No key occurs at two places.
pub open spec fn distinct_keys(members: Seq<(Seq<char>, Option<Seq<char>>)>) -> bool {
    forall|i: int, j: int|
        0 <= i < j < members.len() ==> (#[trigger] members[i]).0 != (#[trigger] members[j]).0
}

/// The text that a document's `Display` writes: its compact JSON form.
pub uninterp spec fn json_text(v: Value) -> Seq<char>;

/// The object with one member, a string, under the given key.
pub uninterp spec fn json_object_of(key: Seq<char>, text: Seq<char>) -> Value;

/// Calls `serde_json::from_str` for a `Value`. Trusted: the outcome depends
/// on the text alone, so it is the one that `json_parse` names.
#[verifier::external_body]
pub(crate) fn parse_json(text: &str) -> (r: Result<Value, serde_json::Error>)
    ensures
        match r {
            Ok(v) => json_parse(text@) == Some(v),
            Err(_) => json_parse(text@).is_none(),
        },
{
    serde_json::from_str::<Value>(text)
}

/// Calls `Value::as_object` and walks the map with `Map::iter`, taking each
/// member's text with `Value::as_str`. Trusted: the result is what
/// `json_members` names, and, the members being those of a map, no key
/// comes twice.
#[verifier::external_body]
pub(crate) fn object_members(v: &Value) -> (r: Option<Vec<(String, Option<String>)>>)
    ensures
        r.deep_view() == json_members(*v),
        r.deep_view() matches Some(members) ==> distinct_keys(members),
{
    v.as_object().map(|m| m.iter().map(|(k, x)| (k.clone(), x.as_str().map(String::from))).collect())
}

/// Calls `to_string` on a `Value`, which goes through its `Display`. Trusted:
/// the result is what `json_text` names.
#[verifier::external_body]
pub(crate) fn json_to_string(v: &Value) -> (r: String)
    ensures
        r@ == json_text(*v),
{
    v.to_string()
}

/// Calls `Value::from_iter` on one pair of a key and a string. Trusted: the
/// result is the object that `json_object_of` names, and its one member is
/// that pair.
#[verifier::external_body]
pub(crate) fn object_of(key: &str, text: String) -> (r: Value)
    ensures
        r == json_object_of(key@, text@),
        json_members(r) == Some(seq![(key@, Some(text@))]),
{
    Value::from_iter([(key, text)])
}

} // verus!
