//! Construction of JSON values. A JSON value is opaque to the verifier: the
//! values built here are named by what they are built from, so that a
//! contract can say which value a function builds.

use vstd::prelude::*;

verus! {

/// The JSON string holding a text (`serde_json::Value::String`).
pub uninterp spec fn json_str(s: Seq<char>) -> serde_json::Value;

/// The JSON number of a count (`serde_json::Value::from` on a `usize`).
pub uninterp spec fn json_count(n: usize) -> serde_json::Value;

/// The JSON boolean (`serde_json::Value::Bool`).
pub uninterp spec fn json_boolean(b: bool) -> serde_json::Value;

/// The JSON array of the values, in order (`serde_json::Value::Array`).
pub uninterp spec fn json_array_of(items: Seq<serde_json::Value>) -> serde_json::Value;

/// The JSON object of the entries (`serde_json::Value::Object` of the
/// entries collected into a `serde_json::Map`).
pub uninterp spec fn json_object_of(entries: Seq<(Seq<char>, serde_json::Value)>) -> serde_json::Value;

/// The entries of an object with their keys as text.
pub open spec fn entry_views(entries: Seq<(String, serde_json::Value)>) -> Seq<(Seq<char>, serde_json::Value)> {
    entries.map_values(|e: (String, serde_json::Value)| (e.0@, e.1))
}

/// `serde_json::Value::String`: the JSON string holding the text, which
/// holds no other text.
#[verifier::external_body]
pub(crate) fn json_string(s: String) -> (v: serde_json::Value)
    ensures
        v == json_str(s@),
        forall|t: Seq<char>| v == json_str(t) ==> t == s@,
{
    serde_json::Value::String(s)
}

/// `serde_json::Value::from` on a `usize`: the JSON number of the count.
#[verifier::external_body]
pub(crate) fn json_usize(n: usize) -> (v: serde_json::Value)
    ensures
        v == json_count(n),
{
    serde_json::Value::from(n)
}

/// `serde_json::Value::Bool`: the JSON boolean.
#[verifier::external_body]
pub(crate) fn json_bool(b: bool) -> (v: serde_json::Value)
    ensures
        v == json_boolean(b),
{
    serde_json::Value::Bool(b)
}

/// `serde_json::Value::Array`: the JSON array of the values.
#[verifier::external_body]
pub(crate) fn json_array(items: Vec<serde_json::Value>) -> (v: serde_json::Value)
    ensures
        v == json_array_of(items@),
{
    serde_json::Value::Array(items)
}

/// `serde_json::Value::Object` of the entries collected into a
/// `serde_json::Map`: the JSON object of the entries.
#[verifier::external_body]
pub(crate) fn json_object(entries: Vec<(String, serde_json::Value)>) -> (v: serde_json::Value)
    ensures
        v == json_object_of(entry_views(entries@)),
{
    serde_json::Value::Object(entries.into_iter().collect())
}

/// `serde_json::Value::as_str`, copied: the text of a JSON string, `None`
/// for any other value. The value is a JSON string exactly when it is
/// `Value::String` of some text, and then `as_str` gives that text.
#[verifier::external_body]
pub(crate) fn json_text(v: &serde_json::Value) -> (r: Option<String>)
    ensures
        match r {
            Some(t) => *v == json_str(t@) && forall|s: Seq<char>| *v == json_str(s) ==> s == t@,
            None => forall|s: Seq<char>| *v != json_str(s),
        },
{
    v.as_str().map(|s| s.to_string())
}

} // verus!
