//! JSON text as serde_json reads it: the members of an object, the items of
//! an array, a string literal's value and a value's compact form.

use crate::store::opt_text;
use crate::text::strs_view;
use vstd::prelude::*;

verus! {

/// What `serde_json::from_str::<BTreeMap<String, serde_json::Value>>` reads
/// from a text: the members of a JSON object in key order, each value as the
/// JSON text `serde_json::Value::to_string` writes for it; none when the text
/// is not a JSON object.
pub uninterp spec fn json_object_members(s: Seq<char>) -> Option<Seq<(Seq<char>, Seq<char>)>>;

/// What `serde_json::from_str::<Vec<serde_json::Value>>` reads from a text:
/// the items of a JSON array, each as the JSON text written for it; none
/// when the text is not a JSON array.
pub uninterp spec fn json_array_items(s: Seq<char>) -> Option<Seq<Seq<char>>>;

/// What `serde_json::from_str::<String>` reads from a text: the string a
/// JSON string literal holds; none for any other text.
pub uninterp spec fn json_string_value(s: Seq<char>) -> Option<Seq<char>>;

/// What `serde_json::from_str::<serde_json::Value>` then `to_string` makes
/// of a text: its compact JSON form; none when it is not JSON.
pub uninterp spec fn json_value_text(s: Seq<char>) -> Option<Seq<char>>;

/// The characters of each pair.
pub open spec fn pairs_text(v: Seq<(String, String)>) -> Seq<(Seq<char>, Seq<char>)> {
    v.map_values(|p: (String, String)| (p.0@, p.1@))
}

/// Calls `serde_json::from_str::<BTreeMap<String, serde_json::Value>>` and
/// writes each member's value back as JSON text.
#[verifier::external_body]
pub(crate) fn object_members(s: &str) -> (r: Option<Vec<(String, String)>>)
    ensures
        match r {
            Some(v) => json_object_members(s@) == Some(pairs_text(v@)),
            None => json_object_members(s@) is None,
        },
        r is Some ==> json_value_text(s@) is Some,
{
    match serde_json::from_str::<std::collections::BTreeMap<String, serde_json::Value>>(s) {
        Ok(m) => Some(m.into_iter().map(|(k, v)| (k, v.to_string())).collect()),
        Err(_) => None,
    }
}

/// Calls `serde_json::from_str::<Vec<serde_json::Value>>` and writes each
/// item back as JSON text.
#[verifier::external_body]
pub(crate) fn array_items(s: &str) -> (r: Option<Vec<String>>)
    ensures
        match r {
            Some(v) => json_array_items(s@) == Some(strs_view(v@)),
            None => json_array_items(s@) is None,
        },
{
    match serde_json::from_str::<Vec<serde_json::Value>>(s) {
        Ok(items) => Some(items.into_iter().map(|v| v.to_string()).collect()),
        Err(_) => None,
    }
}

/// Calls `serde_json::from_str::<String>`.
#[verifier::external_body]
pub(crate) fn string_value(s: &str) -> (r: Option<String>)
    ensures
        opt_text(r) == json_string_value(s@),
{
    serde_json::from_str::<String>(s).ok()
}

/// Calls `serde_json::from_str::<serde_json::Value>`, then `to_string`.
#[verifier::external_body]
pub(crate) fn value_text(s: &str) -> (r: Option<String>)
    ensures
        opt_text(r) == json_value_text(s@),
{
    match serde_json::from_str::<serde_json::Value>(s) {
        Ok(v) => Some(v.to_string()),
        Err(_) => None,
    }
}

} // verus!
