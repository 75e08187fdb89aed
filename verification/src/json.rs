//! Reading members of JSON texts.
use vstd::prelude::*;

verus! {

/// The string member `key` of the JSON object that `text` writes, as
/// `serde_json` reads it: none where the text is not JSON, is not an object,
/// has no such member, or has one that is not a string.
pub uninterp spec fn json_string(text: Seq<char>, key: Seq<char>) -> Option<Seq<char>>;

/// `serde_json::from_str` into a `serde_json::Value`, then `Value::get` with a
/// key and `Value::as_str`. Claimed: the outcome depends on the text and the
/// key alone, and is what [`json_string`] names.
#[verifier::external_body]
pub(crate) fn string_member(text: &str, key: &str) -> (r: Option<String>)
    ensures
        crate::text::opt_view(r) == json_string(text@, key@),
{
    match serde_json::from_str::<serde_json::Value>(text) {
        Ok(value) => match value.get(key).and_then(serde_json::Value::as_str) {
            Some(s) => Some(s.to_owned()),
            None => None,
        },
        Err(_) => None,
    }
}

/// The items of the array member `key` of the JSON object that `text` writes,
/// as `serde_json` reads it, each that is not a string as none: nothing where
/// the text is not JSON, is not an object, has no such member, or has one that
/// is not an array.
pub uninterp spec fn json_list(text: Seq<char>, key: Seq<char>) -> Option<
    Seq<Option<Seq<char>>>,
>;

pub open spec fn opt_views(v: Seq<Option<String>>) -> Seq<Option<Seq<char>>> {
    v.map(|i: int, o: Option<String>| crate::text::opt_view(o))
}

/// `serde_json::from_str` into a `serde_json::Value`, then `Value::get` with a
/// key, `Value::as_array`, and `Value::as_str` of each item. Claimed: the
/// outcome depends on the text and the key alone, and is what [`json_list`]
/// names.
#[verifier::external_body]
pub(crate) fn list_member(text: &str, key: &str) -> (r: Option<Vec<Option<String>>>)
    ensures
        match r {
            Some(v) => json_list(text@, key@) == Some(opt_views(v@)),
            None => json_list(text@, key@) is None,
        },
{
    match serde_json::from_str::<serde_json::Value>(text) {
        Ok(value) => match value.get(key).and_then(serde_json::Value::as_array) {
            Some(items) => Some(items.iter().map(|v| v.as_str().map(str::to_owned)).collect()),
            None => None,
        },
        Err(_) => None,
    }
}

} // verus!
