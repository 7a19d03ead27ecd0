//! Reading the `"type"` tag and the members of a JSON text frame, by way
//! of `serde_json`.
use vstd::prelude::*;

verus! {

/// What `serde_json` yields for the top-level member `key` of `text`: the
/// member's string when `text` is a JSON object whose `key` member is a
/// string, nothing otherwise.
pub uninterp spec fn json_str_member_of(text: Seq<char>, key: Seq<char>) -> Option<Seq<char>>;

/// Whether `serde_json` finds a top-level member named `key` in `text` (false
/// when `text` is not a JSON object).
pub uninterp spec fn json_has_key_of(text: Seq<char>, key: Seq<char>) -> bool;

/// `serde_json::from_str::<serde_json::Value>`, then `Value::get(key)` and
/// the `Value::String` variant: the string held by the top-level member
/// `key`. Stated only as the name `json_str_member_of`; JSON parsing is not
/// modelled.
#[verifier::external_body]
pub(crate) fn json_str_member(text: &str, key: &str) -> (r: Option<String>)
    ensures
        match r {
            Some(s) => json_str_member_of(text@, key@) == Some(s@),
            None => json_str_member_of(text@, key@) is None,
        },
{
    match serde_json::from_str::<serde_json::Value>(text) {
        Ok(v) => match v.get(key) {
            Some(serde_json::Value::String(s)) => Some(s.clone()),
            _ => None,
        },
        Err(_) => None,
    }
}

/// `serde_json::from_str::<serde_json::Value>`, then `Value::get(key)`:
/// whether the top-level object has that member. Stated only as the name
/// `json_has_key_of`; JSON parsing is not modelled.
#[verifier::external_body]
pub(crate) fn json_has_key(text: &str, key: &str) -> (r: bool)
    ensures
        r == json_has_key_of(text@, key@),
{
    match serde_json::from_str::<serde_json::Value>(text) {
        Ok(v) => v.get(key).is_some(),
        Err(_) => false,
    }
}

} // verus!
