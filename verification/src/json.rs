//! Reading one string member of a JSON payload through `serde_json`.

use vstd::prelude::*;

verus! {

/// For a payload that `serde_json` parses, `Some(t)` where `t` is the string
/// value of its top-level member `key` (`None` when there is no such
/// member, or it is not a string); `None` for text that is not JSON.
pub uninterp spec fn json_string_member(payload: Seq<char>, key: Seq<char>) -> Option<
    Option<Seq<char>>,
>;

/// `serde_json::from_str::<serde_json::Value>(payload)`, then `get(key)`
/// and `as_str` on the value. The contract claims only that the outcome is
/// the one named by `json_string_member` for the same text and key; which
/// texts are JSON is left to serde_json and not stated here.
#[verifier::external_body]
pub fn read_string_member(payload: &str, key: &str) -> (r: Option<Option<String>>)
    ensures
        r is None <==> json_string_member(payload@, key@) is None,
        r matches Some(t) ==> (json_string_member(payload@, key@) matches Some(u) && (t is None
            <==> u is None) && (t matches Some(ts) ==> u == Some(ts@))),
{
    match serde_json::from_str::<serde_json::Value>(payload) {
        Ok(v) => Some(v.get(key).and_then(|t| t.as_str()).map(|t| t.to_string())),
        Err(_) => None,
    }
}

} // verus!
