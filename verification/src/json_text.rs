//! Members of JSON objects that are still text.

use vstd::prelude::*;

use crate::text::opt_text;

verus! {

/// The JSON text of the member `key` of the object that `text` holds; nothing when `text` is no
/// JSON, no object, or has no such member.
pub uninterp spec fn json_member_text(text: Seq<char>, key: Seq<char>) -> Option<Seq<char>>;

/// Calls `serde_json::from_str` for a `serde_json::Value`, then `Value::get`, and renders the
/// member with the value's `Display`. The result is a function of the two texts; the grammar of
/// JSON is not spelled out.
#[verifier::external_body]
pub(crate) fn json_member(text: &str, key: &str) -> (r: Option<String>)
    ensures
        opt_text(r) == json_member_text(text@, key@),
{
    let value: Option<serde_json::Value> = serde_json::from_str(text).ok();
    value.and_then(|v| v.get(key).map(|member| member.to_string()))
}

} // verus!
