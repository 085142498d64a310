//! The one JSON lookup the library needs, done by serde_json.

use vstd::prelude::*;

verus! {

/// The member `key` of the JSON document `text`, as serde_json reads it: `None`
/// unless `text` parses as an object holding `key` whose value is an integer
/// in `u64`'s range.
pub uninterp spec fn json_u64_member(text: Seq<char>, key: Seq<char>) -> Option<u64>;

/// Relies on serde_json's `from_str::<Value>` (parses the document; white space
/// around it is allowed), `Value::get` with a string key (the member of an
/// object, `None` for any other value or a missing key) and `Value::as_u64`.
/// The result depends on the two strings alone.
#[verifier::external_body]
pub(crate) fn u64_member(text: &str, key: &str) -> (r: Option<u64>)
    ensures
        r == json_u64_member(text@, key@),
{
    let document: serde_json::Value = serde_json::from_str(text).ok()?;
    document.get(key).and_then(serde_json::Value::as_u64)
}

} // verus!
