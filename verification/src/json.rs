//! Reading a string or integer member of a JSON text.
use vstd::prelude::*;

use crate::text::opt_view;

verus! {

/// Whether `serde_json` parses `text` as a JSON value.
pub uninterp spec fn json_parses(text: Seq<char>) -> bool;

/// The member `key` of the JSON value that `text` parses to, when the value
/// is an object with that member and the member is a string (what
/// `Value::get(key)` and `Value::as_str` give).
pub uninterp spec fn json_str_member(text: Seq<char>, key: Seq<char>) -> Option<Seq<char>>;

/// `serde_json::from_str::<serde_json::Value>`, then `Value::get(key)` and
/// `Value::as_str` on the parsed value.
///
/// Claims the first component is whether the text parses (`json_parses`)
/// and the second the string member (`json_str_member`), absent when the
/// text does not parse. The parser returns errors rather than panicking.
#[verifier::external_body]
pub(crate) fn json_probe(text: &str, key: &str) -> (r: (bool, Option<String>))
    ensures
        r.0 == json_parses(text@),
        opt_view(r.1) == json_str_member(text@, key@),
        !r.0 ==> r.1 is None,
{
    match serde_json::from_str::<serde_json::Value>(text) {
        Ok(v) => (true, v.get(key).and_then(|m| m.as_str()).map(|m| m.to_string())),
        Err(_) => (false, None),
    }
}

/// The member `key` of the JSON value that `text` parses to, when the value
/// is an object with that member and the member is a number that fits an
/// `i64` (what `Value::get(key)` and `Value::as_i64` give).
pub uninterp spec fn json_i64_member(text: Seq<char>, key: Seq<char>) -> Option<i64>;

/// `serde_json::from_str::<serde_json::Value>`, then `Value::get(key)` and
/// `Value::as_i64` on the parsed value.
///
/// Claims the result is `json_i64_member`, absent when the text does not
/// parse. The parser returns errors rather than panicking.
#[verifier::external_body]
pub(crate) fn json_i64_probe(text: &str, key: &str) -> (r: Option<i64>)
    ensures
        r == json_i64_member(text@, key@),
        !json_parses(text@) ==> r is None,
{
    match serde_json::from_str::<serde_json::Value>(text) {
        Ok(v) => v.get(key).and_then(|m| m.as_i64()),
        Err(_) => None,
    }
}

} // verus!
