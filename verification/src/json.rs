//! The serde_json calls that reading a status document makes. Each lookup
//! takes the document's text and a JSON pointer (such as `/players/online`),
//! and its result is named as a function of those two alone.

use vstd::prelude::*;

verus! {

/// Whether serde_json accepts `text` as one JSON document.
pub uninterp spec fn json_parses(text: Seq<char>) -> bool;

/// The message that serde_json's error displays when it does not accept
/// `text` (what went wrong, and at which line and column).
pub uninterp spec fn json_error_message(text: Seq<char>) -> Seq<char>;

/// The string that serde_json finds at `pointer` in the document `text`
/// (`None` when the text is not a document, nothing is there, or what is there
/// is not a string).
pub uninterp spec fn json_str_at(text: Seq<char>, pointer: Seq<char>) -> Option<Seq<char>>;

/// The non-negative integer that serde_json finds at `pointer` in the
/// document `text` (`None` when the text is not a document, nothing is there,
/// or what is there is not such an integer).
pub uninterp spec fn json_u64_at(text: Seq<char>, pointer: Seq<char>) -> Option<u64>;

/// The boolean that serde_json finds at `pointer` in the document `text`
/// (`None` when the text is not a document, nothing is there, or what is there
/// is not a boolean).
pub uninterp spec fn json_bool_at(text: Seq<char>, pointer: Seq<char>) -> Option<bool>;

/// `serde_json::from_str::<serde_json::Value>`. Claimed: it succeeds exactly
/// when serde_json accepts the text (`json_parses`), which depends on the text
/// alone. On failure the error's displayed message is returned, named
/// `json_error_message` of the text (it too depends on the text alone).
#[verifier::external_body]
pub(crate) fn parse_json(text: &str) -> (r: Result<(), String>)
    ensures
        r is Ok <==> json_parses(text@),
        r matches Err(m) ==> m@ == json_error_message(text@),
{
    match serde_json::from_str::<serde_json::Value>(text) {
        Ok(_) => Ok(()),
        Err(e) => Err(e.to_string()),
    }
}

/// `serde_json::from_str::<serde_json::Value>`, then `Value::pointer` and
/// `Value::as_str`. Claimed: the result is the name `json_str_at` of the text
/// and the pointer, a function of those two alone.
#[verifier::external_body]
pub(crate) fn json_str_at_ptr(text: &str, pointer: &str) -> (r: Option<String>)
    ensures
        json_str_at(text@, pointer@) == match r {
            Some(s) => Some(s@),
            None => None,
        },
{
    serde_json::from_str::<serde_json::Value>(text).ok().and_then(
        |v| v.pointer(pointer).and_then(|x| x.as_str()).map(|s| s.to_string()),
    )
}

/// `serde_json::from_str::<serde_json::Value>`, then `Value::pointer` and
/// `Value::as_u64`. Claimed: the result is the name `json_u64_at` of the text
/// and the pointer, a function of those two alone.
#[verifier::external_body]
pub(crate) fn json_u64_at_ptr(text: &str, pointer: &str) -> (r: Option<u64>)
    ensures
        r == json_u64_at(text@, pointer@),
{
    serde_json::from_str::<serde_json::Value>(text).ok().and_then(
        |v| v.pointer(pointer).and_then(|x| x.as_u64()),
    )
}

/// `serde_json::from_str::<serde_json::Value>`, then `Value::pointer` and
/// `Value::as_bool`. Claimed: the result is the name `json_bool_at` of the
/// text and the pointer, a function of those two alone.
#[verifier::external_body]
pub(crate) fn json_bool_at_ptr(text: &str, pointer: &str) -> (r: Option<bool>)
    ensures
        r == json_bool_at(text@, pointer@),
{
    serde_json::from_str::<serde_json::Value>(text).ok().and_then(
        |v| v.pointer(pointer).and_then(|x| x.as_bool()),
    )
}

} // verus!
