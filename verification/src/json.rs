//! JSON string literals, written by `serde_json`.
use vstd::prelude::*;

verus! {

/// Declares `serde_json::Error`, the error of a failed serialization, as a type whose
/// inside the library never reads.
#[verifier::external_type_specification]
#[verifier::external_body]
pub struct ExJsonError(serde_json::Error);

/// What `serde_json::to_string` gives for a text: its JSON string literal, that is
/// the text between double quotes with the characters escaped that JSON asks to
/// escape. A text on which the call were to fail would have none.
pub uninterp spec fn json_string_literal(text: Seq<char>) -> Option<Seq<char>>;

/// Calls `serde_json::to_string` on a string slice. The call succeeds: a string slice
/// serializes without a failure of its own, and the output goes into a byte vector,
/// whose writes do not fail. What it gives is the JSON string literal of the slice,
/// which depends on the slice alone.
#[verifier::external_body]
pub(crate) fn json_quote(text: &str) -> (r: Result<String, serde_json::Error>)
    ensures
        r is Ok,
        r matches Ok(literal) ==> json_string_literal(text@) == Some(literal@),
{
    serde_json::to_string(text)
}

/// The JSON string literal of `text`.
pub fn quoted(text: &str) -> (r: Option<String>)
    ensures
        r matches Some(literal) && json_string_literal(text@) == Some(literal@),
{
    match json_quote(text) {
        Ok(literal) => Some(literal),
        Err(_) => None,
    }
}

} // verus!
