//! Checking that a text is one JSON value, with `serde_json`.

use vstd::prelude::*;

verus! {

/// The message of the error that `serde_json::from_str::<serde_json::Value>`
/// reports for `text`, or `None` when `text` is one JSON value.
pub uninterp spec fn json_value_error(text: Seq<char>) -> Option<Seq<char>>;

/// `serde_json::from_str::<serde_json::Value>`, keeping only whether it
/// succeeded and the message of its error, as `json_value_error` names them.
#[verifier::external_body]
pub(crate) fn json_syntax_error(text: &str) -> (r: Option<String>)
    ensures
        r.deep_view() == json_value_error(text@),
{
    match serde_json::from_str::<serde_json::Value>(text) {
        Ok(_) => None,
        Err(e) => Some(e.to_string()),
    }
}

} // verus!
