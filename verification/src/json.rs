//! Whether a text is JSON.

use vstd::prelude::*;

verus! {

/// What the text parser of `serde_json` finds wrong with a text: `None` for a
/// text that is JSON, else the parser's message.
pub uninterp spec fn json_fault(text: Seq<char>) -> Option<Seq<char>>;

/// `str::parse::<serde_json::Value>`, that is `serde_json::from_str`: gives
/// nothing for a text that parses as one JSON value, and the error's text for
/// one that does not.
#[verifier::external_body]
pub(crate) fn json_check(text: &str) -> (fault: Option<String>)
    ensures
        match json_fault(text@) {
            Some(message) => fault matches Some(m) && m@ == message,
            None => fault.is_none(),
        },
{
    match text.parse::<serde_json::Value>() {
        Ok(_) => None,
        Err(e) => Some(e.to_string()),
    }
}

} // verus!
