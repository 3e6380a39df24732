//! Checking that a text holds one JSON value, for surfaces that carry the
//! value of a typed struct as JSON text.

use vstd::prelude::*;
use vstd::string::StringExecFns;

verus! {

/// What `serde_json::from_str::<serde_json::Value>` says of a text: `Ok`
/// when the text is one JSON value, else the message of its error.
pub uninterp spec fn json_value_verdict(text: Seq<char>) -> Result<(), Seq<char>>;

/// Calls `serde_json::from_str::<serde_json::Value>` on `text`, keeping
/// whether it parsed and, when it did not, the error's `Display` text. The
/// contract names that outcome; it says nothing of which texts parse.
#[verifier::external_body]
fn parse_json_value(text: &str) -> (r: Result<(), String>)
    ensures
        match r {
            Ok(()) => json_value_verdict(text@) == Ok::<(), Seq<char>>(()),
            Err(m) => json_value_verdict(text@) == Err::<(), Seq<char>>(m@),
        },
{
    match serde_json::from_str::<serde_json::Value>(text) {
        Ok(_) => Ok(()),
        Err(e) => Err(e.to_string()),
    }
}

/// The answer to a JSON value text on which the parser gave `verdict`:
/// accepted, or refused with `invalid JSON value: ` and the parser's message.
pub open spec fn json_check_answer(verdict: Result<(), Seq<char>>, r: Result<(), String>) -> bool {
    match verdict {
        Ok(()) => r is Ok,
        Err(m) => r matches Err(t) && t@ == "invalid JSON value: "@ + m,
    }
}

/// The answer to a JSON value text, given what the parser said of it.
pub fn answer_json_check(verdict: Result<(), String>) -> (r: Result<(), String>)
    ensures
        json_check_answer(
            match verdict {
                Ok(()) => Ok::<(), Seq<char>>(()),
                Err(m) => Err::<(), Seq<char>>(m@),
            },
            r,
        ),
        r is Ok <==> verdict is Ok,
        verdict matches Err(m) ==> r matches Err(t) && t@ == "invalid JSON value: "@ + m@,
{
    match verdict {
        Ok(()) => Ok(()),
        Err(m) => {
            let mut t = String::new();
            t.append("invalid JSON value: ");
            t.append(m.as_str());
            Err(t)
        },
    }
}

/// Accepts `text` when it holds one JSON value; otherwise refuses it with
/// `invalid JSON value: ` and the parser's message.
pub fn check_json_value(text: &str) -> (r: Result<(), String>)
    ensures
        json_check_answer(json_value_verdict(text@), r),
        r is Ok <==> json_value_verdict(text@) is Ok,
        json_value_verdict(text@) matches Err(m) ==> r matches Err(t) && t@ == "invalid JSON value: "@
            + m,
{
    let verdict = parse_json_value(text);
    answer_json_check(verdict)
}

} // verus!
