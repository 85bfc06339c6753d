//! The operator's answer at the confirmation prompt.

use crate::text::{lowercased, same_text, to_lowercase, trim, trimmed};
use vstd::prelude::*;

verus! {

/// How the operator resolved a prompt. Both outcomes are terminal for the
/// transaction.
#[derive(Clone, Copy, Debug, PartialEq, Eq, Structural)]
pub enum Answer {
    Confirmed,
    Cancelled,
}

/// The accepted affirmative tokens, once trimmed and lower-cased.
pub open spec fn affirmative(t: Seq<char>) -> bool {
    t == "yes"@ || t == "y"@ || t == "true"@ || t == "ok"@
}

/// The answer that a normalized line stands for: anything but an
/// affirmative token cancels, so an ambiguous answer never leaves a
/// transaction hanging.
pub open spec fn answer_spec(t: Seq<char>) -> Answer {
    if affirmative(t) {
        Answer::Confirmed
    } else {
        Answer::Cancelled
    }
}

/// The answer for a line that is already trimmed and lower-cased.
pub fn answer_of_normalized(t: &str) -> (r: Answer)
    ensures
        r == answer_spec(t@),
{
    if same_text(t, "yes") || same_text(t, "y") || same_text(t, "true") || same_text(t, "ok") {
        Answer::Confirmed
    } else {
        Answer::Cancelled
    }
}

/// The answer for one line typed at the prompt: surrounding white space is
/// ignored and the tokens are compared without regard to case.
pub fn answer_of(line: &str) -> (r: Answer)
    ensures
        r == answer_spec(lowercased(trimmed(line@))),
{
    let t = trim(line);
    let l = to_lowercase(t);
    answer_of_normalized(l.as_str())
}

} // verus!
