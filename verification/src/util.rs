//! Questions to the operator: what is asked, and what an answer means.

use vstd::prelude::*;
use vstd::string::*;

verus! {

/// What the operator answered.
#[derive(Debug, Clone, Copy, PartialEq, Eq, Structural)]
pub enum Answer {
    /// Go on.
    Yes,
    /// Do not go on.
    No,
    /// Neither: the question is to be asked again.
    Unclear,
}

/// The question `prompt` with the hint how to answer it.
pub open spec fn prompt_text(prompt: Seq<char>) -> Seq<char> {
    prompt + " Type 'yes' to continue"@
}

/// The question `prompt` with the hint how to answer it either way.
pub open spec fn decision_text(prompt: Seq<char>) -> Seq<char> {
    prompt + " Type 'yes' to continue or 'no' to stop"@
}

/// What the answer `text` means: `yes` and `no` are taken by the letter,
/// and nothing else is an answer.
pub open spec fn answer_of(text: Seq<char>) -> Answer {
    if text == "yes"@ {
        Answer::Yes
    } else if text == "no"@ {
        Answer::No
    } else {
        Answer::Unclear
    }
}

/// The text to show when asking the operator to confirm `prompt`.
pub fn confirmation_prompt(prompt: &str) -> (text: String)
    ensures
        text@ == prompt_text(prompt@),
{
    let mut text = String::from_str(prompt);
    text.append(" Type 'yes' to continue");
    text
}

/// The text to show when asking the operator to decide on `prompt`.
pub fn decision_prompt(prompt: &str) -> (text: String)
    ensures
        text@ == decision_text(prompt@),
{
    let mut text = String::from_str(prompt);
    text.append(" Type 'yes' to continue or 'no' to stop");
    text
}

/// Reads the operator's answer.
pub fn read_answer(text: &str) -> (answer: Answer)
    ensures
        answer == answer_of(text@),
{
    let given = String::from_str(text);
    if given == String::from_str("yes") {
        Answer::Yes
    } else if given == String::from_str("no") {
        Answer::No
    } else {
        Answer::Unclear
    }
}

/// Whether the answer `text` lets the operation go on: the question is
/// asked until it does.
pub fn is_confirmed(text: &str) -> (confirmed: bool)
    ensures
        confirmed == (text@ == "yes"@),
{
    match read_answer(text) {
        Answer::Yes => true,
        _ => false,
    }
}

} // verus!
