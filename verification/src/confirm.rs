//! The question before a command runs, and what becomes of the answer.

use vstd::prelude::*;
use vstd::string::*;
use crate::text::{characters, trim, trimmed, CharClass};

verus! {

/// What `str::to_lowercase` makes of `text`: its lowercase form by the
/// Unicode rules.
pub uninterp spec fn lowercase(text: Seq<char>) -> Seq<char>;

/// Calls `str::to_lowercase`. The result is a function of the text alone,
/// which [`lowercase`] names.
#[verifier::external_body]
fn to_lowercase(text: &str) -> (lowered: String)
    ensures
        lowered@ == lowercase(text@),
{
    text.to_lowercase()
}

/// What is done with a proposed command.
#[derive(Debug, PartialEq, Eq)]
pub enum Decision {
    /// The command is handed to the shell.
    Execute(String),
    /// Nothing runs.
    Abort,
}

/// `word` is `y` or `yes`.
pub open spec fn is_yes(word: Seq<char>) -> bool {
    word == seq!['y'] || word == seq!['y', 'e', 's']
}

/// The form in which an answer is judged: trimmed of whitespace, then in
/// lowercase.
pub open spec fn normalized(answer: Seq<char>) -> Seq<char> {
    lowercase(trim(answer, CharClass::Whitespace))
}

/// Whether `word` is `y` or `yes`, letter for letter.
pub fn says_yes(word: &str) -> (yes: bool)
    ensures
        yes == is_yes(word@),
{
    let chars = characters(word);
    if chars.len() == 1 {
        let yes = chars[0] == 'y';
        assert(yes ==> word@ =~= seq!['y']);
        yes
    } else if chars.len() == 3 {
        let yes = chars[0] == 'y' && chars[1] == 'e' && chars[2] == 's';
        assert(yes ==> word@ =~= seq!['y', 'e', 's']);
        yes
    } else {
        false
    }
}

/// Whether `answer` agrees: whether, trimmed and in lowercase, it is `y`
/// or `yes`. Anything else declines, the empty answer too.
pub fn is_affirmative(answer: &str) -> (yes: bool)
    ensures
        yes == is_yes(normalized(answer@)),
{
    let lowered = to_lowercase(trimmed(answer, CharClass::Whitespace));
    says_yes(lowered.as_str())
}

/// Decides what is done with `command` on the answer `answer`: it runs,
/// as it is, on an answer that agrees, and on no other.
pub fn decide(command: String, answer: &str) -> (decision: Decision)
    ensures
        is_yes(normalized(answer@)) ==> decision == Decision::Execute(command),
        !is_yes(normalized(answer@)) ==> decision == Decision::Abort,
{
    if is_affirmative(answer) {
        Decision::Execute(command)
    } else {
        Decision::Abort
    }
}

} // verus!
