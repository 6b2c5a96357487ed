//! From a model's reply to the one line that is run.

use vstd::prelude::*;
use vstd::string::*;
use crate::text::{
    characters, find_line_end, first_line, is_single_line, is_trimmed, lemma_first_line_single,
    lemma_line_end_bounds, lemma_line_end_is, lemma_trim_idempotent, lemma_trim_is_stretch,
    lemma_trim_of_trimmed, lemma_trim_shortens, line_end, trim, trim_stretch, CharClass,
};

verus! {

/// The class of the backtick alone.
pub open spec fn backticks() -> CharClass {
    CharClass::Only('`')
}

/// The command that a reply stands for: its first line, trimmed of
/// whitespace, then of the backticks at either end, then of whitespace
/// again. The backticks at one end, however many, are removed together;
/// nothing is removed that the last trim uncovers.
pub open spec fn sanitized(raw: Seq<char>) -> Seq<char> {
    trim(
        trim(trim(first_line(raw), CharClass::Whitespace), backticks()),
        CharClass::Whitespace,
    )
}

/// Reduces a reply to the command it stands for.
pub fn sanitize_command(raw: &str) -> (command: String)
    ensures
        command@ == sanitized(raw@),
{
    let chars = characters(raw);
    let line = find_line_end(&chars);
    let outer = trim_stretch(&chars, 0, line, CharClass::Whitespace);
    let inner = trim_stretch(&chars, outer.0, outer.1, CharClass::Only('`'));
    let kept = trim_stretch(&chars, inner.0, inner.1, CharClass::Whitespace);
    raw.substring_char(kept.0, kept.1).to_owned()
}

/// A command is a single line with no whitespace at either end.
pub proof fn lemma_sanitized_shape(raw: Seq<char>)
    ensures
        is_single_line(sanitized(raw)),
        is_trimmed(sanitized(raw), CharClass::Whitespace),
        sanitized(raw).len() <= raw.len(),
{
    let line = first_line(raw);
    let outer = trim(line, CharClass::Whitespace);
    let inner = trim(outer, backticks());
    lemma_first_line_single(raw);
    lemma_line_end_bounds(raw);
    lemma_trim_is_stretch(line, CharClass::Whitespace);
    lemma_trim_is_stretch(outer, backticks());
    lemma_trim_is_stretch(inner, CharClass::Whitespace);
}

/// The texts that sanitizing leaves as they are: the single lines with
/// neither whitespace nor a backtick at either end.
pub proof fn lemma_sanitize_fixed_points(text: Seq<char>)
    ensures
        sanitized(text) == text <==> is_single_line(text) && is_trimmed(
            text,
            CharClass::Whitespace,
        ) && is_trimmed(text, backticks()),
{
    lemma_sanitized_shape(text);
    if is_single_line(text) && is_trimmed(text, CharClass::Whitespace) {
        lemma_first_line_single(text);
        lemma_trim_of_trimmed(text, CharClass::Whitespace);
        if is_trimmed(text, backticks()) {
            lemma_trim_of_trimmed(text, backticks());
        } else {
            let inner = trim(text, backticks());
            lemma_trim_shortens(text, backticks());
            lemma_trim_is_stretch(inner, CharClass::Whitespace);
        }
    }
}

/// Sanitizing a command again changes nothing, unless the command still
/// begins or ends with a backtick.
pub proof fn lemma_sanitize_idempotent(raw: Seq<char>)
    requires
        is_trimmed(sanitized(raw), backticks()),
    ensures
        sanitized(sanitized(raw)) == sanitized(raw),
{
    lemma_sanitized_shape(raw);
    lemma_sanitize_fixed_points(sanitized(raw));
}

/// A command that still begins or ends with a backtick is sanitized to a
/// shorter one.
pub proof fn lemma_sanitize_peels_backticks(raw: Seq<char>)
    requires
        !is_trimmed(sanitized(raw), backticks()),
    ensures
        sanitized(sanitized(raw)).len() < sanitized(raw).len(),
{
    let command = sanitized(raw);
    lemma_sanitized_shape(raw);
    lemma_first_line_single(command);
    lemma_trim_of_trimmed(command, CharClass::Whitespace);
    lemma_trim_shortens(command, backticks());
    lemma_trim_is_stretch(trim(command, backticks()), CharClass::Whitespace);
}

/// Only the first line counts: what follows a line feed changes nothing.
pub proof fn lemma_sanitize_first_line(head: Seq<char>, tail: Seq<char>)
    ensures
        sanitized(head + seq!['\n'] + tail) == sanitized(head),
        sanitized(first_line(head)) == sanitized(head),
{
    let whole = head + seq!['\n'] + tail;
    lemma_line_end_bounds(head);
    let k = line_end(head) as int;
    assert forall|i: int| 0 <= i < k implies whole[i] != '\n' by {
        assert(whole[i] == head[i]);
    }
    if k < head.len() {
        assert(whole[k] == head[k]);
    } else {
        assert(whole[k] == '\n');
    }
    lemma_line_end_is(whole, k);
    assert(first_line(whole) =~= first_line(head));
    lemma_first_line_single(head);
    lemma_first_line_single(first_line(head));
}

/// Without backticks in its first line, a reply is sanitized to that line
/// trimmed of whitespace.
pub proof fn lemma_sanitize_without_backticks(raw: Seq<char>)
    requires
        forall|i: int| 0 <= i < first_line(raw).len() ==> first_line(raw)[i] != '`',
    ensures
        sanitized(raw) == trim(first_line(raw), CharClass::Whitespace),
{
    let line = first_line(raw);
    let outer = trim(line, CharClass::Whitespace);
    lemma_trim_is_stretch(line, CharClass::Whitespace);
    lemma_trim_of_trimmed(outer, backticks());
    lemma_trim_idempotent(line, CharClass::Whitespace);
}

} // verus!
