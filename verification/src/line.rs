//! Free text: a line as it was typed, tidied up.
use crate::outcome::Outcome;
use crate::trim::{is_blank, lemma_trim_idempotent, lemma_trim_ignores_padding, trim, trimmed};
use vstd::prelude::*;
use vstd::string::*;

verus! {

/// What is written before a line is read: the question, a colon and a space,
/// or nothing where there is no question.
pub open spec fn prompt_text(question: Option<Seq<char>>) -> Seq<char> {
    match question {
        Some(q) => q + ": "@,
        None => Seq::empty(),
    }
}

/// What a line amounts to: its text without the white space around it, or
/// nothing if that leaves no text.
pub open spec fn raw_line(line: Seq<char>) -> Option<Seq<char>> {
    if trimmed(line).len() == 0 {
        None
    } else {
        Some(trimmed(line))
    }
}

/// What is said when a line had to hold text and held none.
pub open spec fn empty_input_message() -> Seq<char> {
    "Input must not be empty."@
}

/// Whether `answer` is what `line` amounts to.
pub open spec fn is_raw_line(answer: Option<String>, line: Seq<char>) -> bool {
    match answer {
        Some(text) => raw_line(line) == Some(text@),
        None => raw_line(line) is None,
    }
}

/// A line that was tidied up already amounts to itself.
pub proof fn lemma_raw_line_canonical(line: Seq<char>)
    ensures
        raw_line(line) matches Some(text) ==> raw_line(text) == Some(text),
{
    lemma_trim_idempotent(line);
}

/// White space before and after a line does not change what it amounts to.
pub proof fn lemma_raw_line_ignores_padding(before: Seq<char>, line: Seq<char>, after: Seq<char>)
    requires
        is_blank(before),
        is_blank(after),
    ensures
        raw_line(before + line + after) == raw_line(line),
{
    lemma_trim_ignores_padding(before, line, after);
}

/// A line amounts to the same with and without its terminator, be that a
/// line feed or a carriage return and a line feed. So the last line of a
/// stream counts in full even where the stream ends without a terminator.
pub proof fn lemma_raw_line_ignores_terminator(line: Seq<char>)
    ensures
        raw_line(line + seq!['\n']) == raw_line(line),
        raw_line(line + seq!['\r', '\n']) == raw_line(line),
{
    let none = Seq::<char>::empty();
    assert(none + line =~= line);
    lemma_trim_ignores_padding(none, line, seq!['\n']);
    lemma_trim_ignores_padding(none, line, seq!['\r', '\n']);
}

/// The text to write before reading an answer to `question`; no text where
/// there is no question.
pub fn question_prompt(question: Option<&str>) -> (r: String)
    ensures
        question matches Some(q) ==> r@ == prompt_text(Some(q@)),
        question is None ==> r@ == prompt_text(None),
{
    match question {
        Some(q) => {
            let mut r = q.to_owned();
            r.append(": ");
            r
        },
        None => String::new(),
    }
}

/// Tidies up the line that was read: its text without the white space at
/// either end, where the line terminator counts as white space, or `None` if
/// that leaves no text.
pub fn read_line_raw(line: &str) -> (r: Option<String>)
    ensures
        is_raw_line(r, line@),
{
    let text = trim(line);
    if text.is_empty() {
        None
    } else {
        Some(text.to_owned())
    }
}

/// The answer that `line` gives to a question put with
/// [`question_prompt`]: its text, or `None` for an empty line.
pub fn read_string(line: &str) -> (r: Option<String>)
    ensures
        is_raw_line(r, line@),
{
    read_line_raw(line)
}

/// The answer that `line` gives where no question was put before it was
/// read: its text, or `None` for an empty line.
pub fn read_string_noquestion(line: &str) -> (r: Option<String>)
    ensures
        is_raw_line(r, line@),
{
    read_line_raw(line)
}

/// The answer that `line` gives where an answer is a must: its text, or
/// another round for an empty line.
pub fn read_string_nonempty(line: &str) -> (r: Outcome<String>)
    ensures
        match r {
            Outcome::Done(text) => raw_line(line@) == Some(text@),
            Outcome::Retry(message) => raw_line(line@) is None && message@
                == empty_input_message(),
        },
{
    match read_line_raw(line) {
        Some(text) => Outcome::Done(text),
        None => Outcome::Retry("Input must not be empty.".to_owned()),
    }
}

} // verus!
