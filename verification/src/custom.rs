//! Answers of any type that can be read from text.
//!
//! How text becomes a value is the caller's business: each function here
//! takes a parser, a function from the text of a line to a value or an
//! error. An error is never handed on. It means another round.
use crate::line::{empty_input_message, raw_line, read_line_raw};
use crate::outcome::Outcome;
use vstd::prelude::*;
use vstd::string::*;

verus! {

/// What is said of text that the parser refused.
pub open spec fn invalid_text(raw: Seq<char>) -> Seq<char> {
    raw + " is not valid"@
}

/// Whether `r` is what follows from `parsed`, the parser's verdict on the
/// text `raw`, where an answer is a must.
pub open spec fn follows_from<T, E>(r: Outcome<T>, raw: Seq<char>, parsed: Result<T, E>) -> bool {
    match parsed {
        Ok(value) => r == Outcome::Done(value),
        Err(_) => r matches Outcome::Retry(message) && message@ == invalid_text(raw),
    }
}

/// Whether `r` is what follows from `parsed`, the parser's verdict on the
/// text `raw`, where an answer may be left out.
pub open spec fn follows_from_optional<T, E>(
    r: Outcome<Option<T>>,
    raw: Seq<char>,
    parsed: Result<T, E>,
) -> bool {
    match parsed {
        Ok(value) => r == Outcome::Done(Some(value)),
        Err(_) => r matches Outcome::Retry(message) && message@ == invalid_text(raw),
    }
}

/// What follows from the parser's verdict on the text `raw`: the value is
/// the answer; an error means another round, with a message that repeats the
/// text.
pub fn custom_outcome<T, E>(raw: &str, parsed: Result<T, E>) -> (r: Outcome<T>)
    ensures
        follows_from(r, raw@, parsed),
{
    match parsed {
        Ok(value) => Outcome::Done(value),
        Err(_) => {
            let mut message = raw.to_owned();
            message.append(" is not valid");
            Outcome::Retry(message)
        },
    }
}

/// The answer that `line` gives where an answer may be left out.
///
/// An empty line is the answer `None`, and the parser is not asked. Any other
/// line is tidied up and handed to the parser, whose verdict decides as in
/// [`custom_outcome`].
pub fn read_custom<T, E, P: Fn(&str) -> Result<T, E>>(line: &str, parse: P) -> (r: Outcome<
    Option<T>,
>)
    requires
        forall|raw: &str| raw_line(line@) == Some(raw@) ==> call_requires(parse, (raw,)),
    ensures
        match raw_line(line@) {
            None => r == Outcome::Done(None::<T>),
            Some(text) => exists|raw: &str, parsed: Result<T, E>|
                raw@ == text && call_ensures(parse, (raw,), parsed) && follows_from_optional(
                    r,
                    text,
                    parsed,
                ),
        },
{
    match read_line_raw(line) {
        None => Outcome::Done(None),
        Some(text) => {
            let parsed = parse(text.as_str());
            match custom_outcome(text.as_str(), parsed) {
                Outcome::Done(value) => Outcome::Done(Some(value)),
                Outcome::Retry(message) => Outcome::Retry(message),
            }
        },
    }
}

/// The answer that `line` gives where an answer is a must.
///
/// An empty line means another round. Any other line is tidied up and handed
/// to the parser, whose verdict decides as in [`custom_outcome`].
pub fn read_custom_nonempty<T, E, P: Fn(&str) -> Result<T, E>>(line: &str, parse: P) -> (r:
    Outcome<T>)
    requires
        forall|raw: &str| raw_line(line@) == Some(raw@) ==> call_requires(parse, (raw,)),
    ensures
        match raw_line(line@) {
            None => r matches Outcome::Retry(message) && message@ == empty_input_message(),
            Some(text) => exists|raw: &str, parsed: Result<T, E>|
                raw@ == text && call_ensures(parse, (raw,), parsed) && follows_from(
                    r,
                    text,
                    parsed,
                ),
        },
{
    match read_line_raw(line) {
        None => Outcome::Retry("Input must not be empty.".to_owned()),
        Some(text) => {
            let parsed = parse(text.as_str());
            custom_outcome(text.as_str(), parsed)
        },
    }
}

/// The answer that `line` gives where an answer may be left out and no
/// question was put before the line was read. It decides as [`read_custom`]
/// does.
pub fn read_custom_noquestion<T, E, P: Fn(&str) -> Result<T, E>>(line: &str, parse: P) -> (r:
    Outcome<Option<T>>)
    requires
        forall|raw: &str| raw_line(line@) == Some(raw@) ==> call_requires(parse, (raw,)),
    ensures
        match raw_line(line@) {
            None => r == Outcome::Done(None::<T>),
            Some(text) => exists|raw: &str, parsed: Result<T, E>|
                raw@ == text && call_ensures(parse, (raw,), parsed) && follows_from_optional(
                    r,
                    text,
                    parsed,
                ),
        },
{
    read_custom(line, parse)
}

} // verus!
