//! A choice from a numbered list of options.
//!
//! The options are shown with numbers that start at one; the answer is the
//! option's index, which starts at zero.
use crate::number::{
    decimal, decimal_text, is_digit, lemma_decimal_text_denotes, number_of, parse_number,
};
use crate::outcome::Outcome;
use crate::trim::{is_blank, lemma_trimmed_is, trim, trimmed};
use vstd::prelude::*;
use vstd::string::*;

verus! {

/// Whether `default`, where there is one, is the index of one of `len`
/// options.
pub open spec fn valid_default(len: nat, default: Option<usize>) -> bool {
    default matches Some(d) ==> d < len
}

/// The labels of `options`, each as the text it holds.
pub open spec fn labels(options: Seq<&str>) -> Seq<Seq<char>> {
    Seq::new(options.len(), |i: int| options[i]@)
}

/// How the option at `index` is shown: its number, a colon, and its label in
/// double quotes.
pub open spec fn option_text(index: nat, label: Seq<char>) -> Seq<char> {
    decimal_text(index + 1) + ": \""@ + label + "\""@
}

/// How the options are shown: one after the other, with a comma and a space
/// between two of them.
pub open spec fn options_text(labels: Seq<Seq<char>>) -> Seq<char>
    decreases labels.len(),
{
    if labels.len() == 0 {
        Seq::empty()
    } else if labels.len() == 1 {
        option_text(0, labels[0])
    } else {
        options_text(labels.drop_last()) + ", "@ + option_text(
            (labels.len() - 1) as nat,
            labels.last(),
        )
    }
}

/// How the default is shown, by its number; nothing where there is none.
pub open spec fn default_text(default: Option<usize>) -> Seq<char> {
    match default {
        Some(d) => " (default: "@ + decimal_text((d + 1) as nat) + ")"@,
        None => Seq::empty(),
    }
}

/// What is written before a choice is read: the question, then in square
/// brackets the options and the default, then a colon and a space.
pub open spec fn choice_prompt_text(
    question: Seq<char>,
    labels: Seq<Seq<char>>,
    default: Option<usize>,
) -> Seq<char> {
    question + " ["@ + options_text(labels) + default_text(default) + "]: "@
}

/// The index that `line` selects among `len` options, if it selects one.
///
/// An empty line selects the default, where there is one. Any other line
/// selects by number: the number `n` selects the option at index `n - 1`,
/// for `n` from 1 to `len`. Zero selects nothing.
pub open spec fn selection(len: nat, default: Option<usize>, line: Seq<char>) -> Option<nat> {
    let text = trimmed(line);
    if text.len() == 0 && default is Some {
        Some(default->0 as nat)
    } else {
        match number_of(text) {
            Some(n) if 1 <= n <= len => Some((n - 1) as nat),
            _ => None,
        }
    }
}

/// What is said of a line that selects nothing.
///
/// A number from 1 that fits a `usize` was too big: the message names the
/// index that it stands for. Anything else is no option at all, the number
/// zero too, which stands for no index: the message repeats what was typed.
pub open spec fn refusal_text(line: Seq<char>) -> Seq<char> {
    let text = trimmed(line);
    match number_of(text) {
        Some(n) if 1 <= n <= usize::MAX => decimal_text((n - 1) as nat)
            + " is not a valid option (too big)"@,
        _ => text + " is not a valid option"@,
    }
}

/// A number as it is written has no white space around it to trim.
proof fn lemma_decimal_text_is_trimmed(n: nat)
    ensures
        trimmed(decimal_text(n)) == decimal_text(n),
{
    let text = decimal_text(n);
    lemma_decimal_text_denotes(n);
    assert(is_digit(text.first()) && is_digit(text.last()));
    lemma_trimmed_is(text, 0, text.len() as int);
    assert(text.subrange(0, text.len() as int) =~= text);
}

/// The index that a line selects is that of one of the options.
pub proof fn lemma_selection_in_range(len: nat, default: Option<usize>, line: Seq<char>)
    requires
        valid_default(len, default),
    ensures
        selection(len, default, line) matches Some(index) ==> index < len,
{
}

/// A line of nothing but white space selects the default.
pub proof fn lemma_blank_selects_default(len: nat, default: usize, line: Seq<char>)
    requires
        is_blank(line),
    ensures
        selection(len, Some(default), line) == Some(default as nat),
{
    let n = line.len() as int;
    assert(line.take(n) =~= line);
    lemma_trimmed_is(line, n, n);
}

/// The number under which an option is shown selects that option, whatever
/// the default.
pub proof fn lemma_shown_number_selects(len: nat, default: Option<usize>, index: nat)
    requires
        index < len,
    ensures
        selection(len, default, decimal_text(index + 1)) == Some(index),
{
    lemma_decimal_text_is_trimmed(index + 1);
    lemma_decimal_text_denotes(index + 1);
}

/// A number past the last option selects nothing, and what is said of it
/// names the index that it stands for, one less than the number.
pub proof fn lemma_number_past_options_is_too_big(len: nat, default: Option<usize>, number: nat)
    requires
        len < number <= usize::MAX,
    ensures
        selection(len, default, decimal_text(number)) is None,
        refusal_text(decimal_text(number)) == decimal_text((number - 1) as nat)
            + " is not a valid option (too big)"@,
{
    lemma_decimal_text_is_trimmed(number);
    lemma_decimal_text_denotes(number);
}

/// Whether `default`, where there is one, is the index of one of `len`
/// options. A choice can be put and read only where this holds.
pub fn default_in_range(len: usize, default: Option<usize>) -> (ok: bool)
    ensures
        ok == valid_default(len as nat, default),
{
    match default {
        Some(d) => d < len,
        None => true,
    }
}

/// The text to write before reading a choice among `options`.
pub fn choice_prompt(question: &str, options: &[&str], default: Option<usize>) -> (r: String)
    requires
        valid_default(options@.len(), default),
    ensures
        r@ == choice_prompt_text(question@, labels(options@), default),
{
    let mut r = question.to_owned();
    r.append(" [");
    let ghost head = r@;
    let mut i: usize = 0;
    while i < options.len()
        invariant
            i <= options@.len(),
            head == question@ + " ["@,
            r@ == head + options_text(labels(options@).take(i as int)),
        decreases options@.len() - i,
    {
        let ghost shown = labels(options@).take(i as int);
        let ghost more = labels(options@).take(i + 1);
        if i > 0 {
            r.append(", ");
        }
        let number = decimal(i + 1);
        r.append(number.as_str());
        r.append(": \"");
        r.append(options[i]);
        r.append("\"");
        proof {
            assert(more.drop_last() =~= shown);
            let entry = option_text(i as nat, options@[i as int]@);
            if i == 0 {
                assert(r@ =~= head + entry);
            } else {
                assert(r@ =~= head + (options_text(shown) + ", "@ + entry));
            }
        }
        i = i + 1;
    }
    proof {
        assert(labels(options@).take(i as int) =~= labels(options@));
    }
    match default {
        Some(d) => {
            r.append(" (default: ");
            let number = decimal(d + 1);
            r.append(number.as_str());
            r.append(")");
        },
        None => {},
    }
    r.append("]: ");
    assert(r@ =~= choice_prompt_text(question@, labels(options@), default));
    r
}

/// The choice that `line` makes among `options`: the index that it selects,
/// or another round with a message that says why it selects nothing.
pub fn read_choice(line: &str, options: &[&str], default: Option<usize>) -> (r: Outcome<usize>)
    requires
        valid_default(options@.len(), default),
    ensures
        match r {
            Outcome::Done(index) => index < options@.len() && selection(
                options@.len(),
                default,
                line@,
            ) == Some(index as nat),
            Outcome::Retry(message) => selection(options@.len(), default, line@) is None
                && message@ == refusal_text(line@),
        },
{
    let count = options.len();
    let text = trim(line);
    if text.is_empty() {
        if let Some(d) = default {
            return Outcome::Done(d);
        }
    }
    match parse_number(text) {
        Some(n) if n >= 1 => {
            let index = n - 1;
            if index < count {
                Outcome::Done(index)
            } else {
                let mut message = decimal(index);
                message.append(" is not a valid option (too big)");
                Outcome::Retry(message)
            }
        },
        _ => {
            let mut message = text.to_owned();
            message.append(" is not a valid option");
            Outcome::Retry(message)
        },
    }
}

} // verus!
