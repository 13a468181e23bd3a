//! Getting data from a human, one line of text at a time.
//!
//! A command-line program asks a question, reads the line that was typed, and
//! either accepts it or says what was wrong and asks again. This library holds
//! everything in that exchange that can be decided without touching a stream:
//! the text of each prompt, how a line is tidied up, which lines are accepted
//! for which kind of answer, and the text of each complaint.
//!
//! The caller owns the streams. For one answer it writes the prompt, flushes,
//! reads a line, and hands the line to the function for the kind of answer it
//! wants. Where that function returns an [`Outcome`], the caller goes by it:
//! [`Outcome::Done`] holds the answer; on [`Outcome::Retry`] it writes the
//! message on a line of its own and starts over with the prompt. There is no
//! limit to the rounds, and no state to keep between them: every function
//! here depends on its arguments alone.
pub mod choice;
pub mod custom;
pub mod line;
pub mod number;
pub mod outcome;
pub mod trim;

pub use choice::{choice_prompt, default_in_range, read_choice};
pub use custom::{custom_outcome, read_custom, read_custom_nonempty, read_custom_noquestion};
pub use line::{
    question_prompt, read_line_raw, read_string, read_string_nonempty, read_string_noquestion,
};
pub use number::{decimal, parse_number};
pub use outcome::Outcome;
pub use trim::{is_whitespace, trim};
