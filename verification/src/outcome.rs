//! What one line of input leads to.
use vstd::prelude::*;

verus! {

/// What a line of input leads to: an answer, or another round.
#[derive(Debug, PartialEq, Eq)]
pub enum Outcome<T> {
    /// The line is accepted, and this is the answer.
    Done(T),
    /// The line is refused. The caller shows this message on a line of its
    /// own, then asks again and reads a fresh line.
    Retry(String),
}

} // verus!
