use vstd::prelude::*;
use crate::number::{parse_u32, parsed_u32};
use crate::file_format::{trim, trimmed};
use crate::text::{chars_of, string_from_chars};

verus! {

/// How a guess compares with the secret number.
#[derive(PartialEq, Eq, Structural, Debug, Clone, Copy)]
pub enum Verdict {
    TooLow,
    TooHigh,
    Correct,
}

/// Compares `guess` with `secret`.
pub fn judge(guess: u32, secret: u32) -> (r: Verdict)
    ensures
        guess < secret ==> r == Verdict::TooLow,
        guess > secret ==> r == Verdict::TooHigh,
        guess == secret ==> r == Verdict::Correct,
{
    if guess < secret {
        Verdict::TooLow
    } else if guess > secret {
        Verdict::TooHigh
    } else {
        Verdict::Correct
    }
}

/// Reads a guess from a typed line: the number it spells once white space is
/// taken off both ends, if any.
pub fn parse_guess(line: &str) -> (r: Option<u32>)
    ensures
        r == parsed_u32(trim(line@)),
{
    let chars = chars_of(line);
    let core = string_from_chars(&trimmed(&chars));
    parse_u32(core.as_str())
}

} // verus!
