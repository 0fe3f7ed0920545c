//! The number-guessing game: a secret number in `1..=100` and hints on each
//! guess.
use vstd::prelude::*;
use crate::input::{normalize, trimmed};
use crate::random::random_in;

verus! {

/// The least secret number.
pub const LOWEST: u32 = 1;

/// The greatest secret number.
pub const HIGHEST: u32 = 100;

/// How a guess compares with the secret number.
#[derive(PartialEq, Eq, Structural, Debug, Clone, Copy)]
pub enum Hint {
    TooSmall,
    TooBig,
    Correct,
}

/// An ASCII decimal digit.
pub open spec fn is_digit(c: char) -> bool {
    '0' <= c <= '9'
}

/// The value of a string of decimal digits.
pub open spec fn digits_value(s: Seq<char>) -> int
    decreases s.len(),
{
    if s.len() == 0 {
        0
    } else {
        digits_value(s.drop_last()) * 10 + (s.last() as int - '0' as int)
    }
}

/// The text without one leading `+`, if it has one.
pub open spec fn unsigned_part(s: Seq<char>) -> Seq<char> {
    if s.len() > 0 && s[0] == '+' {
        s.drop_first()
    } else {
        s
    }
}

/// A `u32` written in decimal: an optional `+` and at least one digit, with a
/// value that fits.
pub open spec fn decimal_u32(s: Seq<char>) -> Option<u32> {
    let d = unsigned_part(s);
    if d.len() > 0 && (forall|i: int| 0 <= i < d.len() ==> is_digit(#[trigger] d[i]))
        && digits_value(d) <= u32::MAX {
        Some(digits_value(d) as u32)
    } else {
        None
    }
}

/// The hint owed for `guess` against `secret`.
pub open spec fn hint_spec(guess: u32, secret: u32) -> Hint {
    if guess < secret {
        Hint::TooSmall
    } else if guess > secret {
        Hint::TooBig
    } else {
        Hint::Correct
    }
}

/// Relies on `str::parse::<u32>` (`u32::from_str`): it accepts an optional `+`
/// followed by one or more ASCII digits whose value fits in `u32`, and
/// returns an error for anything else.
#[verifier::external_body]
fn parse_u32(s: &str) -> (r: Option<u32>)
    ensures
        r == decimal_u32(s@),
{
    s.parse::<u32>().ok()
}

/// Reads a guess from a raw line: trimmed, then read as a decimal `u32`.
pub fn parse_guess(line: &str) -> (r: Option<u32>)
    ensures
        r == decimal_u32(trimmed(line@)),
{
    parse_u32(normalize(line))
}

/// Compares a guess with the secret number.
pub fn compare_guess(guess: u32, secret: u32) -> (r: Hint)
    ensures
        r == hint_spec(guess, secret),
{
    if guess < secret {
        Hint::TooSmall
    } else if guess > secret {
        Hint::TooBig
    } else {
        Hint::Correct
    }
}

/// Draws the secret number.
pub fn draw_secret_number() -> (r: u32)
    ensures
        LOWEST <= r <= HIGHEST,
{
    random_in(LOWEST as usize, HIGHEST as usize) as u32
}

} // verus!
