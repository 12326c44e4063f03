//! The escape sequences that set the colour of the text on a terminal.

use termion::color;
use vstd::prelude::*;

verus! {

/// The character of a decimal digit.
pub open spec fn digit(d: int) -> char {
    ('0' as int + d) as char
}

/// A number below 256 in decimal, without leading zeros.
pub open spec fn decimal(n: u8) -> Seq<char> {
    if n < 10 {
        seq![digit(n as int)]
    } else if n < 100 {
        seq![digit(n as int / 10), digit(n as int % 10)]
    } else {
        seq![digit(n as int / 100), digit(n as int / 10 % 10), digit(n as int % 10)]
    }
}

/// The sequence that sets the foreground to the colour of the given red,
/// green and blue parts: `ESC [ 3 8 ; 2 ; r ; g ; b m`.
pub open spec fn fg_sequence(rgb: (u8, u8, u8)) -> Seq<char> {
    seq!['\x1B', '[', '3', '8', ';', '2', ';'] + decimal(rgb.0) + seq![';'] + decimal(rgb.1)
        + seq![';'] + decimal(rgb.2) + seq!['m']
}

/// The sequence that sets the foreground back to the terminal's own
/// colour: `ESC [ 3 9 m`.
pub open spec fn fg_reset_sequence() -> Seq<char> {
    seq!['\x1B', '[', '3', '9', 'm']
}

/// Formats `termion::color::Fg` of a `termion::color::Rgb`. What it writes is
/// the true-colour foreground sequence with the three parts in decimal.
#[verifier::external_body]
pub(crate) fn fg(rgb: (u8, u8, u8)) -> (s: String)
    ensures
        s@ == fg_sequence(rgb),
{
    format!("{}", color::Fg(color::Rgb(rgb.0, rgb.1, rgb.2)))
}

/// Formats `termion::color::Fg` of `termion::color::Reset`. What it writes is
/// the sequence that resets the foreground colour.
#[verifier::external_body]
pub(crate) fn fg_reset() -> (s: String)
    ensures
        s@ == fg_reset_sequence(),
{
    format!("{}", color::Fg(color::Reset))
}

} // verus!
