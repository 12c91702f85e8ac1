//! The escape sequences that colour the output, as the `crossterm` crate
//! writes them.

use crate::bitmap::Rgb;
use vstd::prelude::*;

verus! {

/// The character of a decimal digit.
pub open spec fn digit(value: nat) -> char {
    (48 + value) as char
}

/// A number in decimal notation, without leading zeros.
pub open spec fn decimal(value: nat) -> Seq<char>
    decreases value,
{
    if value < 10 {
        seq![digit(value)]
    } else {
        decimal(value / 10).push(digit(value % 10))
    }
}

/// The sequence that sets the foreground to a 24-bit colour:
/// `ESC [ 38 ; 2 ; red ; green ; blue m`.
pub open spec fn rgb_sequence(color: Rgb) -> Seq<char> {
    seq!['\x1b', '[', '3', '8', ';', '2', ';'] + decimal(color.red as nat) + seq![';'] + decimal(
        color.green as nat,
    ) + seq![';'] + decimal(color.blue as nat) + seq!['m']
}

/// The sequence that is left of a colour change when colours are switched
/// off: `ESC [ m`.
pub open spec fn plain_sequence() -> Seq<char> {
    seq!['\x1b', '[', 'm']
}

/// The sequence that sets the foreground colour of what follows, with
/// colours switched on (`colored`) or off.
pub open spec fn foreground_sequence(color: Rgb, colored: bool) -> Seq<char> {
    if colored {
        rgb_sequence(color)
    } else {
        plain_sequence()
    }
}

/// The sequence that puts the terminal's colours back: `ESC [ 0 m`.
pub open spec fn reset_sequence() -> Seq<char> {
    seq!['\x1b', '[', '0', 'm']
}

/// What `crossterm::style::SetForegroundColor` writes for `Color::Rgb`.
///
/// Trusted: the command writes [`rgb_sequence`], unless colours are switched
/// off for the process (the crate looks at the `NO_COLOR` variable once),
/// in which case it writes [`plain_sequence`]. Which of the two holds is not
/// known here, and may differ from call to call.
#[verifier::external_body]
pub(crate) fn foreground_code(color: Rgb) -> (code: String)
    ensures
        code@ == rgb_sequence(color) || code@ == plain_sequence(),
{
    let command = crossterm::style::SetForegroundColor(
        crossterm::style::Color::Rgb { r: color.red, g: color.green, b: color.blue },
    );
    let mut code = String::new();
    let _ = crossterm::Command::write_ansi(&command, &mut code);
    code
}

/// What `crossterm::style::ResetColor` writes.
///
/// Trusted: the command writes [`reset_sequence`].
#[verifier::external_body]
pub(crate) fn reset_code() -> (code: String)
    ensures
        code@ == reset_sequence(),
{
    let mut code = String::new();
    let _ = crossterm::Command::write_ansi(&crossterm::style::ResetColor, &mut code);
    code
}

} // verus!
