//! Colours of the text.

use vstd::prelude::*;
use crate::consts::Formatting;
use crate::functions::single;
use crate::strings::ColouredString;
use crate::traits::{formatted_by, Colourisable};

verus! {

/// Gives the text the colour black.
pub fn black<S: Colourisable>(from: S) -> (string: ColouredString)
    ensures
        formatted_by(from, seq![Formatting::FgBlack], string),
{
    from.formatted(single(Formatting::FgBlack))
}

/// Gives the text the colour red.
pub fn red<S: Colourisable>(from: S) -> (string: ColouredString)
    ensures
        formatted_by(from, seq![Formatting::FgRed], string),
{
    from.formatted(single(Formatting::FgRed))
}

/// Gives the text the colour green.
pub fn green<S: Colourisable>(from: S) -> (string: ColouredString)
    ensures
        formatted_by(from, seq![Formatting::FgGreen], string),
{
    from.formatted(single(Formatting::FgGreen))
}

/// Gives the text the colour yellow.
pub fn yellow<S: Colourisable>(from: S) -> (string: ColouredString)
    ensures
        formatted_by(from, seq![Formatting::FgYellow], string),
{
    from.formatted(single(Formatting::FgYellow))
}

/// Gives the text the colour blue.
pub fn blue<S: Colourisable>(from: S) -> (string: ColouredString)
    ensures
        formatted_by(from, seq![Formatting::FgBlue], string),
{
    from.formatted(single(Formatting::FgBlue))
}

/// Gives the text the colour magenta.
pub fn magenta<S: Colourisable>(from: S) -> (string: ColouredString)
    ensures
        formatted_by(from, seq![Formatting::FgMagenta], string),
{
    from.formatted(single(Formatting::FgMagenta))
}

/// Gives the text the colour cyan.
pub fn cyan<S: Colourisable>(from: S) -> (string: ColouredString)
    ensures
        formatted_by(from, seq![Formatting::FgCyan], string),
{
    from.formatted(single(Formatting::FgCyan))
}

/// Gives the text the colour white.
pub fn white<S: Colourisable>(from: S) -> (string: ColouredString)
    ensures
        formatted_by(from, seq![Formatting::FgWhite], string),
{
    from.formatted(single(Formatting::FgWhite))
}

/// Gives the text the bright colour black.
pub fn bright_black<S: Colourisable>(from: S) -> (string: ColouredString)
    ensures
        formatted_by(from, seq![Formatting::FgBrightBlack], string),
{
    from.formatted(single(Formatting::FgBrightBlack))
}

/// Gives the text the bright colour red.
pub fn bright_red<S: Colourisable>(from: S) -> (string: ColouredString)
    ensures
        formatted_by(from, seq![Formatting::FgBrightRed], string),
{
    from.formatted(single(Formatting::FgBrightRed))
}

/// Gives the text the bright colour green.
pub fn bright_green<S: Colourisable>(from: S) -> (string: ColouredString)
    ensures
        formatted_by(from, seq![Formatting::FgBrightGreen], string),
{
    from.formatted(single(Formatting::FgBrightGreen))
}

/// Gives the text the bright colour yellow.
pub fn bright_yellow<S: Colourisable>(from: S) -> (string: ColouredString)
    ensures
        formatted_by(from, seq![Formatting::FgBrightYellow], string),
{
    from.formatted(single(Formatting::FgBrightYellow))
}

/// Gives the text the bright colour blue.
pub fn bright_blue<S: Colourisable>(from: S) -> (string: ColouredString)
    ensures
        formatted_by(from, seq![Formatting::FgBrightBlue], string),
{
    from.formatted(single(Formatting::FgBrightBlue))
}

/// Gives the text the bright colour magenta.
pub fn bright_magenta<S: Colourisable>(from: S) -> (string: ColouredString)
    ensures
        formatted_by(from, seq![Formatting::FgBrightMagenta], string),
{
    from.formatted(single(Formatting::FgBrightMagenta))
}

/// Gives the text the bright colour cyan.
pub fn bright_cyan<S: Colourisable>(from: S) -> (string: ColouredString)
    ensures
        formatted_by(from, seq![Formatting::FgBrightCyan], string),
{
    from.formatted(single(Formatting::FgBrightCyan))
}

/// Gives the text the bright colour white.
pub fn bright_white<S: Colourisable>(from: S) -> (string: ColouredString)
    ensures
        formatted_by(from, seq![Formatting::FgBrightWhite], string),
{
    from.formatted(single(Formatting::FgBrightWhite))
}

/// Gives the text the colour `n` of the palette of 256 colours.
pub fn cbit_8<S: Colourisable>(from: S, n: u8) -> (string: ColouredString)
    ensures
        formatted_by(from, seq![Formatting::Fg8Bit(n)], string),
{
    from.formatted(single(Formatting::Fg8Bit(n)))
}

/// Gives the text the colour mixed from red `r`, green `g` and blue `b`.
pub fn cbit_24<S: Colourisable>(from: S, r: u8, g: u8, b: u8) -> (string: ColouredString)
    ensures
        formatted_by(from, seq![Formatting::Fg24Bit(r, g, b)], string),
{
    from.formatted(single(Formatting::Fg24Bit(r, g, b)))
}

/// Gives the text the colour that the terminal uses when none is set.
pub fn reset<S: Colourisable>(from: S) -> (string: ColouredString)
    ensures
        formatted_by(from, seq![Formatting::FgReset], string),
{
    from.formatted(single(Formatting::FgReset))
}

} // verus!
