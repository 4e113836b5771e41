//! Colours of the background.

use vstd::prelude::*;
use crate::consts::Formatting;
use crate::functions::single;
use crate::strings::ColouredString;
use crate::traits::{formatted_by, Colourisable};

verus! {

/// Gives the background the colour black.
pub fn black<S: Colourisable>(from: S) -> (string: ColouredString)
    ensures
        formatted_by(from, seq![Formatting::BgBlack], string),
{
    from.formatted(single(Formatting::BgBlack))
}

/// Gives the background the colour red.
pub fn red<S: Colourisable>(from: S) -> (string: ColouredString)
    ensures
        formatted_by(from, seq![Formatting::BgRed], string),
{
    from.formatted(single(Formatting::BgRed))
}

/// Gives the background the colour green.
pub fn green<S: Colourisable>(from: S) -> (string: ColouredString)
    ensures
        formatted_by(from, seq![Formatting::BgGreen], string),
{
    from.formatted(single(Formatting::BgGreen))
}

/// Gives the background the colour yellow.
pub fn yellow<S: Colourisable>(from: S) -> (string: ColouredString)
    ensures
        formatted_by(from, seq![Formatting::BgYellow], string),
{
    from.formatted(single(Formatting::BgYellow))
}

/// Gives the background the colour blue.
pub fn blue<S: Colourisable>(from: S) -> (string: ColouredString)
    ensures
        formatted_by(from, seq![Formatting::BgBlue], string),
{
    from.formatted(single(Formatting::BgBlue))
}

/// Gives the background the colour magenta.
pub fn magenta<S: Colourisable>(from: S) -> (string: ColouredString)
    ensures
        formatted_by(from, seq![Formatting::BgMagenta], string),
{
    from.formatted(single(Formatting::BgMagenta))
}

/// Gives the background the colour cyan.
pub fn cyan<S: Colourisable>(from: S) -> (string: ColouredString)
    ensures
        formatted_by(from, seq![Formatting::BgCyan], string),
{
    from.formatted(single(Formatting::BgCyan))
}

/// Gives the background the colour white.
pub fn white<S: Colourisable>(from: S) -> (string: ColouredString)
    ensures
        formatted_by(from, seq![Formatting::BgWhite], string),
{
    from.formatted(single(Formatting::BgWhite))
}

/// Gives the background the bright colour black.
pub fn bright_black<S: Colourisable>(from: S) -> (string: ColouredString)
    ensures
        formatted_by(from, seq![Formatting::BgBrightBlack], string),
{
    from.formatted(single(Formatting::BgBrightBlack))
}

/// Gives the background the bright colour red.
pub fn bright_red<S: Colourisable>(from: S) -> (string: ColouredString)
    ensures
        formatted_by(from, seq![Formatting::BgBrightRed], string),
{
    from.formatted(single(Formatting::BgBrightRed))
}

/// Gives the background the bright colour green.
pub fn bright_green<S: Colourisable>(from: S) -> (string: ColouredString)
    ensures
        formatted_by(from, seq![Formatting::BgBrightGreen], string),
{
    from.formatted(single(Formatting::BgBrightGreen))
}

/// Gives the background the bright colour yellow.
pub fn bright_yellow<S: Colourisable>(from: S) -> (string: ColouredString)
    ensures
        formatted_by(from, seq![Formatting::BgBrightYellow], string),
{
    from.formatted(single(Formatting::BgBrightYellow))
}

/// Gives the background the bright colour blue.
pub fn bright_blue<S: Colourisable>(from: S) -> (string: ColouredString)
    ensures
        formatted_by(from, seq![Formatting::BgBrightBlue], string),
{
    from.formatted(single(Formatting::BgBrightBlue))
}

/// Gives the background the bright colour magenta.
pub fn bright_magenta<S: Colourisable>(from: S) -> (string: ColouredString)
    ensures
        formatted_by(from, seq![Formatting::BgBrightMagenta], string),
{
    from.formatted(single(Formatting::BgBrightMagenta))
}

/// Gives the background the bright colour cyan.
pub fn bright_cyan<S: Colourisable>(from: S) -> (string: ColouredString)
    ensures
        formatted_by(from, seq![Formatting::BgBrightCyan], string),
{
    from.formatted(single(Formatting::BgBrightCyan))
}

/// Gives the background the bright colour white.
pub fn bright_white<S: Colourisable>(from: S) -> (string: ColouredString)
    ensures
        formatted_by(from, seq![Formatting::BgBrightWhite], string),
{
    from.formatted(single(Formatting::BgBrightWhite))
}

/// Gives the background the colour `n` of the palette of 256 colours.
pub fn cbit_8<S: Colourisable>(from: S, n: u8) -> (string: ColouredString)
    ensures
        formatted_by(from, seq![Formatting::Bg8Bit(n)], string),
{
    from.formatted(single(Formatting::Bg8Bit(n)))
}

/// Gives the background the colour mixed from red `r`, green `g` and blue `b`.
pub fn cbit_24<S: Colourisable>(from: S, r: u8, g: u8, b: u8) -> (string: ColouredString)
    ensures
        formatted_by(from, seq![Formatting::Bg24Bit(r, g, b)], string),
{
    from.formatted(single(Formatting::Bg24Bit(r, g, b)))
}

/// Gives the background the colour that the terminal uses when none is set.
pub fn reset<S: Colourisable>(from: S) -> (string: ColouredString)
    ensures
        formatted_by(from, seq![Formatting::BgReset], string),
{
    from.formatted(single(Formatting::BgReset))
}

} // verus!
