//! The ends of text attributes.

use vstd::prelude::*;
use crate::consts::Formatting;
use crate::functions::single;
use crate::strings::ColouredString;
use crate::traits::{formatted_by, Colourisable};

verus! {

/// Ends bold and faint text.
pub fn intensity<S: Colourisable>(from: S) -> (string: ColouredString)
    ensures
        formatted_by(from, seq![Formatting::ResetIntensity], string),
{
    from.formatted(single(Formatting::ResetIntensity))
}

/// Ends italics.
pub fn italic<S: Colourisable>(from: S) -> (string: ColouredString)
    ensures
        formatted_by(from, seq![Formatting::ResetItalic], string),
{
    from.formatted(single(Formatting::ResetItalic))
}

/// Ends underlining.
pub fn underline<S: Colourisable>(from: S) -> (string: ColouredString)
    ensures
        formatted_by(from, seq![Formatting::ResetUnderline], string),
{
    from.formatted(single(Formatting::ResetUnderline))
}

/// Ends slow blinking.
pub fn slow_blink<S: Colourisable>(from: S) -> (string: ColouredString)
    ensures
        formatted_by(from, seq![Formatting::ResetSlowBlink], string),
{
    from.formatted(single(Formatting::ResetSlowBlink))
}

/// Ends fast blinking.
pub fn fast_blink<S: Colourisable>(from: S) -> (string: ColouredString)
    ensures
        formatted_by(from, seq![Formatting::ResetFastBlink], string),
{
    from.formatted(single(Formatting::ResetFastBlink))
}

/// Ends the swap of colours.
pub fn invert<S: Colourisable>(from: S) -> (string: ColouredString)
    ensures
        formatted_by(from, seq![Formatting::ResetInvert], string),
{
    from.formatted(single(Formatting::ResetInvert))
}

/// Shows the text again.
pub fn conceal<S: Colourisable>(from: S) -> (string: ColouredString)
    ensures
        formatted_by(from, seq![Formatting::ResetConceal], string),
{
    from.formatted(single(Formatting::ResetConceal))
}

/// Ends striking through.
pub fn strikethrough<S: Colourisable>(from: S) -> (string: ColouredString)
    ensures
        formatted_by(from, seq![Formatting::ResetStrikethrough], string),
{
    from.formatted(single(Formatting::ResetStrikethrough))
}

/// Ends the line over the text.
pub fn overline<S: Colourisable>(from: S) -> (string: ColouredString)
    ensures
        formatted_by(from, seq![Formatting::ResetOverline], string),
{
    from.formatted(single(Formatting::ResetOverline))
}

} // verus!
