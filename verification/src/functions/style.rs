//! Text attributes.

use vstd::prelude::*;
use crate::consts::Formatting;
use crate::functions::single;
use crate::strings::ColouredString;
use crate::traits::{formatted_by, Colourisable};

pub mod reset;

verus! {

/// Draws the text bold.
pub fn bold<S: Colourisable>(from: S) -> (string: ColouredString)
    ensures
        formatted_by(from, seq![Formatting::Bold], string),
{
    from.formatted(single(Formatting::Bold))
}

/// Draws the text faint.
pub fn faint<S: Colourisable>(from: S) -> (string: ColouredString)
    ensures
        formatted_by(from, seq![Formatting::Faint], string),
{
    from.formatted(single(Formatting::Faint))
}

/// Draws the text in italics.
pub fn italic<S: Colourisable>(from: S) -> (string: ColouredString)
    ensures
        formatted_by(from, seq![Formatting::Italic], string),
{
    from.formatted(single(Formatting::Italic))
}

/// Underlines the text.
pub fn underline<S: Colourisable>(from: S) -> (string: ColouredString)
    ensures
        formatted_by(from, seq![Formatting::Underline], string),
{
    from.formatted(single(Formatting::Underline))
}

/// Makes the text blink slowly.
pub fn slow_blink<S: Colourisable>(from: S) -> (string: ColouredString)
    ensures
        formatted_by(from, seq![Formatting::SlowBlink], string),
{
    from.formatted(single(Formatting::SlowBlink))
}

/// Makes the text blink fast.
pub fn fast_blink<S: Colourisable>(from: S) -> (string: ColouredString)
    ensures
        formatted_by(from, seq![Formatting::FastBlink], string),
{
    from.formatted(single(Formatting::FastBlink))
}

/// Swaps the colours of the text and of its background.
pub fn invert<S: Colourisable>(from: S) -> (string: ColouredString)
    ensures
        formatted_by(from, seq![Formatting::Invert], string),
{
    from.formatted(single(Formatting::Invert))
}

/// Hides the text.
pub fn conceal<S: Colourisable>(from: S) -> (string: ColouredString)
    ensures
        formatted_by(from, seq![Formatting::Conceal], string),
{
    from.formatted(single(Formatting::Conceal))
}

/// Strikes the text through.
pub fn strikethrough<S: Colourisable>(from: S) -> (string: ColouredString)
    ensures
        formatted_by(from, seq![Formatting::Strikethrough], string),
{
    from.formatted(single(Formatting::Strikethrough))
}

/// Draws a line over the text.
pub fn overline<S: Colourisable>(from: S) -> (string: ColouredString)
    ensures
        formatted_by(from, seq![Formatting::Overline], string),
{
    from.formatted(single(Formatting::Overline))
}

} // verus!
