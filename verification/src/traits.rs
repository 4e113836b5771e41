//! What can be turned into formatted text.

use vstd::prelude::*;
use crate::consts::Formatting;
use crate::model::TextTree;
use crate::strings::ColouredString;

verus! {

/// Allows for formatting of a certain type: a value of it can be turned
/// into formatted text under a list of directives.
///
/// What the text holds is up to the type. The types of this library say it
/// in the contracts of their own `formatted`.
pub trait Colourisable {
    /// Creates formatted text from this value, under `formatting`.
    fn formatted(self, formatting: Vec<Formatting>) -> ColouredString;
}

/// Whether `string` is what `from.formatted` can return for a list that
/// holds `formatting`.
pub open spec fn formatted_by<S: Colourisable>(
    from: S,
    formatting: Seq<Formatting>,
    string: ColouredString,
) -> bool {
    exists|list: Vec<Formatting>|
        list@ == formatting && #[trigger] call_ensures(S::formatted, (from, list), string)
}

impl<'a> Colourisable for &'a str {
    /// The text is this string, as one part under `formatting`.
    fn formatted(self, formatting: Vec<Formatting>) -> (string: ColouredString)
        ensures
            string@ == TextTree::tagged(self@, formatting@),
    {
        ColouredString::from_formatting(self, formatting)
    }
}

impl Colourisable for String {
    /// The text is this string, as one part under `formatting`.
    fn formatted(self, formatting: Vec<Formatting>) -> (string: ColouredString)
        ensures
            string@ == TextTree::tagged(self@, formatting@),
    {
        ColouredString::from_formatting(self.as_str(), formatting)
    }
}

impl Colourisable for ColouredString {
    /// The text is this text, with `formatting` in front of its own.
    fn formatted(self, formatting: Vec<Formatting>) -> (string: ColouredString)
        ensures
            string@ == self@.under(formatting@),
    {
        self.with_formatting(formatting)
    }
}

} // verus!
