//! One function for each formatting directive: it puts a value under that
//! directive.

use vstd::prelude::*;
use crate::consts::Formatting;

pub mod bg;
pub mod fg;
pub mod style;

verus! {

/// The list that holds `directive` alone.
pub(crate) fn single(directive: Formatting) -> (list: Vec<Formatting>)
    ensures
        list@ == seq![directive],
{
    let mut list: Vec<Formatting> = Vec::new();
    list.push(directive);
    assert(list@ =~= seq![directive]);
    list
}

} // verus!
