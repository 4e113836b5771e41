//! Text that carries terminal formatting for each of its pieces.
//!
//! A [`ColouredString`] is built from raw text and formatting directives,
//! grown and edited at byte positions, and flattened to plain text or to
//! text with escape sequences for a terminal.

mod consts;
mod enums;
mod functions;
pub mod laws;
pub mod lemmas;
pub mod model;
mod strings;
mod traits;

pub use consts::Formatting;
pub use enums::{Colour, Font, Style};
pub use functions::{bg, fg, style};
pub use model::{Piece, TextTree};
pub use strings::{Bound, ColouredString};
pub use traits::{formatted_by, Colourisable};
