//! The mathematical model of formatted text: a tree whose leaves are pieces
//! of raw text and whose inner nodes each add a list of formatting
//! directives to everything below.
//!
//! All positions and lengths count the bytes of the UTF-8 encoding of the
//! text, as `String::len` does.

use vstd::prelude::*;
use vstd::utf8::*;
use crate::consts::{escape_reset, Formatting};

verus! {

/// One child of a node: raw text, or a nested tree.
pub enum Piece {
    Text(Seq<char>),
    Sub(TextTree),
}

/// A node: the formatting that holds for all of its parts, and the parts
/// in reading order.
pub struct TextTree {
    pub formatting: Seq<Formatting>,
    pub parts: Seq<Piece>,
}

/// The escape sequences of all directives of `formatting`, in order.
pub open spec fn escapes(formatting: Seq<Formatting>) -> Seq<char>
    decreases formatting.len(),
{
    if formatting.len() == 0 {
        Seq::empty()
    } else {
        escapes(formatting.drop_last()) + formatting.last().escape()
    }
}

/// The number of bytes that `text` takes in UTF-8.
pub open spec fn utf8_len(text: Seq<char>) -> nat {
    encode_utf8(text).len()
}

/// The text whose encoding is the bytes of the encoding of `text` from
/// position `start` up to position `end`.
pub open spec fn text_slice(text: Seq<char>, start: int, end: int) -> Seq<char> {
    decode_utf8(encode_utf8(text).subrange(start, end))
}

/// Whether the byte position `at` of `text` lies between two characters,
/// or at one of its ends.
pub open spec fn text_boundary(text: Seq<char>, at: int) -> bool {
    0 <= at <= utf8_len(text) && is_char_boundary(encode_utf8(text), at)
}

/// The summed length of `parts`.
pub open spec fn parts_len(parts: Seq<Piece>) -> nat
    decreases parts,
{
    if parts.len() == 0 {
        0
    } else {
        parts[0].len() + parts_len(parts.drop_first())
    }
}

/// The text of `parts`, one after the other, without any formatting.
pub open spec fn parts_text(parts: Seq<Piece>) -> Seq<char>
    decreases parts,
{
    if parts.len() == 0 {
        Seq::empty()
    } else {
        parts[0].plain_text() + parts_text(parts.drop_first())
    }
}

/// What `parts` look like on a terminal when `prefix` holds the escape
/// sequences of everything above them.
pub open spec fn parts_render(parts: Seq<Piece>, prefix: Seq<char>) -> Seq<char>
    decreases parts,
{
    if parts.len() == 0 {
        Seq::empty()
    } else {
        parts[0].render(prefix) + parts_render(parts.drop_first(), prefix)
    }
}

/// `parts` cut in two at byte `at`. Parts that end at or before the cut
/// stay on the left as they are, parts that begin at or behind it go to the
/// right as they are, and a part that the cut runs through is itself cut in
/// two, each half wrapped as a nested tree.
pub open spec fn parts_split(parts: Seq<Piece>, at: int) -> (Seq<Piece>, Seq<Piece>)
    decreases parts,
{
    if parts.len() == 0 {
        (Seq::empty(), Seq::empty())
    } else if at <= 0 {
        (Seq::empty(), parts)
    } else if at < parts[0].len() {
        let halves = parts[0].split(at);
        (seq![Piece::Sub(halves.0)], seq![Piece::Sub(halves.1)] + parts.drop_first())
    } else {
        let rest = parts_split(parts.drop_first(), at - parts[0].len());
        (seq![parts[0]] + rest.0, rest.1)
    }
}

impl Piece {
    /// The length of this piece in bytes.
    pub open spec fn len(self) -> nat
        decreases self,
    {
        match self {
            Piece::Text(text) => utf8_len(text),
            Piece::Sub(tree) => parts_len(tree.parts),
        }
    }

    /// The text of this piece without any formatting.
    pub open spec fn plain_text(self) -> Seq<char>
        decreases self,
    {
        match self {
            Piece::Text(text) => text,
            Piece::Sub(tree) => parts_text(tree.parts),
        }
    }

    /// What this piece looks like on a terminal when `prefix` holds the
    /// escape sequences of everything above it. Every leaf is written as
    /// the prefix, its text, and the sequence that resets all formatting.
    pub open spec fn render(self, prefix: Seq<char>) -> Seq<char>
        decreases self,
    {
        match self {
            Piece::Text(text) => prefix + text + escape_reset(),
            Piece::Sub(tree) => parts_render(tree.parts, prefix + escapes(tree.formatting)),
        }
    }

    /// This piece cut in two at byte `at`. Both halves of a nested tree
    /// keep its formatting; the halves of raw text have none.
    pub open spec fn split(self, at: int) -> (TextTree, TextTree)
        decreases self,
    {
        match self {
            Piece::Text(text) => (
                TextTree::plain(text_slice(text, 0, at)),
                TextTree::plain(text_slice(text, at, utf8_len(text) as int)),
            ),
            Piece::Sub(tree) => {
                let halves = parts_split(tree.parts, at);
                (
                    TextTree { formatting: tree.formatting, parts: halves.0 },
                    TextTree { formatting: tree.formatting, parts: halves.1 },
                )
            },
        }
    }
}

impl TextTree {
    /// The tree without parts and without formatting.
    pub open spec fn empty() -> TextTree {
        TextTree { formatting: Seq::empty(), parts: Seq::empty() }
    }

    /// The tree that holds `text` as its one part, without formatting.
    pub open spec fn plain(text: Seq<char>) -> TextTree {
        TextTree { formatting: Seq::empty(), parts: seq![Piece::Text(text)] }
    }

    /// The tree that holds `text` as its one part, under `formatting`.
    pub open spec fn tagged(text: Seq<char>, formatting: Seq<Formatting>) -> TextTree {
        TextTree { formatting, parts: seq![Piece::Text(text)] }
    }

    /// The tree without formatting of its own whose parts are `pieces`.
    pub open spec fn group(pieces: Seq<Piece>) -> TextTree {
        TextTree { formatting: Seq::empty(), parts: pieces }
    }

    /// The length of the text in bytes.
    pub open spec fn len(self) -> nat {
        parts_len(self.parts)
    }

    /// The text without any formatting.
    pub open spec fn plain_text(self) -> Seq<char> {
        parts_text(self.parts)
    }

    /// The UTF-8 encoding of the text without any formatting.
    pub open spec fn bytes(self) -> Seq<u8> {
        encode_utf8(self.plain_text())
    }

    /// What the tree looks like on a terminal below `prefix`.
    pub open spec fn render_below(self, prefix: Seq<char>) -> Seq<char> {
        parts_render(self.parts, prefix + escapes(self.formatting))
    }

    /// What the tree looks like on a terminal: each leaf behind the escape
    /// sequences of all formatting on the way down to it, outermost first,
    /// and followed by a reset.
    pub open spec fn render(self) -> Seq<char> {
        self.render_below(Seq::empty())
    }

    /// The text of the bytes from position `start` up to position `end`,
    /// without any formatting.
    pub open spec fn slice(self, start: int, end: int) -> Seq<char> {
        text_slice(self.plain_text(), start, end)
    }

    /// Whether the text can be cut at byte `at`: the position lies in the
    /// text and does not fall inside a character.
    pub open spec fn is_boundary(self, at: int) -> bool {
        text_boundary(self.plain_text(), at)
    }

    /// The tree cut in two at byte `at`; both halves keep its formatting.
    pub open spec fn split_2(self, at: int) -> (TextTree, TextTree) {
        let halves = parts_split(self.parts, at);
        (
            TextTree { formatting: self.formatting, parts: halves.0 },
            TextTree { formatting: self.formatting, parts: halves.1 },
        )
    }

    /// The tree cut in three: what lies before byte `start`, what lies
    /// from `start` up to `end`, and what follows.
    pub open spec fn split_3(self, start: int, end: int) -> (TextTree, TextTree, TextTree) {
        let outer = self.split_2(start);
        let inner = outer.1.split_2(end - outer.0.len());
        (outer.0, inner.0, inner.1)
    }

    /// Whether `start` and `end` delimit a range of the text at which it
    /// can be cut.
    pub open spec fn is_range(self, start: int, end: int) -> bool {
        start <= end && self.is_boundary(start) && self.is_boundary(end)
    }

    /// The tree with `formatting` put in front of its own formatting.
    pub open spec fn under(self, formatting: Seq<Formatting>) -> TextTree {
        TextTree { formatting: formatting + self.formatting, parts: self.parts }
    }

    /// The two trees side by side, each wrapped as a part of a new tree.
    pub open spec fn concat(self, other: TextTree) -> TextTree {
        TextTree::group(seq![Piece::Sub(self), Piece::Sub(other)])
    }

    /// The tree with `other` added as its last part.
    pub open spec fn append(self, other: TextTree) -> TextTree {
        TextTree { formatting: self.formatting, parts: self.parts.push(Piece::Sub(other)) }
    }

    /// The tree with `value` put in at byte `at`.
    pub open spec fn insert(self, at: int, value: TextTree) -> TextTree {
        let halves = self.split_2(at);
        TextTree::group(seq![Piece::Sub(halves.0), Piece::Sub(value), Piece::Sub(halves.1)])
    }

    /// The tree cut off behind its first `len` bytes.
    pub open spec fn truncate(self, len: int) -> TextTree {
        TextTree::group(seq![Piece::Sub(self.split_2(len).0)])
    }

    /// The tree without the bytes from `start` up to `end`.
    pub open spec fn remove_range(self, start: int, end: int) -> TextTree {
        let thirds = self.split_3(start, end);
        TextTree {
            formatting: self.formatting,
            parts: seq![Piece::Sub(thirds.0), Piece::Sub(thirds.2)],
        }
    }

    /// The tree with `value` in place of the bytes from `start` up to
    /// `end`.
    pub open spec fn replace_range(self, start: int, end: int, value: TextTree) -> TextTree {
        let thirds = self.split_3(start, end);
        TextTree {
            formatting: self.formatting,
            parts: seq![Piece::Sub(thirds.0), Piece::Sub(value), Piece::Sub(thirds.2)],
        }
    }
}

} // verus!
