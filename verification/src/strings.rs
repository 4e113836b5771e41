//! Formatted text and the operations that build, edit and flatten it.

use vstd::prelude::*;
use vstd::string::*;
use vstd::utf8::*;
use crate::consts::{escape_reset, Formatting};
use crate::lemmas::{
    lemma_parts_concat, lemma_parts_len, lemma_parts_single, lemma_parts_split, lemma_piece_len,
    lemma_split_2, lemma_split_3, lemma_text_boundary_concat, lemma_text_boundary_ends,
    lemma_tree_len,
};
use crate::model::{
    escapes, parts_len, parts_render, parts_split, parts_text, text_boundary, utf8_len, Piece,
    TextTree,
};

verus! {

/// Pieces of text, with the formatting of each piece.
///
/// The value is a tree. Its view is the [`TextTree`] that the contracts of
/// all operations speak of. The length of the text of every value fits in
/// a `usize`; operations that make a text longer ask for that of their
/// result.
///
/// Positions count bytes. A text can only be cut where a character
/// starts or ends, see [`ColouredString::is_boundary`].
#[derive(Debug)]
pub struct ColouredString {
    parts: Vec<ColouredStringPart>,
    formatting: Vec<Formatting>,
}

/// A fragment of a `ColouredString`.
#[derive(Debug)]
pub(crate) enum ColouredStringPart {
    /// Raw text.
    Text(String),
    /// Formatted text as a child.
    Sub(Box<ColouredString>),
}

/// One end of a byte range.
#[derive(Debug, Clone, Copy)]
pub enum Bound {
    /// The range reaches up to the position and takes its byte in.
    Included(usize),
    /// The range reaches up to the position and leaves its byte out.
    Excluded(usize),
    /// The range reaches to the end of the text on this side.
    Unbounded,
}

impl Bound {
    /// The first position of a range that starts with this bound.
    pub open spec fn start(self) -> int {
        match self {
            Bound::Included(n) => n as int,
            Bound::Excluded(n) => n + 1,
            Bound::Unbounded => 0,
        }
    }

    /// The position behind the last byte of a range that ends with this
    /// bound, in a text of `len` bytes.
    pub open spec fn end(self, len: int) -> int {
        match self {
            Bound::Included(n) => n + 1,
            Bound::Excluded(n) => n as int,
            Bound::Unbounded => len,
        }
    }
}

/// The model of each of `parts`, in order.
pub(crate) closed spec fn parts_model(parts: Seq<ColouredStringPart>) -> Seq<Piece>
    decreases parts,
{
    Seq::new(
        parts.len(),
        |i: int|
            if 0 <= i < parts.len() {
                parts[i].model()
            } else {
                arbitrary()
            },
    )
}

/// The model of a list of fragments that grew by one is the model of the
/// list, grown by the model of the new one.
proof fn lemma_parts_model_push(parts: Seq<ColouredStringPart>, part: ColouredStringPart)
    ensures
        parts_model(parts.push(part)) == parts_model(parts).push(part.model()),
{
    assert(parts_model(parts.push(part)) =~= parts_model(parts).push(part.model()));
}

/// The texts of `strings`, one after the other.
pub(crate) open spec fn joined(strings: Seq<String>) -> Seq<char>
    decreases strings.len(),
{
    if strings.len() == 0 {
        Seq::empty()
    } else {
        joined(strings.drop_last()) + strings.last()@
    }
}

/// Writes the texts of `strings` one after the other.
fn join_all(strings: &Vec<String>) -> (text: String)
    ensures
        text@ == joined(strings@),
{
    let mut text = String::new();
    let mut i: usize = 0;
    while i < strings.len()
        invariant
            i <= strings.len(),
            text@ == joined(strings@.take(i as int)),
        decreases strings.len() - i,
    {
        text.append(strings[i].as_str());
        i = i + 1;
        assert(strings@.take(i as int).drop_last() =~= strings@.take(i - 1));
    }
    assert(strings@.take(i as int) =~= strings@);
    text
}

/// The list of one fragment, with its model, length and text.
fn one_part(only: ColouredStringPart) -> (parts: Vec<ColouredStringPart>)
    ensures
        parts_model(parts@) == seq![only.model()],
        parts_len(parts_model(parts@)) == only.model().len(),
        parts_text(parts_model(parts@)) == only.model().plain_text(),
{
    let mut parts: Vec<ColouredStringPart> = Vec::new();
    proof {
        lemma_parts_model_push(parts@, only);
        lemma_parts_single(only.model());
    }
    parts.push(only);
    assert(parts_model(parts@) =~= seq![only.model()]);
    parts
}

/// The list of two fragments, with its model, length and text.
fn two_parts(first: ColouredStringPart, second: ColouredStringPart) -> (parts: Vec<
    ColouredStringPart,
>)
    ensures
        parts_model(parts@) == seq![first.model(), second.model()],
        parts_len(parts_model(parts@)) == first.model().len() + second.model().len(),
        parts_text(parts_model(parts@)) == first.model().plain_text()
            + second.model().plain_text(),
{
    let mut parts = one_part(first);
    proof {
        lemma_parts_model_push(parts@, second);
        lemma_parts_single(second.model());
        lemma_parts_concat(seq![first.model()], seq![second.model()]);
    }
    parts.push(second);
    assert(parts_model(parts@) =~= seq![first.model()] + seq![second.model()]);
    assert(parts_model(parts@) =~= seq![first.model(), second.model()]);
    parts
}

/// The list of three fragments, with its model, length and text.
fn three_parts(
    first: ColouredStringPart,
    second: ColouredStringPart,
    third: ColouredStringPart,
) -> (parts: Vec<ColouredStringPart>)
    ensures
        parts_model(parts@) == seq![first.model(), second.model(), third.model()],
        parts_len(parts_model(parts@)) == first.model().len() + second.model().len()
            + third.model().len(),
        parts_text(parts_model(parts@)) == first.model().plain_text()
            + second.model().plain_text() + third.model().plain_text(),
{
    let mut parts = two_parts(first, second);
    proof {
        lemma_parts_model_push(parts@, third);
        lemma_parts_single(third.model());
        lemma_parts_concat(seq![first.model(), second.model()], seq![third.model()]);
    }
    parts.push(third);
    assert(parts_model(parts@) =~= seq![first.model(), second.model()] + seq![third.model()]);
    assert(parts_model(parts@) =~= seq![first.model(), second.model(), third.model()]);
    parts
}

impl ColouredStringPart {
    /// The piece that this fragment stands for.
    pub(crate) closed spec fn model(&self) -> Piece
        decreases self,
    {
        match self {
            ColouredStringPart::Text(text) => Piece::Text(text@),
            ColouredStringPart::Sub(sub) => Piece::Sub(sub.model()),
        }
    }

    /// See [`ColouredString::len`].
    fn len(&self) -> (n: usize)
        ensures
            n == self.model().len(),
        decreases self,
    {
        match self {
            ColouredStringPart::Text(text) => text.as_str().as_bytes().len(),
            ColouredStringPart::Sub(sub) => sub.len(),
        }
    }

    /// See [`ColouredString::unformat`].
    fn unformat(&self) -> (text: String)
        ensures
            text@ == self.model().plain_text(),
        decreases self,
    {
        match self {
            ColouredStringPart::Text(text) => text.clone(),
            ColouredStringPart::Sub(sub) => sub.unformat(),
        }
    }

    /// See [`ColouredString::format`].
    fn format_next(&self, prefix: &Vec<String>) -> (text: String)
        ensures
            text@ == self.model().render(joined(prefix@)),
        decreases self,
    {
        match self {
            ColouredStringPart::Text(string) => {
                proof {
                    reveal_strlit("\x1b[0m");
                    assert("\x1b[0m"@ =~= escape_reset());
                }
                let mut text = join_all(prefix);
                text.append(string.as_str());
                text.append("\x1b[0m");
                text
            },
            ColouredStringPart::Sub(sub) => sub.format_next(prefix),
        }
    }

    /// See [`ColouredString::split_2`].
    fn split_2(&self, idx: usize) -> (halves: (ColouredString, ColouredString))
        requires
            text_boundary(self.model().plain_text(), idx as int),
        ensures
            halves.0.model() == self.model().split(idx as int).0,
            halves.1.model() == self.model().split(idx as int).1,
        decreases self,
    {
        match self {
            ColouredStringPart::Text(text) => {
                let (before, after) = text.as_str().split_at(idx);
                proof {
                    encode_utf8_decode_utf8(before@);
                    encode_utf8_decode_utf8(after@);
                }
                (ColouredString::from(before), ColouredString::from(after))
            },
            ColouredStringPart::Sub(sub) => sub.split_2(idx),
        }
    }

    /// A copy of this fragment.
    fn duplicate(&self) -> (copy: ColouredStringPart)
        ensures
            copy.model() == self.model(),
        decreases self,
    {
        match self {
            ColouredStringPart::Text(text) => ColouredStringPart::Text(text.clone()),
            ColouredStringPart::Sub(sub) => ColouredStringPart::Sub(Box::new(sub.duplicate())),
        }
    }
}

impl View for ColouredString {
    type V = TextTree;

    closed spec fn view(&self) -> TextTree {
        self.model()
    }
}

impl ColouredString {
    /// The tree that this value stands for.
    pub(crate) closed spec fn model(&self) -> TextTree
        decreases self,
    {
        TextTree { formatting: self.formatting@, parts: parts_model(self.parts@) }
    }

    /// The text is short enough for its length to be a `usize`.
    #[verifier::type_invariant]
    spec fn fits(&self) -> bool {
        self.model().len() <= usize::MAX
    }

    /// Creates an empty text without formatting.
    pub fn new() -> (string: ColouredString)
        ensures
            string@ == TextTree::empty(),
    {
        let string = ColouredString { parts: Vec::new(), formatting: Vec::new() };
        assert(string.model().parts =~= Seq::empty());
        string
    }

    /// Creates a text without formatting that holds `text`.
    pub fn from(text: &str) -> (string: ColouredString)
        ensures
            string@ == TextTree::plain(text@),
    {
        ColouredString::from_formatting(text, Vec::new())
    }

    /// Creates a text that holds a single fragment.
    pub(crate) fn from_part(part: ColouredStringPart) -> (string: ColouredString)
        requires
            part.model().len() <= usize::MAX,
        ensures
            string.model() == TextTree::group(seq![part.model()]),
            string.model().plain_text() == part.model().plain_text(),
            string.model().len() == part.model().len(),
    {
        ColouredString { parts: one_part(part), formatting: Vec::new() }
    }

    /// Creates a text that holds `text` under `formatting`.
    pub fn from_formatting(text: &str, formatting: Vec<Formatting>) -> (string: ColouredString)
        ensures
            string@ == TextTree::tagged(text@, formatting@),
    {
        // The bytes of a string slice are at most `usize::MAX`; asking for
        // their number tells the verifier so.
        let size: usize = text.as_bytes().len();
        let parts = one_part(ColouredStringPart::Text(String::from_str(text)));
        assert(utf8_len(text@) == size);
        ColouredString { parts, formatting }
    }

    /// Cuts the text in two at the byte position `idx`.
    ///
    /// Parts that end at or before the position go to the left half, parts
    /// that begin at or behind it go to the right half, and the part that
    /// the position falls into is itself cut in two. Both halves carry the
    /// formatting of the whole.
    pub fn split_2(&self, idx: usize) -> (halves: (ColouredString, ColouredString))
        requires
            self@.is_boundary(idx as int),
        ensures
            halves.0@ == self@.split_2(idx as int).0,
            halves.1@ == self@.split_2(idx as int).1,
            halves.0@.formatting == self@.formatting,
            halves.1@.formatting == self@.formatting,
            halves.0@.plain_text() == self@.slice(0, idx as int),
            halves.1@.plain_text() == self@.slice(idx as int, self@.len() as int),
            halves.0@.plain_text() + halves.1@.plain_text() == self@.plain_text(),
            halves.0@.len() == idx,
            halves.1@.len() == self@.len() - idx,
        decreases self,
    {
        let ghost all = parts_model(self.parts@);
        let ghost whole = parts_split(all, idx as int);
        proof {
            use_type_invariant(self);
            lemma_parts_split(all, idx as int);
            lemma_split_2(self.model(), idx as int);
            assert(all.skip(0) =~= all);
        }
        let mut left: Vec<ColouredStringPart> = Vec::new();
        let mut right: Vec<ColouredStringPart> = Vec::new();
        let mut is_right = false;
        let mut rest: usize = idx;
        let mut i: usize = 0;
        // As long as the position has not been reached, `rest` is what is
        // left of it behind the parts that went to the left half, and the
        // halves of the whole are what `left` holds, followed by the halves
        // of the parts to come cut at `rest`. Afterwards all parts go to the
        // right half.
        while i < self.parts.len()
            invariant
                i <= self.parts.len(),
                all == parts_model(self.parts@),
                whole == parts_split(all, idx as int),
                !is_right ==> text_boundary(parts_text(all.skip(i as int)), rest as int),
                !is_right ==> whole.0 == parts_model(left@) + parts_split(
                    all.skip(i as int),
                    rest as int,
                ).0,
                !is_right ==> whole.1 == parts_split(all.skip(i as int), rest as int).1,
                !is_right ==> right.len() == 0,
                is_right ==> whole.0 == parts_model(left@),
                is_right ==> whole.1 == parts_model(right@) + all.skip(i as int),
            decreases self.parts.len() - i,
        {
            let ghost tail = all.skip(i as int);
            let ghost head = tail[0];
            proof {
                assert(tail.drop_first() =~= all.skip(i + 1));
                assert(head == self.parts@[i as int].model());
                lemma_piece_len(head);
                lemma_text_boundary_concat(
                    head.plain_text(),
                    parts_text(tail.drop_first()),
                    rest as int,
                );
            }
            let part = &self.parts[i];
            if !is_right {
                if rest == 0 {
                    is_right = true;
                    let copy = part.duplicate();
                    proof {
                        lemma_parts_model_push(right@, copy);
                    }
                    right.push(copy);
                    assert(parts_model(right@) + all.skip(i + 1) =~= tail);
                } else {
                    let size: usize = part.len();
                    if rest < size {
                        is_right = true;
                        let (part_left, part_right) = part.split_2(rest);
                        let left_piece = ColouredStringPart::Sub(Box::new(part_left));
                        let right_piece = ColouredStringPart::Sub(Box::new(part_right));
                        proof {
                            lemma_parts_model_push(left@, left_piece);
                            lemma_parts_model_push(right@, right_piece);
                        }
                        let ghost before = parts_model(left@);
                        left.push(left_piece);
                        right.push(right_piece);
                        assert(parts_model(left@) =~= before + seq![left_piece.model()]);
                        assert(parts_model(right@) + all.skip(i + 1) =~= seq![
                            right_piece.model(),
                        ] + tail.drop_first());
                    } else {
                        rest = rest - size;
                        let copy = part.duplicate();
                        proof {
                            lemma_parts_model_push(left@, copy);
                        }
                        let ghost before = parts_model(left@);
                        left.push(copy);
                        assert(parts_model(left@) + parts_split(tail.drop_first(), rest as int).0
                            =~= before + (seq![head] + parts_split(
                            tail.drop_first(),
                            rest as int,
                        ).0));
                    }
                }
            } else {
                let copy = part.duplicate();
                proof {
                    lemma_parts_model_push(right@, copy);
                }
                let ghost before = parts_model(right@);
                right.push(copy);
                assert(parts_model(right@) + all.skip(i + 1) =~= before + tail);
            }
            i = i + 1;
        }
        proof {
            assert(all.skip(i as int) =~= Seq::<Piece>::empty());
            assert(whole.0 =~= parts_model(left@));
            assert(whole.1 =~= parts_model(right@));
        }
        let left_string = ColouredString { parts: left, formatting: self.formatting.clone() };
        let right_string = ColouredString { parts: right, formatting: self.formatting.clone() };
        (left_string, right_string)
    }

    /// Returns the length of the text in bytes, as `String::len` counts
    /// it: the sum of the lengths of all parts.
    pub fn len(&self) -> (n: usize)
        ensures
            n == self@.len(),
            n == utf8_len(self@.plain_text()),
        decreases self,
    {
        proof {
            use_type_invariant(self);
            lemma_tree_len(self.model());
        }
        let mut total: usize = 0;
        let mut i: usize = 0;
        assert(parts_model(self.parts@).skip(0) =~= parts_model(self.parts@));
        while i < self.parts.len()
            invariant
                i <= self.parts.len(),
                total + parts_len(parts_model(self.parts@).skip(i as int)) == self.model().len(),
                self.model().len() <= usize::MAX,
            decreases self.parts.len() - i,
        {
            proof {
                let rest = parts_model(self.parts@).skip(i as int);
                assert(rest.drop_first() =~= parts_model(self.parts@).skip(i + 1));
                assert(rest[0] == self.parts@[i as int].model());
            }
            let n: usize = self.parts[i].len();
            total = total + n;
            i = i + 1;
        }
        total
    }

    /// Returns `true` if the text has a length of zero.
    pub fn is_empty(&self) -> (empty: bool)
        ensures
            empty == (self@.len() == 0),
    {
        self.len() == 0
    }

    /// Returns the text of all parts, one after the other, without the
    /// escape sequences of the formatting.
    pub fn unformat(&self) -> (text: String)
        ensures
            text@ == self@.plain_text(),
        decreases self,
    {
        let mut text = String::new();
        let mut i: usize = 0;
        assert(parts_model(self.parts@).skip(0) =~= parts_model(self.parts@));
        while i < self.parts.len()
            invariant
                i <= self.parts.len(),
                text@ + parts_text(parts_model(self.parts@).skip(i as int))
                    == self.model().plain_text(),
            decreases self.parts.len() - i,
        {
            proof {
                let rest = parts_model(self.parts@).skip(i as int);
                assert(rest.drop_first() =~= parts_model(self.parts@).skip(i + 1));
                assert(rest[0] == self.parts@[i as int].model());
            }
            let piece = self.parts[i].unformat();
            text.append(piece.as_str());
            i = i + 1;
        }
        text
    }

    /// Alias of [`ColouredString::unformat`].
    pub fn deformat(&self) -> (text: String)
        ensures
            text@ == self@.plain_text(),
    {
        self.unformat()
    }

    /// Formats the parts below the escape sequences of `prefix`, which are
    /// those of everything above this text.
    fn format_next(&self, prefix: &Vec<String>) -> (text: String)
        ensures
            text@ == self.model().render_below(joined(prefix@)),
        decreases self,
    {
        let mut next_prefix = prefix.clone();
        assert(next_prefix@ =~= prefix@);
        let mut j: usize = 0;
        assert(self.formatting@.take(0) =~= Seq::<Formatting>::empty());
        while j < self.formatting.len()
            invariant
                j <= self.formatting.len(),
                joined(next_prefix@) == joined(prefix@) + escapes(self.formatting@.take(j as int)),
            decreases self.formatting.len() - j,
        {
            let escape = self.formatting[j].to_string();
            let ghost before = next_prefix@;
            next_prefix.push(escape);
            j = j + 1;
            proof {
                assert(next_prefix@.drop_last() =~= before);
                assert(self.formatting@.take(j as int).drop_last() =~= self.formatting@.take(
                    j - 1,
                ));
                assert(joined(next_prefix@) =~= joined(prefix@) + escapes(
                    self.formatting@.take(j as int),
                ));
            }
        }
        assert(self.formatting@.take(j as int) =~= self.formatting@);
        let ghost below = joined(next_prefix@);
        let mut result = String::new();
        let mut i: usize = 0;
        assert(parts_model(self.parts@).skip(0) =~= parts_model(self.parts@));
        while i < self.parts.len()
            invariant
                i <= self.parts.len(),
                below == joined(next_prefix@),
                result@ + parts_render(parts_model(self.parts@).skip(i as int), below)
                    == parts_render(parts_model(self.parts@), below),
            decreases self.parts.len() - i,
        {
            proof {
                let rest = parts_model(self.parts@).skip(i as int);
                assert(rest.drop_first() =~= parts_model(self.parts@).skip(i + 1));
                assert(rest[0] == self.parts@[i as int].model());
            }
            let piece = self.parts[i].format_next(&next_prefix);
            result.append(piece.as_str());
            i = i + 1;
        }
        result
    }

    /// Returns the text with its formatting, as escape sequences that a
    /// terminal understands. Every part is followed by a reset, so that no
    /// part passes its formatting on to the next.
    pub fn format(&self) -> (text: String)
        ensures
            text@ == self@.render(),
    {
        let prefix: Vec<String> = Vec::new();
        self.format_next(&prefix)
    }

    /// Returns what [`ColouredString::format`] returns.
    pub fn to_string(&self) -> (text: String)
        ensures
            text@ == self@.render(),
    {
        self.format()
    }

    /// Returns `true` if the text can be cut at the byte position `idx`:
    /// the position lies in the text and not inside a character.
    pub fn is_boundary(&self, idx: usize) -> (fine: bool)
        ensures
            fine == self@.is_boundary(idx as int),
    {
        proof {
            lemma_parts_len(self.model().parts);
        }
        idx <= self.len() && self.unformat().as_str().is_char_boundary(idx)
    }

    /// Returns `true` if the byte range from `start` to `end` lies in the
    /// text, does not end before it starts, and the text can be cut at both
    /// of its ends.
    pub fn is_range(&self, start: Bound, end: Bound) -> (fine: bool)
        ensures
            fine == self@.is_range(start.start(), end.end(self@.len() as int)),
    {
        let len: usize = self.len();
        let first: usize = match start {
            Bound::Included(n) => n,
            Bound::Excluded(n) => {
                if n >= len {
                    return false;
                }
                n + 1
            },
            Bound::Unbounded => 0,
        };
        let last: usize = match end {
            Bound::Included(n) => {
                if n >= len {
                    return false;
                }
                n + 1
            },
            Bound::Excluded(n) => n,
            Bound::Unbounded => len,
        };
        if first > last || last > len {
            return false;
        }
        proof {
            lemma_tree_len(self.model());
        }
        let text = self.unformat();
        text.as_str().is_char_boundary(first) && text.as_str().is_char_boundary(last)
    }

    /// Puts this text and a fragment side by side in a new text without
    /// formatting of its own.
    fn push_piece(&mut self, piece: ColouredStringPart)
        requires
            old(self)@.len() + piece.model().len() <= usize::MAX,
        ensures
            final(self)@ == TextTree::group(seq![Piece::Sub(old(self)@), piece.model()]),
            final(self)@.plain_text() == old(self)@.plain_text() + piece.model().plain_text(),
            final(self)@.len() == old(self)@.len() + piece.model().len(),
    {
        let mut whole = ColouredString::new();
        core::mem::swap(self, &mut whole);
        let parts = two_parts(ColouredStringPart::Sub(Box::new(whole)), piece);
        *self = ColouredString { parts, formatting: Vec::new() };
    }

    /// Adds `string` to the end of this text. This text as it was and
    /// `string` become the two parts of the new value, which has no
    /// formatting of its own.
    pub fn push(&mut self, string: ColouredString)
        requires
            old(self)@.len() + string@.len() <= usize::MAX,
        ensures
            final(self)@ == old(self)@.concat(string@),
            final(self)@.plain_text() == old(self)@.plain_text() + string@.plain_text(),
            final(self)@.len() == old(self)@.len() + string@.len(),
    {
        self.push_piece(ColouredStringPart::Sub(Box::new(string)));
    }

    /// Puts `formatting` in front of the formatting of this text, so that
    /// it holds for all of the text and comes first in every escape sequence.
    pub fn with_formatting(self, formatting: Vec<Formatting>) -> (string: ColouredString)
        ensures
            string@ == self@.under(formatting@),
            string@.plain_text() == self@.plain_text(),
            string@.len() == self@.len(),
    {
        let mut string = self;
        let mut all = formatting;
        let mut own: Vec<Formatting> = Vec::new();
        proof {
            use_type_invariant(&string);
        }
        core::mem::swap(&mut string.formatting, &mut own);
        all.append(&mut own);
        string.formatting = all;
        string
    }

    /// Puts raw text and `other` side by side in a new text without
    /// formatting of its own. The raw text becomes a part as it is.
    pub fn after_text(text: &str, other: ColouredString) -> (both: ColouredString)
        requires
            utf8_len(text@) + other@.len() <= usize::MAX,
        ensures
            both@ == TextTree::group(seq![Piece::Text(text@), Piece::Sub(other@)]),
            both@.plain_text() == text@ + other@.plain_text(),
            both@.len() == utf8_len(text@) + other@.len(),
    {
        let parts = two_parts(
            ColouredStringPart::Text(String::from_str(text)),
            ColouredStringPart::Sub(Box::new(other)),
        );
        ColouredString { parts, formatting: Vec::new() }
    }

    /// Adds `other` as the last part of this text. It comes under the
    /// formatting of this text; the parts that were there stay as they are.
    pub fn append(&mut self, other: ColouredString)
        requires
            old(self)@.len() + other@.len() <= usize::MAX,
        ensures
            final(self)@ == old(self)@.append(other@),
            final(self)@.plain_text() == old(self)@.plain_text() + other@.plain_text(),
            final(self)@.len() == old(self)@.len() + other@.len(),
    {
        let piece = ColouredStringPart::Sub(Box::new(other));
        let mut parts: Vec<ColouredStringPart> = Vec::new();
        core::mem::swap(&mut self.parts, &mut parts);
        proof {
            lemma_parts_model_push(parts@, piece);
            lemma_parts_single(piece.model());
            lemma_parts_concat(parts_model(parts@), seq![piece.model()]);
            assert(parts_model(parts@).push(piece.model()) =~= parts_model(parts@) + seq![
                piece.model(),
            ]);
        }
        parts.push(piece);
        self.parts = parts;
    }

    /// Puts this text and `other` side by side in a new text without
    /// formatting of its own. Neither loses its formatting.
    pub fn concat(self, other: ColouredString) -> (both: ColouredString)
        requires
            self@.len() + other@.len() <= usize::MAX,
        ensures
            both@ == self@.concat(other@),
            both@.plain_text() == self@.plain_text() + other@.plain_text(),
            both@.len() == self@.len() + other@.len(),
    {
        let mut both = self;
        both.push(other);
        both
    }

    /// Cuts the text in three at the two ends of the byte range from
    /// `start` to `end`.
    pub fn split_3(&self, start: Bound, end: Bound) -> (thirds: (
        ColouredString,
        ColouredString,
        ColouredString,
    ))
        requires
            self@.is_range(start.start(), end.end(self@.len() as int)),
        ensures
            thirds.0@ == self@.split_3(start.start(), end.end(self@.len() as int)).0,
            thirds.1@ == self@.split_3(start.start(), end.end(self@.len() as int)).1,
            thirds.2@ == self@.split_3(start.start(), end.end(self@.len() as int)).2,
            thirds.0@.plain_text() == self@.slice(0, start.start()),
            thirds.1@.plain_text() == self@.slice(start.start(), end.end(self@.len() as int)),
            thirds.2@.plain_text() == self@.slice(
                end.end(self@.len() as int),
                self@.len() as int,
            ),
            thirds.0@.len() == start.start(),
            thirds.1@.len() == end.end(self@.len() as int) - start.start(),
            thirds.2@.len() == self@.len() - end.end(self@.len() as int),
    {
        let len: usize = self.len();
        proof {
            lemma_tree_len(self.model());
            lemma_split_3(self.model(), start.start(), end.end(len as int));
        }
        let first: usize = match start {
            Bound::Included(n) => n,
            Bound::Excluded(n) => n + 1,
            Bound::Unbounded => 0,
        };
        let last: usize = match end {
            Bound::Included(n) => n + 1,
            Bound::Excluded(n) => n,
            Bound::Unbounded => len,
        };
        let (left, right) = self.split_2(first);
        let (center, right) = right.split_2(last - left.len());
        (left, center, right)
    }

    /// Removes all text and all formatting.
    pub fn clear(&mut self)
        ensures
            final(self)@ == TextTree::empty(),
    {
        *self = ColouredString::new();
    }

    /// Returns the text of the byte range from `start` to `end`, with its
    /// formatting. This text stays as it is.
    pub fn get_range(&mut self, start: Bound, end: Bound) -> (range: ColouredString)
        requires
            old(self)@.is_range(start.start(), end.end(old(self)@.len() as int)),
        ensures
            final(self)@ == old(self)@,
            range@ == old(self)@.split_3(start.start(), end.end(old(self)@.len() as int)).1,
            range@.plain_text() == old(self)@.slice(
                start.start(),
                end.end(old(self)@.len() as int),
            ),
            range@.len() == end.end(old(self)@.len() as int) - start.start(),
    {
        let (_, center, _) = self.split_3(start, end);
        center
    }

    /// Removes the text of the byte range from `start` to `end` and
    /// returns it with its formatting. What lay before the range and what lay
    /// behind it become the two parts of this text.
    pub fn remove_range(&mut self, start: Bound, end: Bound) -> (removed: ColouredString)
        requires
            old(self)@.is_range(start.start(), end.end(old(self)@.len() as int)),
        ensures
            final(self)@ == old(self)@.remove_range(
                start.start(),
                end.end(old(self)@.len() as int),
            ),
            removed@ == old(self)@.split_3(start.start(), end.end(old(self)@.len() as int)).1,
            removed@.plain_text() == old(self)@.slice(
                start.start(),
                end.end(old(self)@.len() as int),
            ),
            final(self)@.plain_text() == old(self)@.slice(0, start.start()) + old(self)@.slice(
                end.end(old(self)@.len() as int),
                old(self)@.len() as int,
            ),
            removed@.len() == end.end(old(self)@.len() as int) - start.start(),
            final(self)@.len() == old(self)@.len() - removed@.len(),
    {
        let (left, center, right) = self.split_3(start, end);
        proof {
            use_type_invariant(&*self);
        }
        self.parts = two_parts(
            ColouredStringPart::Sub(Box::new(left)),
            ColouredStringPart::Sub(Box::new(right)),
        );
        center
    }

    /// Puts `replace_with` in place of the text of the byte range from
    /// `start` to `end`, and returns the text that was there with its
    /// formatting. What lay before the range, `replace_with`, and what lay
    /// behind the range become the three parts of this text.
    pub fn replace_range(
        &mut self,
        start: Bound,
        end: Bound,
        replace_with: ColouredString,
    ) -> (replaced: ColouredString)
        requires
            old(self)@.is_range(start.start(), end.end(old(self)@.len() as int)),
            old(self)@.len() + replace_with@.len() <= usize::MAX,
        ensures
            final(self)@ == old(self)@.replace_range(
                start.start(),
                end.end(old(self)@.len() as int),
                replace_with@,
            ),
            replaced@ == old(self)@.split_3(start.start(), end.end(old(self)@.len() as int)).1,
            replaced@.plain_text() == old(self)@.slice(
                start.start(),
                end.end(old(self)@.len() as int),
            ),
            final(self)@.plain_text() == old(self)@.slice(0, start.start())
                + replace_with@.plain_text() + old(self)@.slice(
                end.end(old(self)@.len() as int),
                old(self)@.len() as int,
            ),
            replaced@.len() == end.end(old(self)@.len() as int) - start.start(),
            final(self)@.len() == old(self)@.len() - replaced@.len() + replace_with@.len(),
    {
        let (left, center, right) = self.split_3(start, end);
        proof {
            use_type_invariant(&*self);
        }
        self.parts = three_parts(
            ColouredStringPart::Sub(Box::new(left)),
            ColouredStringPart::Sub(Box::new(replace_with)),
            ColouredStringPart::Sub(Box::new(right)),
        );
        center
    }

    /// Shortens the text to its first `length` bytes. What is kept becomes
    /// the one part of this text.
    pub fn truncate(&mut self, length: usize)
        requires
            old(self)@.is_boundary(length as int),
        ensures
            final(self)@ == old(self)@.truncate(length as int),
            final(self)@.plain_text() == old(self)@.slice(0, length as int),
            final(self)@.len() == length,
    {
        let (left, _) = self.split_2(length);
        *self = ColouredString::from_part(ColouredStringPart::Sub(Box::new(left)));
    }

    /// Puts a fragment in at the byte position `idx`.
    fn insert_piece(&mut self, idx: usize, piece: ColouredStringPart)
        requires
            old(self)@.is_boundary(idx as int),
            old(self)@.len() + piece.model().len() <= usize::MAX,
        ensures
            final(self)@ == TextTree::group(
                seq![
                    Piece::Sub(old(self)@.split_2(idx as int).0),
                    piece.model(),
                    Piece::Sub(old(self)@.split_2(idx as int).1),
                ],
            ),
            final(self)@.plain_text() == old(self)@.slice(0, idx as int)
                + piece.model().plain_text() + old(self)@.slice(
                idx as int,
                old(self)@.len() as int,
            ),
            final(self)@.len() == old(self)@.len() + piece.model().len(),
    {
        let (left, right) = self.split_2(idx);
        let parts = three_parts(
            ColouredStringPart::Sub(Box::new(left)),
            piece,
            ColouredStringPart::Sub(Box::new(right)),
        );
        *self = ColouredString { parts, formatting: Vec::new() };
    }

    /// Puts `string` in at the byte position `index`. What lay before the
    /// position, `string`, and what lay behind the position become the three
    /// parts of this text, which has no formatting of its own any more.
    pub fn insert(&mut self, index: usize, string: ColouredString)
        requires
            old(self)@.is_boundary(index as int),
            old(self)@.len() + string@.len() <= usize::MAX,
        ensures
            final(self)@ == old(self)@.insert(index as int, string@),
            final(self)@.plain_text() == old(self)@.slice(0, index as int) + string@.plain_text()
                + old(self)@.slice(index as int, old(self)@.len() as int),
            final(self)@.len() == old(self)@.len() + string@.len(),
    {
        self.insert_piece(index, ColouredStringPart::Sub(Box::new(string)));
    }

    /// Removes the last byte of the text and returns it as a text with
    /// its formatting.
    pub fn pop(&mut self) -> (last: ColouredString)
        requires
            old(self)@.len() >= 1,
            old(self)@.is_boundary(old(self)@.len() - 1),
        ensures
            final(self)@ == old(self)@.remove_range(
                old(self)@.len() - 1,
                old(self)@.len() as int,
            ),
            last@ == old(self)@.split_3(old(self)@.len() - 1, old(self)@.len() as int).1,
            last@.plain_text() == old(self)@.slice(old(self)@.len() - 1, old(self)@.len() as int),
            final(self)@.plain_text() == old(self)@.slice(0, old(self)@.len() - 1),
            last@.len() == 1,
            final(self)@.len() == old(self)@.len() - 1,
    {
        let len: usize = self.len();
        proof {
            lemma_tree_len(self.model());
            lemma_text_boundary_ends(self.model().plain_text());
        }
        self.remove_range(Bound::Included(len - 1), Bound::Excluded(len))
    }

    /// A copy of this text.
    fn duplicate(&self) -> (copy: ColouredString)
        ensures
            copy.model() == self.model(),
        decreases self,
    {
        proof {
            use_type_invariant(self);
        }
        let mut parts: Vec<ColouredStringPart> = Vec::new();
        let mut i: usize = 0;
        while i < self.parts.len()
            invariant
                i <= self.parts.len(),
                parts.len() == i,
                parts_model(parts@) == parts_model(self.parts@).take(i as int),
            decreases self.parts.len() - i,
        {
            let part = self.parts[i].duplicate();
            proof {
                lemma_parts_model_push(parts@, part);
            }
            parts.push(part);
            i = i + 1;
            assert(parts_model(parts@) =~= parts_model(self.parts@).take(i as int));
        }
        assert(parts_model(self.parts@).take(i as int) =~= parts_model(self.parts@));
        ColouredString { parts, formatting: self.formatting.clone() }
    }
}

impl Clone for ColouredString {
    fn clone(&self) -> (copy: ColouredString)
        ensures
            copy@ == self@,
    {
        self.duplicate()
    }
}

} // verus!
