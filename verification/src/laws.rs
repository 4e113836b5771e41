//! What holds of every text, whatever its shape: how length, flattening,
//! cutting, inserting, removing and truncating go together.

use vstd::prelude::*;
use vstd::utf8::*;
use crate::consts::Formatting;
use crate::lemmas::{
    lemma_encode_concat, lemma_escapes_concat, lemma_parts_concat, lemma_parts_render_concat,
    lemma_parts_render_single, lemma_parts_single, lemma_slice_of_slice, lemma_split_2,
    lemma_split_3, lemma_text_boundary_concat, lemma_text_boundary_ends, lemma_tree_len,
};
use crate::model::{escapes, parts_render, parts_split, text_boundary, utf8_len, Piece, TextTree};

verus! {

/// The length of a text, which is the sum of the lengths of its parts, is
/// the number of bytes of its flattened text.
pub proof fn length_is_additive(tree: TextTree)
    ensures
        tree.len() == utf8_len(tree.plain_text()),
{
    lemma_tree_len(tree);
}

/// A text made of a string alone flattens to that string.
pub proof fn plain_round_trip(text: Seq<char>)
    ensures
        TextTree::plain(text).plain_text() == text,
{
    lemma_parts_single(Piece::Text(text));
}

/// A text made of a string under some formatting flattens to that string.
pub proof fn tagged_round_trip(text: Seq<char>, formatting: Seq<Formatting>)
    ensures
        TextTree::tagged(text, formatting).plain_text() == text,
        TextTree::tagged(text, formatting).len() == utf8_len(text),
{
    lemma_parts_single(Piece::Text(text));
}

/// Two texts put side by side hold both texts and look like the one
/// followed by the other: neither changes the formatting of the other.
pub proof fn concat_keeps_both(a: TextTree, b: TextTree)
    ensures
        a.concat(b).plain_text() == a.plain_text() + b.plain_text(),
        a.concat(b).len() == a.len() + b.len(),
        a.concat(b).render() == a.render() + b.render(),
{
    let first = Piece::Sub(a);
    let second = Piece::Sub(b);
    let none = Seq::<char>::empty();
    lemma_parts_single(first);
    lemma_parts_single(second);
    lemma_parts_concat(seq![first], seq![second]);
    assert(seq![first] + seq![second] =~= seq![first, second]);
    assert(escapes(Seq::empty()) =~= none);
    assert(none + none =~= none);
    lemma_parts_render_single(first, none);
    lemma_parts_render_single(second, none);
    lemma_parts_render_concat(seq![first], seq![second], none);
}

/// A text that another was added to holds both texts, and looks like
/// itself followed by the other below its formatting.
pub proof fn append_puts_under(a: TextTree, b: TextTree)
    ensures
        a.append(b).plain_text() == a.plain_text() + b.plain_text(),
        a.append(b).len() == a.len() + b.len(),
        a.append(b).render() == a.render() + b.render_below(escapes(a.formatting)),
{
    let last = Piece::Sub(b);
    let below = Seq::<char>::empty() + escapes(a.formatting);
    lemma_parts_single(last);
    lemma_parts_concat(a.parts, seq![last]);
    assert(a.parts.push(last) =~= a.parts + seq![last]);
    assert(below =~= escapes(a.formatting));
    lemma_parts_render_single(last, below);
    lemma_parts_render_concat(a.parts, seq![last], below);
}

/// A text under more formatting holds the same text, and looks like
/// itself below the escape sequences of that formatting.
pub proof fn under_renders_below(tree: TextTree, formatting: Seq<Formatting>)
    ensures
        tree.under(formatting).plain_text() == tree.plain_text(),
        tree.under(formatting).len() == tree.len(),
        tree.under(formatting).render() == tree.render_below(escapes(formatting)),
{
    lemma_escapes_concat(formatting, tree.formatting);
    assert(Seq::<char>::empty() + escapes(formatting + tree.formatting) =~= escapes(formatting)
        + escapes(tree.formatting));
}

/// A text made of a string under some formatting looks like the escape
/// sequences of the formatting, the string, and a reset.
pub proof fn tagged_renders_escapes(text: Seq<char>, formatting: Seq<Formatting>)
    ensures
        TextTree::tagged(text, formatting).render() == escapes(formatting) + text
            + crate::consts::escape_reset(),
{
    let below = Seq::<char>::empty() + escapes(formatting);
    assert(below =~= escapes(formatting));
    lemma_parts_render_single(Piece::Text(text), below);
}

/// A text of ASCII characters takes one byte for each character, and can
/// be cut at every position from its start to its end.
pub proof fn ascii_text_can_be_cut_anywhere(text: Seq<char>, at: int)
    requires
        is_ascii_chars(text),
        0 <= at <= text.len(),
    ensures
        utf8_len(text) == text.len(),
        text_boundary(text, at),
{
    let bytes = encode_utf8(text);
    is_ascii_chars_encode_utf8(text);
    encode_utf8_valid_utf8(text);
    is_char_boundary_start_end_of_seq(bytes);
    if at < bytes.len() {
        is_char_boundary_iff_not_is_continuation_byte(bytes, at);
        assert(bytes[at] == text[at] as u8);
        is_ascii_chars_nat_bound(text);
        assert((text[at] as nat) < 128);
    }
}

/// The two halves of a text that was cut in two hold, side by side, the
/// flattened text of the whole.
pub proof fn split_is_inverse(tree: TextTree, at: int)
    requires
        tree.is_boundary(at),
    ensures
        tree.split_2(at).0.plain_text() + tree.split_2(at).1.plain_text() == tree.plain_text(),
        tree.split_2(at).0.len() == at,
{
    lemma_split_2(tree, at);
}

/// A text into which a value was put holds the text before the position,
/// the text of the value, and the text behind the position. It can be cut at
/// both ends of the value.
pub proof fn insert_puts_between(tree: TextTree, at: int, value: TextTree)
    requires
        tree.is_boundary(at),
    ensures
        tree.insert(at, value).plain_text() == tree.slice(0, at) + value.plain_text() + tree.slice(
            at,
            tree.len() as int,
        ),
        tree.insert(at, value).len() == tree.len() + value.len(),
        tree.insert(at, value).is_range(at, at + value.len()),
{
    let halves = tree.split_2(at);
    let before = Piece::Sub(halves.0);
    let middle = Piece::Sub(value);
    let after = Piece::Sub(halves.1);
    lemma_split_2(tree, at);
    lemma_tree_len(halves.0);
    lemma_tree_len(value);
    lemma_parts_single(before);
    lemma_parts_single(middle);
    lemma_parts_single(after);
    lemma_parts_concat(seq![before], seq![middle]);
    lemma_parts_concat(seq![before] + seq![middle], seq![after]);
    assert(seq![before] + seq![middle] + seq![after] =~= seq![before, middle, after]);
    let left = halves.0.plain_text();
    let mid = value.plain_text();
    let right = halves.1.plain_text();
    assert(left + mid + right =~= left + (mid + right));
    lemma_text_boundary_ends(left);
    lemma_text_boundary_ends(left + mid);
    lemma_text_boundary_concat(left, mid, utf8_len(left) as int);
    lemma_text_boundary_concat(left, mid + right, at);
    lemma_text_boundary_concat(left + mid, right, at + value.len());
}

/// Removing what was just put in gives back the flattened text: after a
/// value was put in at a position, removing the range from that position
/// that is as long as the value leaves the text as it was, and takes out
/// the text of the value.
pub proof fn insert_then_remove(tree: TextTree, at: int, value: TextTree)
    requires
        tree.is_boundary(at),
    ensures
        tree.insert(at, value).is_range(at, at + value.len()),
        tree.insert(at, value).remove_range(at, at + value.len()).plain_text()
            == tree.plain_text(),
        tree.insert(at, value).split_3(at, at + value.len()).1.plain_text() == value.plain_text(),
{
    let grown = tree.insert(at, value);
    let end = at + value.len();
    let left = tree.slice(0, at);
    let mid = value.plain_text();
    let right = tree.slice(at, tree.len() as int);
    insert_puts_between(tree, at, value);
    lemma_split_2(tree, at);
    lemma_split_3(grown, at, end);
    lemma_tree_len(tree);
    lemma_tree_len(value);
    lemma_tree_len(grown);
    lemma_tree_len(tree.split_2(at).0);
    // The encoding of the grown text is the three encodings in a row, so
    // its slices are the three texts.
    lemma_encode_concat(left + mid, right);
    lemma_encode_concat(left, mid);
    let bytes = encode_utf8(grown.plain_text());
    assert(bytes.subrange(0, at) =~= encode_utf8(left));
    assert(bytes.subrange(at, end) =~= encode_utf8(mid));
    assert(bytes.subrange(end, grown.len() as int) =~= encode_utf8(right));
    encode_utf8_decode_utf8(left);
    encode_utf8_decode_utf8(mid);
    encode_utf8_decode_utf8(right);
    let thirds = grown.split_3(at, end);
    lemma_parts_single(Piece::Sub(thirds.0));
    lemma_parts_single(Piece::Sub(thirds.2));
    lemma_parts_concat(seq![Piece::Sub(thirds.0)], seq![Piece::Sub(thirds.2)]);
    assert(seq![Piece::Sub(thirds.0)] + seq![Piece::Sub(thirds.2)] =~= seq![
        Piece::Sub(thirds.0),
        Piece::Sub(thirds.2),
    ]);
}

/// A text that was cut off at a position holds the text before that
/// position, is as long as the position says, and can be cut there again.
pub proof fn truncate_keeps_start(tree: TextTree, len: int)
    requires
        tree.is_boundary(len),
    ensures
        tree.truncate(len).plain_text() == tree.slice(0, len),
        tree.truncate(len).len() == len,
        tree.truncate(len).is_boundary(len),
{
    let kept = tree.split_2(len).0;
    lemma_split_2(tree, len);
    lemma_parts_single(Piece::Sub(kept));
    lemma_tree_len(tree.truncate(len));
    lemma_text_boundary_ends(tree.truncate(len).plain_text());
}

/// Cutting a text off at the same position twice is the same as doing it
/// once: the second cut changes neither the flattened text, nor the length,
/// nor what the text looks like on a terminal. Behind a position other than
/// the start it only wraps the text once more.
pub proof fn truncate_is_idempotent(tree: TextTree, len: int)
    requires
        tree.is_boundary(len),
    ensures
        tree.truncate(len).is_boundary(len),
        tree.truncate(len).truncate(len).plain_text() == tree.truncate(len).plain_text(),
        tree.truncate(len).truncate(len).len() == tree.truncate(len).len(),
        tree.truncate(len).truncate(len).render() == tree.truncate(len).render(),
        len > 0 ==> tree.truncate(len).truncate(len) == TextTree::group(
            seq![Piece::Sub(tree.truncate(len))],
        ),
{
    let once = tree.truncate(len);
    let twice = once.truncate(len);
    let kept = tree.split_2(len).0;
    let text = tree.plain_text();
    let none = Seq::<char>::empty();
    truncate_keeps_start(tree, len);
    truncate_keeps_start(once, len);
    lemma_tree_len(tree);
    lemma_text_boundary_ends(text);
    lemma_slice_of_slice(text, 0, len, 0, len);
    // What the text looks like.
    assert(escapes(Seq::empty()) =~= none);
    assert(none + none =~= none);
    lemma_parts_render_single(Piece::Sub(kept), none);
    lemma_parts_render_single(Piece::Sub(once.split_2(len).0), none);
    if len <= 0 {
        assert(parts_split(tree.parts, len).0 =~= Seq::<Piece>::empty());
        assert(parts_split(once.parts, len).0 =~= Seq::<Piece>::empty());
        assert(kept.parts =~= Seq::<Piece>::empty());
        assert(parts_render(kept.parts, none + escapes(kept.formatting)) =~= none);
        assert(twice.render() =~= none);
        assert(once.render() =~= none);
    } else {
        lemma_split_2(tree, len);
        let rest = parts_split(once.parts.drop_first(), len - once.parts[0].len());
        assert(once.parts.drop_first() =~= Seq::<Piece>::empty());
        assert(parts_split(once.parts, len).0 =~= seq![Piece::Sub(kept)] + rest.0);
        assert(parts_split(once.parts, len).0 =~= once.parts);
        assert(once.split_2(len).0 == once);
        assert(Piece::Sub(once).render(none) == parts_render(once.parts, none + none));
    }
}

} // verus!
