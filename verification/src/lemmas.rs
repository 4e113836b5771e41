//! Facts about UTF-8 positions and about cutting a tree, on which the
//! proofs of the operations rest.

use vstd::prelude::*;
use vstd::utf8::*;
use crate::consts::Formatting;
use crate::model::{
    escapes, parts_len, parts_render, parts_split, parts_text, text_boundary, text_slice,
    utf8_len, Piece, TextTree,
};

verus! {

/// The encoding of two texts side by side is the two encodings side by
/// side.
pub proof fn lemma_encode_concat(a: Seq<char>, b: Seq<char>)
    ensures
        encode_utf8(a + b) == encode_utf8(a) + encode_utf8(b),
    decreases a.len(),
{
    if a.len() == 0 {
        assert(a + b =~= b);
        assert(encode_utf8(a) + encode_utf8(b) =~= encode_utf8(b));
    } else {
        lemma_encode_concat(a.drop_first(), b);
        assert((a + b).drop_first() =~= a.drop_first() + b);
        assert((a + b)[0] == a[0]);
        assert(encode_utf8(a + b) =~= encode_utf8(a) + encode_utf8(b));
    }
}

/// A position in two encodings side by side lies between two characters
/// exactly if it does so in the encoding that it falls into. The position
/// where the two meet belongs to both.
pub proof fn lemma_char_boundary_concat(b1: Seq<u8>, b2: Seq<u8>, at: int)
    requires
        valid_utf8(b1),
        valid_utf8(b2),
        0 <= at <= b1.len() + b2.len(),
    ensures
        at <= b1.len() ==> is_char_boundary(b1 + b2, at) == is_char_boundary(b1, at),
        at >= b1.len() ==> is_char_boundary(b1 + b2, at) == is_char_boundary(b2, at - b1.len()),
{
    let both = b1 + b2;
    valid_utf8_concat(b1, b2);
    is_char_boundary_start_end_of_seq(both);
    is_char_boundary_start_end_of_seq(b1);
    is_char_boundary_start_end_of_seq(b2);
    if at < both.len() {
        is_char_boundary_iff_not_is_continuation_byte(both, at);
    }
    if at < b1.len() {
        is_char_boundary_iff_not_is_continuation_byte(b1, at);
    }
    if at >= b1.len() && at - b1.len() < b2.len() {
        is_char_boundary_iff_not_is_continuation_byte(b2, at - b1.len());
    }
    if b2.len() > 0 {
        is_char_boundary_iff_not_is_continuation_byte(b2, 0);
    }
}

/// Where a position of two texts side by side can be cut: in the first
/// text up to its end, in the second from its start.
pub proof fn lemma_text_boundary_concat(a: Seq<char>, b: Seq<char>, at: int)
    ensures
        utf8_len(a + b) == utf8_len(a) + utf8_len(b),
        at <= utf8_len(a) ==> text_boundary(a + b, at) == text_boundary(a, at),
        at >= utf8_len(a) ==> text_boundary(a + b, at) == text_boundary(b, at - utf8_len(a)),
{
    lemma_encode_concat(a, b);
    encode_utf8_valid_utf8(a);
    encode_utf8_valid_utf8(b);
    if 0 <= at <= utf8_len(a) + utf8_len(b) {
        lemma_char_boundary_concat(encode_utf8(a), encode_utf8(b), at);
    }
}

/// Every text can be cut at its start and at its end.
pub proof fn lemma_text_boundary_ends(text: Seq<char>)
    ensures
        text_boundary(text, 0),
        text_boundary(text, utf8_len(text) as int),
{
    encode_utf8_valid_utf8(text);
    is_char_boundary_start_end_of_seq(encode_utf8(text));
}

/// The encoding of a slice between two positions at which the text can
/// be cut is that range of the encoding of the text.
pub proof fn lemma_slice_encoding(text: Seq<char>, start: int, end: int)
    requires
        text_boundary(text, start),
        text_boundary(text, end),
        start <= end,
    ensures
        encode_utf8(text_slice(text, start, end)) == encode_utf8(text).subrange(start, end),
        utf8_len(text_slice(text, start, end)) == end - start,
{
    let bytes = encode_utf8(text);
    let head = bytes.subrange(0, start);
    let tail = bytes.subrange(start, bytes.len() as int);
    encode_utf8_valid_utf8(text);
    valid_utf8_split(bytes, start);
    assert(head + tail =~= bytes);
    lemma_char_boundary_concat(head, tail, end);
    valid_utf8_split(tail, end - start);
    assert(tail.subrange(0, end - start) =~= bytes.subrange(start, end));
    decode_utf8_encode_utf8(bytes.subrange(start, end));
}

/// The slice from the start of a text to its end is the text.
pub proof fn lemma_slice_whole(text: Seq<char>)
    ensures
        text_slice(text, 0, utf8_len(text) as int) == text,
{
    let bytes = encode_utf8(text);
    assert(bytes.subrange(0, bytes.len() as int) =~= bytes);
    encode_utf8_decode_utf8(text);
}

/// Two slices that meet at a position at which the text can be cut make up
/// the slice from the start of the first to the end of the second.
pub proof fn lemma_slice_concat(text: Seq<char>, start: int, mid: int, end: int)
    requires
        text_boundary(text, start),
        text_boundary(text, mid),
        text_boundary(text, end),
        start <= mid <= end,
    ensures
        text_slice(text, start, mid) + text_slice(text, mid, end) == text_slice(text, start, end),
{
    lemma_slice_encoding(text, start, mid);
    lemma_slice_encoding(text, mid, end);
    lemma_slice_encoding(text, start, end);
    let bytes = encode_utf8(text);
    let left = text_slice(text, start, mid);
    let right = text_slice(text, mid, end);
    lemma_encode_concat(left, right);
    assert(bytes.subrange(start, mid) + bytes.subrange(mid, end) =~= bytes.subrange(start, end));
    encode_utf8_decode_utf8(left + right);
}

/// A slice of a slice is a slice of the text.
pub proof fn lemma_slice_of_slice(text: Seq<char>, start: int, end: int, from: int, to: int)
    requires
        text_boundary(text, start),
        text_boundary(text, end),
        start <= end,
        0 <= from <= to <= end - start,
    ensures
        text_slice(text_slice(text, start, end), from, to) == text_slice(
            text,
            start + from,
            start + to,
        ),
        text_boundary(text_slice(text, start, end), from) == text_boundary(text, start + from),
{
    lemma_slice_encoding(text, start, end);
    let bytes = encode_utf8(text);
    assert(bytes.subrange(start, end).subrange(from, to) =~= bytes.subrange(
        start + from,
        start + to,
    ));
    let head = bytes.subrange(0, start);
    let mid = bytes.subrange(start, end);
    let tail = bytes.subrange(end, bytes.len() as int);
    encode_utf8_valid_utf8(text);
    encode_utf8_valid_utf8(text_slice(text, start, end));
    valid_utf8_split(bytes, start);
    valid_utf8_split(bytes, end);
    valid_utf8_concat(head, mid);
    assert(head + mid + tail =~= bytes);
    lemma_char_boundary_concat(head + mid, tail, start + from);
    lemma_char_boundary_concat(head, mid, start + from);
}

/// The escape sequences of two lists of directives side by side are those
/// of the one followed by those of the other.
pub proof fn lemma_escapes_concat(a: Seq<Formatting>, b: Seq<Formatting>)
    ensures
        escapes(a + b) == escapes(a) + escapes(b),
    decreases b.len(),
{
    if b.len() == 0 {
        assert(a + b =~= a);
        assert(escapes(a) + escapes(b) =~= escapes(a));
    } else {
        lemma_escapes_concat(a, b.drop_last());
        assert((a + b).drop_last() =~= a + b.drop_last());
        assert((a + b).last() == b.last());
        assert(escapes(a + b) =~= escapes(a) + escapes(b));
    }
}

/// A single part has the length and the text of its piece.
pub proof fn lemma_parts_single(piece: Piece)
    ensures
        parts_len(seq![piece]) == piece.len(),
        parts_text(seq![piece]) == piece.plain_text(),
{
    let single = seq![piece];
    assert(single.drop_first() =~= Seq::<Piece>::empty());
    assert(parts_len(single) == piece.len() + parts_len(single.drop_first()));
    assert(parts_text(single) =~= piece.plain_text() + parts_text(single.drop_first()));
}

/// A single part looks like its piece.
pub proof fn lemma_parts_render_single(piece: Piece, prefix: Seq<char>)
    ensures
        parts_render(seq![piece], prefix) == piece.render(prefix),
{
    let single = seq![piece];
    assert(single.drop_first() =~= Seq::<Piece>::empty());
    assert(parts_render(single, prefix) =~= piece.render(prefix) + parts_render(
        single.drop_first(),
        prefix,
    ));
}

/// Two lists of parts side by side: lengths add up and texts stand side by
/// side.
pub proof fn lemma_parts_concat(a: Seq<Piece>, b: Seq<Piece>)
    ensures
        parts_len(a + b) == parts_len(a) + parts_len(b),
        parts_text(a + b) == parts_text(a) + parts_text(b),
    decreases a.len(),
{
    if a.len() == 0 {
        assert(a + b =~= b);
        assert(parts_text(a + b) =~= parts_text(a) + parts_text(b));
    } else {
        lemma_parts_concat(a.drop_first(), b);
        assert((a + b).drop_first() =~= a.drop_first() + b);
        assert((a + b)[0] == a[0]);
        assert(parts_text(a + b) =~= parts_text(a) + parts_text(b));
    }
}

/// Two lists of parts side by side look like the one followed by the
/// other.
pub proof fn lemma_parts_render_concat(a: Seq<Piece>, b: Seq<Piece>, prefix: Seq<char>)
    ensures
        parts_render(a + b, prefix) == parts_render(a, prefix) + parts_render(b, prefix),
    decreases a.len(),
{
    if a.len() == 0 {
        assert(a + b =~= b);
        assert(parts_render(b, prefix) =~= parts_render(a, prefix) + parts_render(b, prefix));
    } else {
        lemma_parts_render_concat(a.drop_first(), b, prefix);
        assert((a + b).drop_first() =~= a.drop_first() + b);
        assert((a + b)[0] == a[0]);
        assert(parts_render(a + b, prefix) =~= parts_render(a, prefix) + parts_render(b, prefix));
    }
}

/// The summed length of parts is the length of their text.
pub proof fn lemma_parts_len(parts: Seq<Piece>)
    ensures
        parts_len(parts) == utf8_len(parts_text(parts)),
    decreases parts,
{
    if parts.len() > 0 {
        lemma_piece_len(parts[0]);
        lemma_parts_len(parts.drop_first());
        lemma_encode_concat(parts[0].plain_text(), parts_text(parts.drop_first()));
    }
}

/// The length of a piece is the length of its text.
pub proof fn lemma_piece_len(piece: Piece)
    ensures
        piece.len() == utf8_len(piece.plain_text()),
    decreases piece,
{
    match piece {
        Piece::Text(_) => {},
        Piece::Sub(tree) => {
            lemma_parts_len(tree.parts);
        },
    }
}

/// Parts cut between two characters: the two sides hold the text of the
/// whole, and the left side is as long as the position says.
pub proof fn lemma_parts_split(parts: Seq<Piece>, at: int)
    requires
        text_boundary(parts_text(parts), at),
    ensures
        parts_text(parts_split(parts, at).0) + parts_text(parts_split(parts, at).1) == parts_text(
            parts,
        ),
        parts_len(parts_split(parts, at).0) == at,
        parts_len(parts_split(parts, at).1) == parts_len(parts) - at,
    decreases parts,
{
    let halves = parts_split(parts, at);
    lemma_parts_len(parts);
    if parts.len() == 0 {
    } else if at <= 0 {
        assert(parts_text(halves.0) + parts_text(halves.1) =~= parts_text(parts));
    } else {
        let head = parts[0];
        let tail = parts.drop_first();
        lemma_piece_len(head);
        lemma_parts_len(tail);
        lemma_text_boundary_concat(head.plain_text(), parts_text(tail), at);
        if at < head.len() {
            lemma_piece_split(head, at);
            let cut = head.split(at);
            lemma_parts_single(Piece::Sub(cut.0));
            lemma_parts_single(Piece::Sub(cut.1));
            lemma_parts_concat(seq![Piece::Sub(cut.1)], tail);
            assert(parts_text(halves.0) + parts_text(halves.1) =~= parts_text(parts));
        } else {
            let rest = parts_split(tail, at - head.len());
            lemma_parts_split(tail, at - head.len());
            lemma_parts_single(head);
            lemma_parts_concat(seq![head], rest.0);
            assert(parts_text(halves.0) + parts_text(halves.1) =~= parts_text(parts));
        }
    }
}

/// A piece cut between two characters: the two halves hold the text of
/// the whole, and the left half is as long as the position says.
pub proof fn lemma_piece_split(piece: Piece, at: int)
    requires
        text_boundary(piece.plain_text(), at),
    ensures
        piece.split(at).0.plain_text() + piece.split(at).1.plain_text() == piece.plain_text(),
        piece.split(at).0.len() == at,
        piece.split(at).1.len() == piece.len() - at,
    decreases piece,
{
    match piece {
        Piece::Text(text) => {
            let end = utf8_len(text) as int;
            lemma_text_boundary_ends(text);
            lemma_slice_encoding(text, 0, at);
            lemma_slice_encoding(text, at, end);
            lemma_slice_concat(text, 0, at, end);
            lemma_slice_whole(text);
            lemma_parts_single(Piece::Text(text_slice(text, 0, at)));
            lemma_parts_single(Piece::Text(text_slice(text, at, end)));
        },
        Piece::Sub(tree) => {
            lemma_parts_split(tree.parts, at);
        },
    }
}

/// The length of a tree is the length of its text.
pub proof fn lemma_tree_len(tree: TextTree)
    ensures
        tree.len() == utf8_len(tree.plain_text()),
        tree.len() == tree.bytes().len(),
{
    lemma_parts_len(tree.parts);
}

/// A tree cut in two: the left half holds the text before the position,
/// the right half the text from the position on.
pub proof fn lemma_split_2(tree: TextTree, at: int)
    requires
        tree.is_boundary(at),
    ensures
        tree.split_2(at).0.plain_text() == tree.slice(0, at),
        tree.split_2(at).1.plain_text() == tree.slice(at, tree.len() as int),
        tree.split_2(at).0.plain_text() + tree.split_2(at).1.plain_text() == tree.plain_text(),
        tree.split_2(at).0.len() == at,
        tree.split_2(at).1.len() == tree.len() - at,
{
    let text = tree.plain_text();
    let halves = tree.split_2(at);
    let end = utf8_len(text) as int;
    lemma_parts_split(tree.parts, at);
    lemma_tree_len(tree);
    lemma_tree_len(halves.0);
    lemma_tree_len(halves.1);
    lemma_encode_concat(halves.0.plain_text(), halves.1.plain_text());
    assert(encode_utf8(text).subrange(0, at) =~= encode_utf8(halves.0.plain_text()));
    assert(encode_utf8(text).subrange(at, end) =~= encode_utf8(halves.1.plain_text()));
    encode_utf8_decode_utf8(halves.0.plain_text());
    encode_utf8_decode_utf8(halves.1.plain_text());
}

/// A tree cut in three: the parts hold the text before the range, the
/// text of the range and the text behind it. The right half of the first cut
/// can be cut where the range ends.
pub proof fn lemma_split_3(tree: TextTree, start: int, end: int)
    requires
        tree.is_range(start, end),
    ensures
        tree.split_2(start).1.is_boundary(end - start),
        tree.split_3(start, end).0.plain_text() == tree.slice(0, start),
        tree.split_3(start, end).1.plain_text() == tree.slice(start, end),
        tree.split_3(start, end).2.plain_text() == tree.slice(end, tree.len() as int),
        tree.split_3(start, end).0.len() == start,
        tree.split_3(start, end).1.len() == end - start,
        tree.split_3(start, end).2.len() == tree.len() - end,
{
    let text = tree.plain_text();
    let len = tree.len() as int;
    let outer = tree.split_2(start);
    lemma_tree_len(tree);
    lemma_split_2(tree, start);
    lemma_text_boundary_ends(text);
    lemma_slice_of_slice(text, start, len, end - start, len - start);
    lemma_slice_of_slice(text, start, len, 0, end - start);
    lemma_split_2(outer.1, end - start);
}

} // verus!
