//! Selecting text with the mouse.
//!
//! A block of text is drawn in pieces, and the selection is folded into them: the text is
//! cut where a style or the selection begins or ends, and each piece is either selected or
//! not. A drag starts where the button goes down; a press and release on one spot of a
//! link follows it instead.

use crate::cuts::{
    insert_point, lemma_points_are_unique, lemma_points_in_order, points_up_to, strictly_increasing,
};
use crate::text::{
    byte_len, characters, encoded_len, lemma_cut, lemma_encode_joined, lemma_encode_one,
    lemma_ends_are_boundaries, lemma_joint_is_boundary, on_boundary, slice, text_before,
    text_between, text_from, utf8_len,
};
use crate::words::{is_whitespace, whitespace};
use std::ops::Range;
use vstd::prelude::*;
use vstd::utf8::{encode_utf8, encode_utf8_decode_utf8};

verus! {

// -- the range a drag covers ---------------------------------------------------

/// The byte range a selection covers, from its two ends in either order.
pub fn anchored_range(anchor: usize, head: usize) -> (range: Range<usize>)
    ensures
        range.start == if head < anchor {
            head
        } else {
            anchor
        },
        range.end == if head < anchor {
            anchor
        } else {
            head
        },
{
    if head < anchor {
        head..anchor
    } else {
        anchor..head
    }
}

// -- words -----------------------------------------------------------------------

/// The run of characters that are not white space at the end of `text`.
pub open spec fn word_tail(text: Seq<char>) -> Seq<char>
    decreases text.len(),
{
    if text.len() == 0 || whitespace(text.last()) {
        seq![]
    } else {
        word_tail(text.drop_last()).push(text.last())
    }
}

/// The run of characters that are not white space at the start of `text`.
pub open spec fn word_head(text: Seq<char>) -> Seq<char>
    decreases text.len(),
{
    if text.len() == 0 || whitespace(text[0]) {
        seq![]
    } else {
        seq![text[0]] + word_head(text.drop_first())
    }
}

/// Where the word around byte offset `at` begins.
pub open spec fn word_start(text: Seq<char>, at: int) -> int {
    at - utf8_len(word_tail(text_before(text, at)))
}

/// Where the word around byte offset `at` ends.
pub open spec fn word_end(text: Seq<char>, at: int) -> int {
    at + utf8_len(word_head(text_from(text, at)))
}

/// An offset into `text`, or the end of it where the offset lies past it.
pub open spec fn at_most_len(text: Seq<char>, at: int) -> int {
    if at <= utf8_len(text) {
        at
    } else {
        utf8_len(text) as int
    }
}

proof fn lemma_pushed_len(text: Seq<char>, character: char)
    ensures
        utf8_len(text.push(character)) == utf8_len(text) + utf8_len(seq![character]),
        utf8_len(seq![character] + text) == utf8_len(text) + utf8_len(seq![character]),
{
    assert(text.push(character) =~= text + seq![character]);
    lemma_encode_joined(text, seq![character]);
    lemma_encode_joined(seq![character], text);
}

/// The characters of `text` fall into what stands before its last word and that word.
proof fn lemma_tail_is_suffix(text: Seq<char>)
    ensures
        word_tail(text).len() <= text.len(),
        text == text.take(text.len() - word_tail(text).len()) + word_tail(text),
        forall|i: int| 0 <= i < word_tail(text).len() ==> !whitespace(#[trigger] word_tail(text)[i]),
        word_tail(text).len() < text.len() ==> whitespace(
            text[text.len() - word_tail(text).len() - 1],
        ),
    decreases text.len(),
{
    if text.len() > 0 && !whitespace(text.last()) {
        let rest = text.drop_last();
        lemma_tail_is_suffix(rest);
        let tail = word_tail(text);
        let start = text.len() - tail.len();
        assert(start == rest.len() - word_tail(rest).len());
        assert forall|i: int| 0 <= i < text.len() implies #[trigger] text[i] == (text.take(start)
            + tail)[i] by {
            if i < text.len() - 1 {
                assert(rest[i] == (rest.take(start) + word_tail(rest))[i]);
            }
        }
        assert(text =~= text.take(start) + tail);
    } else {
        assert(text =~= text.take(text.len() as int) + word_tail(text));
    }
}

/// The characters of `text` fall into its first word and what follows.
proof fn lemma_head_is_prefix(text: Seq<char>)
    ensures
        word_head(text).len() <= text.len(),
        text == word_head(text) + text.skip(word_head(text).len() as int),
        forall|i: int| 0 <= i < word_head(text).len() ==> !whitespace(#[trigger] word_head(text)[i]),
        word_head(text).len() < text.len() ==> whitespace(text[word_head(text).len() as int]),
    decreases text.len(),
{
    if text.len() > 0 && !whitespace(text[0]) {
        let rest = text.drop_first();
        lemma_head_is_prefix(rest);
        let head = word_head(text);
        assert forall|i: int| 0 <= i < text.len() implies #[trigger] text[i] == (head + text.skip(
            head.len() as int,
        ))[i] by {
            if i > 0 {
                assert(rest[i - 1] == (word_head(rest) + rest.skip(word_head(rest).len() as int))[i
                    - 1]);
            }
        }
        assert(text =~= head + text.skip(head.len() as int));
    } else {
        assert(text =~= word_head(text) + text.skip(0));
    }
}

/// A word is a run of characters that are not white space, and it is the whole run: what
/// stands on either side of it is white space or an end of the text.
pub proof fn a_word_holds_no_white_space(text: Seq<char>, at: int)
    requires
        on_boundary(text, at),
    ensures
        ({
            let (start, end) = (word_start(text, at), word_end(text, at));
            let word = text_between(text, start, end);
            &&& 0 <= start <= at <= end <= utf8_len(text)
            &&& on_boundary(text, start)
            &&& on_boundary(text, end)
            &&& forall|i: int| 0 <= i < word.len() ==> !whitespace(#[trigger] word[i])
            &&& start > 0 ==> whitespace(text_before(text, start).last())
            &&& end < utf8_len(text) ==> whitespace(text_from(text, end)[0])
        }),
{
    lemma_cut(text, at);
    let before = text_before(text, at);
    let after = text_from(text, at);
    let tail = word_tail(before);
    let head = word_head(after);
    lemma_tail_is_suffix(before);
    lemma_head_is_prefix(after);
    let left = before.take(before.len() - tail.len());
    let right = after.skip(head.len() as int);
    let (start, end) = (word_start(text, at), word_end(text, at));
    lemma_joint_is_boundary(left, tail);
    lemma_joint_is_boundary(head, right);
    lemma_joint_is_boundary(before, after);
    assert(text =~= left + (tail + after));
    lemma_joint_is_boundary(left, tail + after);
    assert(text =~= (before + head) + right);
    lemma_joint_is_boundary(before + head, right);
    lemma_joint_is_boundary(before, head);
    assert(before + head =~= left + (tail + head));
    lemma_joint_is_boundary(left, tail + head);
    assert(encode_utf8(text).subrange(start, end) =~= encode_utf8(tail + head)) by {
        lemma_encode_joined(before + head, right);
        lemma_encode_joined(left, tail + head);
    }
    encode_utf8_decode_utf8(tail + head);
    if start > 0 {
        if left.len() == 0 {
            assert(left =~= Seq::<char>::empty());
            assert(encode_utf8(left).len() == 0);
        }
        assert(left.last() == before[before.len() - tail.len() - 1]);
    }
    if end < utf8_len(text) {
        if right.len() == 0 {
            assert(right =~= Seq::<char>::empty());
            assert(encode_utf8(right).len() == 0);
        }
        assert(right[0] == after[head.len() as int]);
    }
}

/// The word around `index`, where a word is a run of characters that are not white space.
/// An index between two words belongs to both, and to neither where white space lies on
/// either side of it.
pub fn word_range_around(text: &str, index: usize) -> (range: Range<usize>)
    requires
        index <= utf8_len(text@) ==> on_boundary(text@, index as int),
    ensures
        range.start == word_start(text@, at_most_len(text@, index as int)),
        range.end == word_end(text@, at_most_len(text@, index as int)),
{
    let len: usize = byte_len(text);
    let at: usize = if index < len {
        index
    } else {
        len
    };
    proof {
        lemma_ends_are_boundaries(text@);
        lemma_cut(text@, at as int);
    }
    let before: Vec<char> = characters(slice(text, 0, at).as_str());
    let after: Vec<char> = characters(slice(text, at, len).as_str());
    assert(before@ == text_before(text@, at as int));
    assert(after@ == text_from(text@, at as int));
    let mut start: usize = at;
    let mut left: usize = before.len();
    proof {
        assert(before@.take(before@.len() as int) =~= before@);
        assert(word_tail(before@) =~= word_tail(before@) + before@.skip(before@.len() as int));
        assert(before@.skip(before@.len() as int) =~= Seq::<char>::empty());
    }
    while left > 0 && !is_whitespace(before[left - 1])
        invariant
            left <= before@.len(),
            utf8_len(before@) == at,
            start + utf8_len(before@.skip(left as int)) == at,
            word_tail(before@) == word_tail(before@.take(left as int)) + before@.skip(left as int),
        decreases left,
    {
        let character: char = before[left - 1];
        proof {
            let shorter = before@.take(left - 1);
            assert(before@.take(left as int).drop_last() =~= shorter);
            assert(before@.skip(left - 1) =~= seq![character] + before@.skip(left as int));
            lemma_pushed_len(before@.skip(left as int), character);
            lemma_encode_one(character);
            assert(before@ =~= shorter + before@.skip(left - 1));
            lemma_encode_joined(shorter, before@.skip(left - 1));
            assert(word_tail(before@.take(left as int)) + before@.skip(left as int) =~= word_tail(
                shorter,
            ) + before@.skip(left - 1));
        }
        start -= encoded_len(character);
        left -= 1;
    }
    assert(word_tail(before@) =~= before@.skip(left as int));
    let mut end: usize = at;
    let mut right: usize = 0;
    proof {
        assert(after@.skip(0) =~= after@);
        assert(after@.take(0) =~= Seq::<char>::empty());
        assert(word_head(after@) =~= after@.take(0) + word_head(after@));
    }
    while right < after.len() && !is_whitespace(after[right])
        invariant
            right <= after@.len(),
            at + utf8_len(after@) == len,
            end == at + utf8_len(after@.take(right as int)),
            word_head(after@) == after@.take(right as int) + word_head(after@.skip(right as int)),
        decreases after@.len() - right,
    {
        let character: char = after[right as usize];
        proof {
            let longer = after@.take(right + 1);
            assert(after@.skip(right as int).drop_first() =~= after@.skip(right + 1));
            assert(longer =~= after@.take(right as int).push(character));
            lemma_pushed_len(after@.take(right as int), character);
            lemma_encode_one(character);
            assert(after@ =~= longer + after@.skip(right + 1));
            lemma_encode_joined(longer, after@.skip(right + 1));
            assert(after@.take(right as int) + word_head(after@.skip(right as int)) =~= longer
                + word_head(after@.skip(right + 1)));
        }
        end += encoded_len(character);
        right += 1;
    }
    assert(word_head(after@) =~= after@.take(right as int));
    start..end
}

// -- pieces ----------------------------------------------------------------------

/// A piece of text to draw: where it lies, the style it has, and whether it is selected.
#[derive(Debug)]
pub struct Piece {
    pub range: Range<usize>,
    /// Which highlight gives the piece its style; plain text has none.
    pub highlight: Option<usize>,
    /// Selected text is drawn on the selection's colour, whatever its style says.
    pub selected: bool,
}

/// Whether byte `at` lies in `range`.
pub open spec fn range_holds(range: Range<usize>, at: int) -> bool {
    range.start <= at < range.end
}

/// Whether `found` is the first of the ranges that holds byte `at`.
pub open spec fn is_first_holding(
    ranges: Seq<Range<usize>>,
    at: int,
    found: Option<usize>,
) -> bool {
    match found {
        Some(index) => {
            &&& index < ranges.len()
            &&& range_holds(ranges[index as int], at)
            &&& forall|i: int| 0 <= i < index ==> !range_holds(#[trigger] ranges[i], at)
        },
        None => forall|i: int| 0 <= i < ranges.len() ==> !range_holds(#[trigger] ranges[i], at),
    }
}

/// The first of the ranges that holds byte `at`.
pub fn first_holding(ranges: &Vec<Range<usize>>, at: usize) -> (found: Option<usize>)
    ensures
        is_first_holding(ranges@, at as int, found),
{
    let mut index: usize = 0;
    while index < ranges.len()
        invariant
            index <= ranges@.len(),
            forall|i: int| 0 <= i < index ==> !range_holds(#[trigger] ranges@[i], at as int),
        decreases ranges@.len() - index,
    {
        let range: &Range<usize> = &ranges[index];
        if range.start <= at && at < range.end {
            return Some(index);
        }
        index += 1;
    }
    None
}

/// Whether a text of `text_len` bytes is cut at byte `at`: at its ends, and where a
/// highlight or the selection begins or ends.
pub open spec fn is_selection_cut(
    text_len: usize,
    highlights: Seq<Range<usize>>,
    selection: Range<usize>,
    at: int,
) -> bool {
    &&& at <= text_len
    &&& {
        ||| at == 0
        ||| at == text_len
        ||| at == selection.start
        ||| at == selection.end
        ||| exists|i: int|
            0 <= i < highlights.len() && ((#[trigger] highlights[i]).start == at
                || highlights[i].end == at)
    }
}

/// Where the text is cut, in order.
pub open spec fn selection_cuts(
    text_len: usize,
    highlights: Seq<Range<usize>>,
    selection: Range<usize>,
) -> Seq<usize> {
    points_up_to(
        |at: int| is_selection_cut(text_len, highlights, selection, at),
        text_len as int,
    )
}

/// Whether `pieces` are the pieces between neighbouring cuts, each with the first highlight
/// that holds its start, and selected where the selection covers it.
pub open spec fn are_pieces_over(
    text_len: usize,
    highlights: Seq<Range<usize>>,
    selection: Range<usize>,
    pieces: Seq<Piece>,
) -> bool {
    let cuts = selection_cuts(text_len, highlights, selection);
    &&& pieces.len() == cuts.len() - 1
    &&& forall|i: int|
        0 <= i < pieces.len() ==> {
            let piece = #[trigger] pieces[i];
            &&& piece.range.start == cuts[i]
            &&& piece.range.end == cuts[i + 1]
            &&& is_first_holding(highlights, cuts[i] as int, piece.highlight)
            &&& piece.selected == (selection.start <= cuts[i] && cuts[i + 1] <= selection.end)
        }
}

fn add_cut(cuts: &mut Vec<usize>, text_len: usize, at: usize)
    requires
        strictly_increasing(old(cuts)@),
    ensures
        strictly_increasing(final(cuts)@),
        forall|point: usize|
            #![trigger final(cuts)@.contains(point)]
            final(cuts)@.contains(point) <==> old(cuts)@.contains(point) || (point == at && at
                <= text_len),
{
    if at <= text_len {
        insert_point(cuts, at);
    }
}

fn cuts_over(text_len: usize, highlights: &Vec<Range<usize>>, selection: &Range<usize>) -> (cuts:
    Vec<usize>)
    ensures
        cuts@ == selection_cuts(text_len, highlights@, *selection),
        cuts@.len() >= 1,
        strictly_increasing(cuts@),
{
    let mut cuts: Vec<usize> = Vec::new();
    add_cut(&mut cuts, text_len, 0);
    add_cut(&mut cuts, text_len, text_len);
    add_cut(&mut cuts, text_len, selection.start);
    add_cut(&mut cuts, text_len, selection.end);
    let mut index: usize = 0;
    while index < highlights.len()
        invariant
            index <= highlights@.len(),
            strictly_increasing(cuts@),
            forall|point: usize|
                #![trigger cuts@.contains(point)]
                cuts@.contains(point) <==> point <= text_len && (point == 0 || point == text_len
                    || point == selection.start || point == selection.end || exists|i: int|
                    0 <= i < index && ((#[trigger] highlights@[i]).start == point
                        || highlights@[i].end == point)),
        decreases highlights@.len() - index,
    {
        let range: &Range<usize> = &highlights[index];
        add_cut(&mut cuts, text_len, range.start);
        add_cut(&mut cuts, text_len, range.end);
        proof {
            assert(highlights@[index as int] == *range);
        }
        index += 1;
    }
    proof {
        let is_point = |at: int| is_selection_cut(text_len, highlights@, *selection, at);
        assert(cuts@.contains(0usize));
        assert forall|i: int| 0 <= i < cuts@.len() implies #[trigger] cuts@[i] <= text_len by {
            assert(cuts@.contains(cuts@[i]));
        }
        assert forall|at: int|
            #![trigger is_point(at)]
            0 <= at <= text_len implies (is_point(at) <==> cuts@.contains(at as usize)) by {}
        lemma_points_are_unique(cuts@, is_point, text_len as int);
    }
    cuts
}

/// The pieces a block of text is drawn in: its own highlights where nothing in it is
/// selected, and otherwise the text cut against both the highlights and the selection.
pub fn selection_over(
    text_len: usize,
    highlights: &Vec<Range<usize>>,
    selection: Option<Range<usize>>,
) -> (pieces: Vec<Piece>)
    ensures
        match selection {
            Some(selection) => are_pieces_over(text_len, highlights@, selection, pieces@),
            None => {
                &&& pieces@.len() == highlights@.len()
                &&& forall|i: int|
                    0 <= i < pieces@.len() ==> {
                        let piece = #[trigger] pieces@[i];
                        &&& piece.range == highlights@[i]
                        &&& piece.highlight == Some(i as usize)
                        &&& !piece.selected
                    }
            },
        },
{
    let mut pieces: Vec<Piece> = Vec::new();
    match selection {
        Some(selection) => {
            let cuts: Vec<usize> = cuts_over(text_len, highlights, &selection);
            let mut index: usize = 1;
            while index < cuts.len()
                invariant
                    1 <= index <= cuts@.len(),
                    pieces@.len() == index - 1,
                    forall|i: int|
                        0 <= i < pieces@.len() ==> {
                            let piece = #[trigger] pieces@[i];
                            &&& piece.range.start == cuts@[i]
                            &&& piece.range.end == cuts@[i + 1]
                            &&& is_first_holding(highlights@, cuts@[i] as int, piece.highlight)
                            &&& piece.selected == (selection.start <= cuts@[i] && cuts@[i + 1]
                                <= selection.end)
                        },
                decreases cuts@.len() - index,
            {
                let from: usize = cuts[index - 1];
                let to: usize = cuts[index];
                pieces.push(
                    Piece {
                        range: from..to,
                        highlight: first_holding(highlights, from),
                        selected: from >= selection.start && to <= selection.end,
                    },
                );
                index += 1;
            }
        },
        None => {
            let mut index: usize = 0;
            while index < highlights.len()
                invariant
                    index <= highlights@.len(),
                    pieces@.len() == index,
                    forall|i: int|
                        0 <= i < pieces@.len() ==> {
                            let piece = #[trigger] pieces@[i];
                            &&& piece.range == highlights@[i]
                            &&& piece.highlight == Some(i as usize)
                            &&& !piece.selected
                        },
                decreases highlights@.len() - index,
            {
                let range: &Range<usize> = &highlights[index];
                pieces.push(
                    Piece {
                        range: range.start..range.end,
                        highlight: Some(index),
                        selected: false,
                    },
                );
                index += 1;
            }
        },
    }
    pieces
}

/// The pieces follow one another without a gap from the start of the text to its end.
pub proof fn pieces_tile_the_text(
    text_len: usize,
    highlights: Seq<Range<usize>>,
    selection: Range<usize>,
    pieces: Seq<Piece>,
)
    requires
        are_pieces_over(text_len, highlights, selection, pieces),
    ensures
        text_len > 0 <==> pieces.len() > 0,
        pieces.len() > 0 ==> pieces[0].range.start == 0 && pieces.last().range.end == text_len,
        forall|i: int|
            0 <= i < pieces.len() ==> (#[trigger] pieces[i]).range.start < pieces[i].range.end,
        forall|i: int|
            1 <= i < pieces.len() ==> pieces[i - 1].range.end == (#[trigger] pieces[i]).range.start,
{
    let is_point = |at: int| is_selection_cut(text_len, highlights, selection, at);
    let cuts = selection_cuts(text_len, highlights, selection);
    lemma_points_in_order(is_point, text_len as int);
    assert(is_point(0) && is_point(text_len as int));
    assert(cuts.contains(0usize));
    assert(cuts.contains(text_len));
    let first = choose|i: int| 0 <= i < cuts.len() && cuts[i] == 0usize;
    let last = choose|i: int| 0 <= i < cuts.len() && cuts[i] == text_len;
    if first > 0 {
        assert(cuts[0] < cuts[first]);
    }
    if last < cuts.len() - 1 {
        assert(cuts[last] < cuts[cuts.len() - 1]);
        assert(cuts[cuts.len() - 1] <= text_len);
    }
    if text_len > 0 {
        assert(cuts[0] != cuts[last]);
    }
    if pieces.len() > 0 {
        assert(pieces.last() == pieces[pieces.len() - 1]);
        assert(cuts[0] < cuts[cuts.len() - 1]);
    }
    assert forall|i: int| 0 <= i < pieces.len() implies (#[trigger] pieces[i]).range.start
        < pieces[i].range.end by {
        assert(cuts[i] < cuts[i + 1]);
    }
    assert forall|i: int| 1 <= i < pieces.len() implies pieces[i - 1].range.end == (
    #[trigger] pieces[i]).range.start by {
        assert(pieces[i - 1].range.end == cuts[i]);
    }
}

/// The selection reads as one solid range: a byte is drawn as selected exactly where the
/// selection holds it.
pub proof fn the_selection_is_one_solid_range(
    text_len: usize,
    highlights: Seq<Range<usize>>,
    selection: Range<usize>,
    pieces: Seq<Piece>,
    index: int,
    at: int,
)
    requires
        are_pieces_over(text_len, highlights, selection, pieces),
        0 <= index < pieces.len(),
        range_holds(pieces[index].range, at),
    ensures
        pieces[index].selected <==> range_holds(selection, at),
{
    let is_point = |at: int| is_selection_cut(text_len, highlights, selection, at);
    let cuts = selection_cuts(text_len, highlights, selection);
    lemma_points_in_order(is_point, text_len as int);
    assert(cuts[index + 1] <= text_len);
    if range_holds(selection, at) {
        assert(is_point(selection.start as int));
        assert(cuts.contains(selection.start));
        let first = choose|i: int| 0 <= i < cuts.len() && cuts[i] == selection.start;
        if first > index {
            if first > index + 1 {
                assert(cuts[index + 1] < cuts[first]);
            }
            assert(false);
        }
        if first < index {
            assert(cuts[first] < cuts[index]);
        }
        if selection.end <= text_len {
            assert(is_point(selection.end as int));
            assert(cuts.contains(selection.end));
            let last = choose|i: int| 0 <= i < cuts.len() && cuts[i] == selection.end;
            if last <= index {
                if last < index {
                    assert(cuts[last] < cuts[index]);
                }
                assert(false);
            }
            if last > index + 1 {
                assert(cuts[index + 1] < cuts[last]);
            }
        }
    }
}

// -- dragging --------------------------------------------------------------------

/// The text a range selects, or nothing where the range does not cut the text at
/// characters.
pub open spec fn text_in(text: Seq<char>, range: Range<usize>) -> Seq<char> {
    if range.start <= range.end && on_boundary(text, range.start as int) && on_boundary(
        text,
        range.end as int,
    ) {
        text_between(text, range.start as int, range.end as int)
    } else {
        seq![]
    }
}

/// The text a range selects.
pub fn selected_text(text: &str, range: &Range<usize>) -> (selected: String)
    ensures
        selected@ == text_in(text@, *range),
{
    if range.start <= range.end && text.is_char_boundary(range.start) && text.is_char_boundary(
        range.end,
    ) {
        slice(text, range.start, range.end)
    } else {
        let empty = String::new();
        assert(empty@ =~= seq![]);
        empty
    }
}

/// One drag over a block of text.
#[derive(Debug)]
pub struct Drag {
    /// True between the button going down and coming up on this block.
    pub pending: bool,
    /// The byte the button went down on. Down and up on the same byte follows a link; a
    /// drag is a selection.
    pub anchor: Option<usize>,
}

impl Drag {
    pub fn new() -> (drag: Drag)
        ensures
            !drag.pending,
            drag.anchor == None::<usize>,
    {
        Drag { pending: false, anchor: None }
    }

    /// The left button went down on the block: select the word there on a double click,
    /// and nothing yet on any other.
    pub fn press(&mut self, text: &str, index: usize, click_count: usize) -> (range: Range<usize>)
        requires
            click_count == 2 && index <= utf8_len(text@) ==> on_boundary(text@, index as int),
        ensures
            final(self).pending,
            final(self).anchor == Some(index),
            click_count == 2 ==> range.start == word_start(text@, at_most_len(text@, index as int))
                && range.end == word_end(text@, at_most_len(text@, index as int)),
            click_count != 2 ==> range.start == index && range.end == index,
    {
        self.pending = true;
        self.anchor = Some(index);
        if click_count == 2 {
            word_range_around(text, index)
        } else {
            index..index
        }
    }

    /// The left button went down somewhere else.
    pub fn press_elsewhere(&mut self)
        ensures
            final(self).pending == old(self).pending,
            final(self).anchor == None::<usize>,
    {
        self.anchor = None;
    }

    /// The pointer moved to `head`: what the drag selects now, if there is one.
    pub fn drag_to(&self, head: usize) -> (range: Option<Range<usize>>)
        ensures
            match (self.pending, self.anchor) {
                (true, Some(anchor)) => range == Some(
                    if head < anchor {
                        Range { start: head, end: anchor }
                    } else {
                        Range { start: anchor, end: head }
                    },
                ),
                _ => range == None::<Range<usize>>,
            },
    {
        if !self.pending {
            return None;
        }
        match self.anchor {
            Some(anchor) => Some(anchored_range(anchor, head)),
            None => None,
        }
    }

    /// The button came up at `head`: which link to follow, if the press and the release
    /// met on one.
    pub fn release(&mut self, head: usize, links: &Vec<Range<usize>>) -> (link: Option<usize>)
        ensures
            !final(self).pending,
            final(self).anchor == None::<usize>,
            if old(self).anchor == Some(head) {
                is_first_holding(links@, head as int, link)
            } else {
                link == None::<usize>
            },
    {
        self.pending = false;
        let anchor: Option<usize> = self.anchor;
        self.anchor = None;
        match anchor {
            Some(anchor) => if anchor == head {
                first_holding(links, head)
            } else {
                None
            },
            None => None,
        }
    }
}

} // verus!
