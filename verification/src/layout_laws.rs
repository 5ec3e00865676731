//! Where offsets, rows, lines and pieces of a text lie.

use crate::cuts::lemma_points_in_order;
use crate::editor::{span_from_utf16, EditorView, PointerHit, Span};
use crate::rows::{
    caret_row_from, lemma_newline_from, line_holding, newline_from,
    nth_line_start, row_start, row_within, rows_before, selected_in_line, selected_in_lines,
    total_rows, LineEntry, MAX_VISIBLE_ROWS,
};
use crate::selection::{
    are_pieces_over, at_most_len, is_selection_cut, range_holds, selection_cuts, text_in, Piece,
};
use crate::text::{
    byte_offset_of_utf16, characters_covering_bytes, characters_covering_utf16, lemma_clamped,
    lemma_covering_bytes, lemma_covering_utf16, lemma_cut, lemma_encode_joined,
    lemma_prefix_bytes_increase, lemma_utf16_joined, on_boundary, offsets_round_trip, spliced,
    utf16_len, utf16_offset_of_byte, utf8_len,
};
use core::ops::Range;
use vstd::prelude::*;
use vstd::utf8::encode_utf8;

verus! {

// -- offsets -----------------------------------------------------------------------

/// A character takes two UTF-16 units where it lies beyond the basic plane, and one where it
/// does not; a text takes those of its characters.
pub proof fn units_are_counted_by_character(left: Seq<char>, right: Seq<char>, character: char)
    ensures
        utf16_len(seq![character]) == if (character as u32) < 0x10000 {
            1nat
        } else {
            2
        },
        utf16_len(left + right) == utf16_len(left) + utf16_len(right),
{
    lemma_utf16_joined(left, right);
    assert(seq![character].drop_first() =~= Seq::<char>::empty());
    assert(utf16_len(seq![character].drop_first()) == 0);
}

proof fn lemma_units_grow(text: Seq<char>, shorter: int, longer: int)
    requires
        0 <= shorter < longer <= text.len(),
    ensures
        utf16_len(text.take(shorter)) < utf16_len(text.take(longer)),
{
    assert(text.take(longer) =~= text.take(shorter) + text.subrange(shorter, longer));
    lemma_utf16_joined(text.take(shorter), text.subrange(shorter, longer));
    assert(text.subrange(shorter, longer).len() > 0);
}

/// An offset in UTF-16 units that ends after `count` characters is the byte offset after as
/// many characters; one that falls into the last of them is, too. One past the text is its
/// end.
pub proof fn units_map_to_the_same_character(text: Seq<char>, count: int, units: int)
    requires
        0 <= count <= text.len(),
        units <= utf16_len(text.take(count)),
        count > 0 ==> units > utf16_len(text.take(count - 1)),
    ensures
        byte_offset_of_utf16(text, units) == utf8_len(text.take(count)),
        byte_offset_of_utf16(text, utf16_len(text) + units) == utf8_len(text) || units <= 0,
{
    lemma_covering_utf16(text, units);
    let covering = characters_covering_utf16(text, units) as int;
    if covering < count {
        if covering < count - 1 {
            lemma_units_grow(text, covering, count - 1);
        }
    }
    if covering > count {
        assert(utf16_len(text.take(count)) < units);
    }
    let beyond = utf16_len(text) + units;
    lemma_covering_utf16(text, beyond);
    if units > 0 {
        let all = characters_covering_utf16(text, beyond) as int;
        assert(text.take(text.len() as int) =~= text);
        if all < text.len() {
            lemma_units_grow(text, all, text.len() as int);
        }
    }
}

/// A byte offset that ends after `count` characters, or falls into the last of them, is as
/// many UTF-16 units as these take.
pub proof fn bytes_map_to_the_same_character(text: Seq<char>, count: int, bytes: int)
    requires
        0 <= count <= text.len(),
        bytes <= utf8_len(text.take(count)),
        count > 0 ==> bytes > utf8_len(text.take(count - 1)),
    ensures
        utf16_offset_of_byte(text, bytes) == utf16_len(text.take(count)),
{
    lemma_covering_bytes(text, bytes);
    let covering = characters_covering_bytes(text, bytes) as int;
    if covering < count - 1 {
        lemma_prefix_bytes_increase(text, covering, count - 1);
    }
    if covering > count {
        assert(utf8_len(text.take(count)) < bytes);
    }
}

/// A text with a part replaced has the bytes before the part, those of the new text, and the
/// bytes behind the part.
pub proof fn a_splice_replaces_a_part(text: Seq<char>, start: int, end: int, new_text: Seq<char>)
    requires
        on_boundary(text, start),
        on_boundary(text, end),
        start <= end,
    ensures
        encode_utf8(spliced(text, start, end, new_text)) == encode_utf8(text).take(start)
            + encode_utf8(new_text) + encode_utf8(text).skip(end),
{
    lemma_cut(text, start);
    lemma_cut(text, end);
    let before = crate::text::text_before(text, start);
    let after = crate::text::text_from(text, end);
    lemma_encode_joined(before, new_text);
    lemma_encode_joined(before + new_text, after);
    assert(encode_utf8(text).subrange(0, start) =~= encode_utf8(text).take(start));
    assert(encode_utf8(text).subrange(end, utf8_len(text) as int) =~= encode_utf8(text).skip(end));
}

/// A range that is named in UTF-16 units is the range of bytes that these units stand for,
/// in whichever order its ends are named.
pub proof fn a_range_in_units_is_a_range_in_bytes(text: Seq<char>, start: int, end: int)
    requires
        on_boundary(text, start),
        on_boundary(text, end),
        start <= end,
    ensures
        ({
            let (from, to) = (
                utf16_offset_of_byte(text, start) as int,
                utf16_offset_of_byte(text, end) as int,
            );
            &&& span_from_utf16(text, Span { start: from, end: to }) == (Span { start, end })
            &&& span_from_utf16(text, Span { start: to, end: from }) == (Span { start, end })
        }),
{
    offsets_round_trip(text, start);
    offsets_round_trip(text, end);
    lemma_cut(text, start);
    lemma_cut(text, end);
    lemma_clamped(text, start);
    lemma_clamped(text, end);
}

/// An edit that names a range in units replaces the bytes that these units stand for.
pub proof fn an_edit_replaces_the_range_it_names(
    editor: EditorView,
    start: int,
    end: int,
    new_text: Seq<char>,
)
    requires
        on_boundary(editor.content, start),
        on_boundary(editor.content, end),
        start <= end,
    ensures
        ({
            let units = Span {
                start: utf16_offset_of_byte(editor.content, start) as int,
                end: utf16_offset_of_byte(editor.content, end) as int,
            };
            let after = editor.replaced(Some(units), new_text);
            let entered = editor.entered(new_text);
            &&& encode_utf8(after.content) == encode_utf8(editor.content).take(start)
                + encode_utf8(entered) + encode_utf8(editor.content).skip(end)
            &&& after.selected == (Span {
                start: start + utf8_len(entered),
                end: start + utf8_len(entered),
            })
            &&& after.marked is None
            &&& after.single_line == editor.single_line
            &&& after.placeholder == editor.placeholder
        }),
{
    a_range_in_units_is_a_range_in_bytes(editor.content, start, end);
    a_splice_replaces_a_part(editor.content, start, end, editor.entered(new_text));
}

/// The text a range selects has the bytes of the range; a range that does not cut the text
/// at characters selects nothing.
pub proof fn selected_text_has_the_bytes_of_its_range(text: Seq<char>, range: Range<usize>)
    ensures
        range.start <= range.end && on_boundary(text, range.start as int) && on_boundary(
            text,
            range.end as int,
        ) ==> encode_utf8(text_in(text, range)) == encode_utf8(text).subrange(
            range.start as int,
            range.end as int,
        ),
        !(range.start <= range.end && on_boundary(text, range.start as int) && on_boundary(
            text,
            range.end as int,
        )) ==> text_in(text, range).len() == 0,
{
    if range.start <= range.end && on_boundary(text, range.start as int) && on_boundary(
        text,
        range.end as int,
    ) {
        crate::cuts::lemma_between_bytes(text, range.start as int, range.end as int);
    }
}

/// An offset past the text counts as its end, every other one as itself.
pub proof fn an_offset_past_the_text_is_its_end(text: Seq<char>, at: int)
    ensures
        at <= utf8_len(text) ==> at_most_len(text, at) == at,
        at > utf8_len(text) ==> at_most_len(text, at) == utf8_len(text),
{
}

// -- rows ---------------------------------------------------------------------------

/// The rows of a text are those of its lines together.
pub proof fn rows_add_up(left: Seq<LineEntry>, right: Seq<LineEntry>, line: LineEntry)
    ensures
        total_rows(left + right) == total_rows(left) + total_rows(right),
        total_rows(seq![line]) == line.line.row_ends@.len(),
        rows_before(left + right, left.len() as int) == total_rows(left),
    decreases right.len(),
{
    let all = left + right;
    if right.len() == 0 {
        assert(all =~= left);
    } else {
        rows_add_up(left, right.drop_last(), line);
        assert(all.drop_last() =~= left + right.drop_last());
        assert(all.last() == right.last());
    }
    assert(all.take(left.len() as int) =~= left);
    assert(seq![line].drop_last() =~= Seq::<LineEntry>::empty());
    assert(total_rows(seq![line].drop_last()) == 0);
}

/// A byte of a line lies on the first row that ends at or after it.
pub proof fn a_byte_lies_on_the_first_row_that_reaches_it(
    row_ends: Seq<usize>,
    index: int,
    row: int,
)
    requires
        0 <= row < row_ends.len(),
        index <= row_ends[row],
        forall|i: int| 0 <= i < row ==> #[trigger] row_ends[i] < index,
    ensures
        row_within(row_ends, index) == row,
    decreases row_ends.len(),
{
    if row > 0 {
        assert(row_ends[0] < index);
        let rest = row_ends.drop_first();
        assert forall|i: int| 0 <= i < row - 1 implies #[trigger] rest[i] < index by {
            assert(rest[i] == row_ends[i + 1]);
        }
        a_byte_lies_on_the_first_row_that_reaches_it(rest, index, row - 1);
    }
}

/// The caret sits on the first line that reaches it, and there on the first row that does,
/// below all rows of the lines before.
pub proof fn the_caret_sits_on_the_first_row_that_reaches_it(
    lines: Seq<LineEntry>,
    cursor: int,
    line: int,
    row: int,
)
    requires
        0 <= line < lines.len(),
        forall|i: int| 0 <= i < line ==> (#[trigger] lines[i]).end() < cursor,
        cursor <= lines[line].end(),
        0 <= row < lines[line].line.row_ends@.len(),
        cursor - lines[line].byte_start <= lines[line].line.row_ends@[row],
        forall|i: int|
            0 <= i < row ==> #[trigger] lines[line].line.row_ends@[i] < cursor
                - lines[line].byte_start,
    ensures
        caret_row_from(lines, 0, cursor) == total_rows(lines.take(line)) + row,
{
    lemma_caret_line(lines, cursor, line, 0);
    a_byte_lies_on_the_first_row_that_reaches_it(
        lines[line].line.row_ends@,
        cursor - lines[line].byte_start,
        row,
    );
}

proof fn lemma_caret_line(lines: Seq<LineEntry>, cursor: int, line: int, from: int)
    requires
        0 <= from <= line < lines.len(),
        forall|i: int| from <= i < line ==> (#[trigger] lines[i]).end() < cursor,
        cursor <= lines[line].end(),
    ensures
        caret_row_from(lines, from, cursor) == rows_before(lines, line) + row_within(
            lines[line].line.row_ends@,
            cursor - lines[line].byte_start,
        ),
    decreases line - from,
{
    if from < line {
        assert(lines[from].end() < cursor);
        lemma_caret_line(lines, cursor, line, from + 1);
    }
}

/// A byte is drawn on the last line that begins at or before it; before the first line it is
/// drawn nowhere.
pub proof fn a_byte_is_drawn_on_the_last_line_before_it(
    lines: Seq<LineEntry>,
    byte: int,
    line: int,
)
    requires
        -1 <= line < lines.len(),
        line >= 0 ==> lines[line].byte_start <= byte,
        forall|i: int| line < i < lines.len() ==> (#[trigger] lines[i]).byte_start > byte,
    ensures
        line >= 0 ==> line_holding(lines, byte) == Some(line),
        line < 0 ==> line_holding(lines, byte) is None,
    decreases lines.len(),
{
    if lines.len() > 0 && line < lines.len() - 1 {
        assert(lines[lines.len() - 1].byte_start > byte);
        let rest = lines.drop_last();
        assert forall|i: int| line < i < rest.len() implies (#[trigger] rest[i]).byte_start
            > byte by {
            assert(rest[i] == lines[i]);
        }
        a_byte_is_drawn_on_the_last_line_before_it(rest, byte, line);
    }
}

/// How many line breaks are among the first `count` bytes.
pub open spec fn breaks_before(bytes: Seq<u8>, count: int) -> int
    decreases count,
{
    if count <= 0 {
        0
    } else {
        breaks_before(bytes, count - 1) + if bytes[count - 1] == 0x0A {
            1int
        } else {
            0
        }
    }
}

proof fn lemma_no_breaks(bytes: Seq<u8>, from: int, to: int)
    requires
        0 <= from <= to <= bytes.len(),
        forall|i: int| from <= i < to ==> #[trigger] bytes[i] != 0x0A,
    ensures
        breaks_before(bytes, to) == breaks_before(bytes, from),
    decreases to - from,
{
    if from < to {
        lemma_no_breaks(bytes, from, to - 1);
    }
}

/// Each line of a text starts behind as many line breaks as there are lines before it: at
/// the start of the text, or right behind a break.
pub proof fn a_line_starts_behind_a_break(bytes: Seq<u8>, index: nat)
    requires
        nth_line_start(bytes, index) <= bytes.len(),
    ensures
        0 <= nth_line_start(bytes, index),
        breaks_before(bytes, nth_line_start(bytes, index)) == index,
        index == 0 ==> nth_line_start(bytes, index) == 0,
        index > 0 ==> nth_line_start(bytes, index) > 0 && bytes[nth_line_start(bytes, index) - 1]
            == 0x0A,
    decreases index,
{
    if index > 0 {
        let at = nth_line_start(bytes, (index - 1) as nat);
        if at < bytes.len() {
            a_line_starts_behind_a_break(bytes, (index - 1) as nat);
            lemma_newline_from(bytes, at);
            lemma_no_breaks(bytes, at, newline_from(bytes, at));
        }
    }
}

proof fn lemma_line_rows_in_order(
    entry: LineEntry,
    line: int,
    above: int,
    rows: int,
    start: int,
    end: int,
)
    requires
        0 <= rows <= entry.line.row_ends@.len(),
        0 <= above,
        above + rows <= usize::MAX,
    ensures
        ({
            let parts = selected_in_line(entry, line, above, rows, start, end);
            &&& forall|i: int| 0 <= i < parts.len() ==> above <= (#[trigger] parts[i]).row < above
                + rows
            &&& forall|i: int, j: int|
                #![trigger parts[i], parts[j]]
                0 <= i < j < parts.len() ==> parts[i].row < parts[j].row
        }),
    decreases rows,
{
    if rows > 0 {
        lemma_line_rows_in_order(entry, line, above, rows - 1, start, end);
        let earlier = selected_in_line(entry, line, above, rows - 1, start, end);
        let parts = selected_in_line(entry, line, above, rows, start, end);
        assert forall|i: int| 0 <= i < parts.len() implies above <= (#[trigger] parts[i]).row < above
            + rows by {
            if i < earlier.len() {
                assert(parts[i] == earlier[i]);
            }
        }
        assert forall|i: int, j: int|
            #![trigger parts[i], parts[j]]
            0 <= i < j < parts.len() implies parts[i].row < parts[j].row by {
            assert(parts[i] == earlier[i]);
            if j < earlier.len() {
                assert(parts[j] == earlier[j]);
            }
        }
    }
}

/// The rows of a selection are painted from the top to the bottom, each once.
pub proof fn selected_rows_are_in_order(lines: Seq<LineEntry>, start: int, end: int)
    requires
        total_rows(lines) <= usize::MAX,
    ensures
        ({
            let parts = selected_in_lines(lines, start, end);
            &&& forall|i: int|
                0 <= i < parts.len() ==> (#[trigger] parts[i]).row < total_rows(lines)
            &&& forall|i: int, j: int|
                #![trigger parts[i], parts[j]]
                0 <= i < j < parts.len() ==> parts[i].row < parts[j].row
        }),
    decreases lines.len(),
{
    if lines.len() > 0 {
        let rest = lines.drop_last();
        let last = lines.last();
        selected_rows_are_in_order(rest, start, end);
        lemma_line_rows_in_order(
            last,
            lines.len() - 1,
            total_rows(rest) as int,
            last.line.row_ends@.len() as int,
            start,
            end,
        );
        let earlier = selected_in_lines(rest, start, end);
        let own = selected_in_line(
            last,
            lines.len() - 1,
            total_rows(rest) as int,
            last.line.row_ends@.len() as int,
            start,
            end,
        );
        let parts = selected_in_lines(lines, start, end);
        assert forall|i: int| 0 <= i < parts.len() implies (#[trigger] parts[i]).row < total_rows(
            lines,
        ) by {
            if i < earlier.len() {
                assert(parts[i] == earlier[i]);
            } else {
                assert(parts[i] == own[i - earlier.len()]);
            }
        }
        assert forall|i: int, j: int|
            #![trigger parts[i], parts[j]]
            0 <= i < j < parts.len() implies parts[i].row < parts[j].row by {
            if i < earlier.len() {
                assert(parts[i] == earlier[i]);
            } else {
                assert(parts[i] == own[i - earlier.len()]);
            }
            if j < earlier.len() {
                assert(parts[j] == earlier[j]);
            } else {
                assert(parts[j] == own[j - earlier.len()]);
            }
        }
    }
}

proof fn lemma_line_row_starts(
    entry: LineEntry,
    line: int,
    above: int,
    rows: int,
    start: int,
    end: int,
    place: int,
)
    requires
        0 <= rows <= entry.line.row_ends@.len(),
        0 <= above,
        above + rows <= usize::MAX,
        0 <= line <= usize::MAX,
        0 <= place < selected_in_line(entry, line, above, rows, start, end).len(),
    ensures
        ({
            let part = selected_in_line(entry, line, above, rows, start, end)[place];
            &&& part.line == line
            &&& above <= part.row < above + rows
            &&& part.row_start == if part.row == above {
                0
            } else {
                entry.line.row_ends@[part.row - above - 1] as int
            }
        }),
    decreases rows,
{
    if rows > 0 {
        let earlier = selected_in_line(entry, line, above, rows - 1, start, end);
        if place < earlier.len() {
            lemma_line_row_starts(entry, line, above, rows - 1, start, end, place);
        }
    }
}

/// A painted part knows where its row begins: at the start of its line, or where the row
/// above it ends.
pub proof fn a_selected_row_begins_where_the_one_above_ends(
    lines: Seq<LineEntry>,
    start: int,
    end: int,
    place: int,
)
    requires
        total_rows(lines) <= usize::MAX,
        lines.len() <= usize::MAX,
        0 <= place < selected_in_lines(lines, start, end).len(),
    ensures
        ({
            let part = selected_in_lines(lines, start, end)[place];
            let row = part.row - total_rows(lines.take(part.line as int));
            &&& part.line < lines.len()
            &&& 0 <= row < lines[part.line as int].line.row_ends@.len()
            &&& row == 0 ==> part.row_start == 0
            &&& row > 0 ==> part.row_start == lines[part.line as int].line.row_ends@[row - 1]
        }),
    decreases lines.len(),
{
    let rest = lines.drop_last();
    let last = lines.last();
    let earlier = selected_in_lines(rest, start, end);
    assert(lines.take(lines.len() - 1) =~= rest);
    if place < earlier.len() {
        a_selected_row_begins_where_the_one_above_ends(rest, start, end, place);
        let line = earlier[place].line as int;
        assert(lines.take(line) =~= rest.take(line));
        assert(lines[line] == rest[line]);
    } else {
        lemma_line_row_starts(
            last,
            lines.len() - 1,
            total_rows(rest) as int,
            last.line.row_ends@.len() as int,
            start,
            end,
            place - earlier.len(),
        );
    }
}

// -- pieces ----------------------------------------------------------------------------

proof fn lemma_same_side(
    text_len: usize,
    highlights: Seq<Range<usize>>,
    selection: Range<usize>,
    index: int,
    at: int,
    edge: int,
)
    requires
        0 <= index < selection_cuts(text_len, highlights, selection).len() - 1,
        selection_cuts(text_len, highlights, selection)[index] <= at,
        at < selection_cuts(text_len, highlights, selection)[index + 1],
        0 <= edge,
        edge <= text_len ==> is_selection_cut(text_len, highlights, selection, edge),
    ensures
        edge <= selection_cuts(text_len, highlights, selection)[index] <==> edge <= at,
{
    let is_point = |at: int| is_selection_cut(text_len, highlights, selection, at);
    let cuts = selection_cuts(text_len, highlights, selection);
    lemma_points_in_order(is_point, text_len as int);
    assert(cuts[index + 1] <= text_len);
    if edge <= text_len {
        assert(is_point(edge));
        assert(cuts.contains(edge as usize));
        let k = choose|k: int| 0 <= k < cuts.len() && cuts[k] == edge as usize;
        if k > index + 1 {
            assert(cuts[index + 1] < cuts[k]);
        }
        if k < index {
            assert(cuts[k] < cuts[index]);
        }
    }
}

/// Every byte of a piece has the style of the first highlight that holds the byte, and none
/// where none does.
pub proof fn a_byte_has_the_first_highlight_that_holds_it(
    text_len: usize,
    highlights: Seq<Range<usize>>,
    selection: Range<usize>,
    pieces: Seq<Piece>,
    index: int,
    at: int,
)
    requires
        are_pieces_over(text_len, highlights, selection, pieces),
        0 <= index < pieces.len(),
        pieces[index].range.start <= at < pieces[index].range.end,
    ensures
        pieces[index].highlight is None ==> forall|i: int|
            0 <= i < highlights.len() ==> !((#[trigger] highlights[i]).start <= at
                < highlights[i].end),
        pieces[index].highlight matches Some(first) ==> first < highlights.len()
            && highlights[first as int].start <= at < highlights[first as int].end && forall|i: int|
            0 <= i < first ==> !((#[trigger] highlights[i]).start <= at < highlights[i].end),
{
    let cuts = selection_cuts(text_len, highlights, selection);
    assert forall|i: int| 0 <= i < highlights.len() implies range_holds(
        #[trigger] highlights[i],
        cuts[index] as int,
    ) == (highlights[i].start <= at < highlights[i].end) by {
        lemma_same_side(
            text_len,
            highlights,
            selection,
            index,
            at,
            highlights[i].start as int,
        );
        lemma_same_side(text_len, highlights, selection, index, at, highlights[i].end as int);
    }
    let piece = pieces[index];
    assert(crate::selection::is_first_holding(highlights, cuts[index] as int, piece.highlight));
    match piece.highlight {
        Some(first) => {
            assert(range_holds(highlights[first as int], cuts[index] as int));
        },
        None => {},
    }
}

/// A piece begins only at the start of the text, or where a highlight or the selection begins
/// or ends.
pub proof fn a_piece_begins_where_a_highlight_changes(
    text_len: usize,
    highlights: Seq<Range<usize>>,
    selection: Range<usize>,
    pieces: Seq<Piece>,
    index: int,
)
    requires
        are_pieces_over(text_len, highlights, selection, pieces),
        0 < index < pieces.len(),
    ensures
        ({
            let at = pieces[index].range.start;
            at == selection.start || at == selection.end || exists|i: int|
                0 <= i < highlights.len() && ((#[trigger] highlights[i]).start == at
                    || highlights[i].end == at)
        }),
{
    let is_point = |at: int| is_selection_cut(text_len, highlights, selection, at);
    let cuts = selection_cuts(text_len, highlights, selection);
    lemma_points_in_order(is_point, text_len as int);
    assert(is_point(cuts[index] as int));
    assert(cuts[0] < cuts[index]);
    assert(cuts[index] < cuts[index + 1]);
    assert(cuts[index + 1] <= text_len);
}

// -- the editor's box --------------------------------------------------------------------

/// The rows move no further than it takes to show the caret: a caret above the box comes on
/// its first row, one below it on its last, and one inside it moves nothing. What fits the box
/// is not scrolled, and neither is a field that does not wrap.
pub proof fn the_rows_move_no_further_than_the_caret(editor: EditorView)
    ensures
        ({
            let after = editor.showing_caret();
            let row = editor.caret_row();
            let scrolls = editor.wraps() && total_rows(editor.lines) > MAX_VISIBLE_ROWS;
            &&& !editor.wraps() ==> after.scroll_row == editor.scroll_row
            &&& editor.wraps() && !scrolls ==> after.scroll_row == 0
            &&& scrolls && row < editor.scroll_row ==> after.scroll_row == row
            &&& scrolls && row >= editor.scroll_row + MAX_VISIBLE_ROWS ==> after.scroll_row
                + MAX_VISIBLE_ROWS == row + 1
            &&& scrolls && editor.scroll_row <= row < editor.scroll_row + MAX_VISIBLE_ROWS
                ==> after.scroll_row == editor.scroll_row
            &&& after == (EditorView { scroll_row: after.scroll_row, ..editor })
            &&& MAX_VISIBLE_ROWS == 8
        }),
{
}

/// A field of lines wraps, and so does a single line that was asked to; another single line
/// does not.
pub proof fn a_single_line_wraps_on_demand(editor: EditorView)
    ensures
        !editor.single_line ==> editor.wraps(),
        editor.single_line ==> (editor.wraps() <==> editor.wrap_long_lines),
{
}

/// Rows that fit the box cannot be scrolled, and whoever scrolls is not moved back by the
/// caret.
pub proof fn rows_that_fit_do_not_scroll(editor: EditorView, rows: int)
    ensures
        total_rows(editor.lines) <= MAX_VISIBLE_ROWS ==> editor.scrolled_by(rows).scroll_row == 0,
        !editor.scrolled_by(rows).follow_cursor,
        editor.scrolled_by(rows) == (EditorView {
            scroll_row: editor.scrolled_by(rows).scroll_row,
            follow_cursor: false,
            ..editor
        }),
{
}

/// An editor starts empty, with the caret at its start and a hint to type.
pub proof fn an_editor_starts_empty(single_line: bool, wrap_long_lines: bool)
    ensures
        ({
            let editor = EditorView::fresh(single_line, wrap_long_lines);
            &&& editor.content.len() == 0
            &&& editor.placeholder == "Type here…"@
            &&& editor.selected == (Span { start: 0, end: 0 })
            &&& editor.marked is None
            &&& !editor.reversed && !editor.is_selecting
            &&& editor.single_line == single_line
            &&& editor.wrap_long_lines == wrap_long_lines
            &&& editor.scroll_row == 0
            &&& editor.follow_cursor
            &&& editor.lines.len() == 0
        }),
{
}

/// Moving, selecting and editing have the rows follow the caret again, and keep what kind of
/// field it is; a text that was replaced has no layout, and a new one starts at the top.
pub proof fn every_move_follows_the_caret(
    editor: EditorView,
    offset: int,
    range_utf16: Option<Span>,
    text: Seq<char>,
)
    ensures
        editor.moved_to(offset).follow_cursor,
        !editor.moved_to(offset).reversed,
        editor.moved_to(offset) == (EditorView {
            selected: editor.moved_to(offset).selected,
            reversed: false,
            follow_cursor: true,
            scroll_row: editor.moved_to(offset).scroll_row,
            ..editor
        }),
        editor.selected_to(offset).follow_cursor,
        editor.selected_to(offset) == (EditorView {
            selected: editor.selected_to(offset).selected,
            reversed: editor.selected_to(offset).reversed,
            follow_cursor: true,
            scroll_row: editor.selected_to(offset).scroll_row,
            ..editor
        }),
        editor.replaced(range_utf16, text).follow_cursor,
        editor.replaced(range_utf16, text).lines.len() == 0,
        editor.replaced(range_utf16, text) == (EditorView {
            content: editor.replaced(range_utf16, text).content,
            selected: editor.replaced(range_utf16, text).selected,
            marked: None,
            lines: editor.replaced(range_utf16, text).lines,
            follow_cursor: true,
            scroll_row: editor.replaced(range_utf16, text).scroll_row,
            ..editor
        }),
        editor.marked_with(range_utf16, text, None) == (EditorView {
            content: editor.marked_with(range_utf16, text, None).content,
            selected: editor.marked_with(range_utf16, text, None).selected,
            marked: editor.marked_with(range_utf16, text, None).marked,
            ..editor
        }),
        editor.filled(text).follow_cursor,
        editor.filled(text).lines.len() == 0,
        editor.filled(text).scroll_row == 0,
        !editor.filled(text).reversed,
        editor.filled(text) == (EditorView {
            content: editor.filled(text).content,
            selected: editor.filled(text).selected,
            reversed: false,
            marked: None,
            lines: editor.filled(text).lines,
            scroll_row: 0,
            follow_cursor: true,
            ..editor
        }),
{
}

/// Composing nothing marks nothing; a selection whose end lies before its start is empty.
pub proof fn composing_nothing_marks_nothing(
    editor: EditorView,
    range_utf16: Option<Span>,
    text: Seq<char>,
    units: Span,
)
    ensures
        editor.entered(text).len() == 0 ==> editor.marked_with(range_utf16, text, None).marked is None,
        editor.entered(text).len() > 0 ==> editor.marked_with(range_utf16, text, None).marked
            is Some,
        ({
            let entered = editor.entered(text);
            let from = byte_offset_of_utf16(entered, units.start) as int;
            let to = byte_offset_of_utf16(entered, units.end) as int;
            let start = editor.edited_span(range_utf16).start;
            let after = editor.marked_with(range_utf16, text, Some(units)).selected;
            &&& after.start == start + from
            &&& to >= from ==> after.end == start + to
            &&& to < from ==> after.end == after.start
        }),
{
}

/// Where nothing is painted yet, or there is no text, a pointer means the start.
pub proof fn a_pointer_without_text_means_the_start(editor: EditorView, hit: PointerHit)
    ensures
        editor.pointed_offset(PointerHit::Unpainted) == 0,
        editor.content.len() == 0 ==> editor.pointed_offset(hit) == 0,
{
}

/// A layout that the caret is not to follow leaves the rows where they are; one that it is to
/// follow is followed once.
pub proof fn a_layout_is_followed_once(editor: EditorView, lines: Seq<LineEntry>)
    ensures
        !editor.follow_cursor ==> editor.laid_out(lines) == (EditorView { lines, ..editor }),
        !editor.laid_out(lines).follow_cursor,
        editor.follow_cursor ==> editor.laid_out(lines) == (EditorView {
            follow_cursor: false,
            ..(EditorView { lines, ..editor }).showing_caret()
        }),
{
}

} // verus!
