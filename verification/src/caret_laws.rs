//! Where the caret goes, and what typing and deleting leave behind.

use crate::editor::{span_to_utf16, EditorView, PointerHit, Span};
use crate::editor_laws::{an_edit_can_be_read_back, every_edit_has_a_range};
use crate::graphemes::{first_start_above, grapheme_starts, last_start_below};
use crate::rows::{
    after_newline_before, lemma_after_newline_before, lemma_newline_from, newline_from, total_rows,
    MAX_VISIBLE_ROWS,
};
use crate::text::{
    lemma_boundary_prefix, lemma_boundary_at_or_below, lemma_clamped, lemma_ends_are_boundaries,
    lemma_newline_byte, on_boundary, single_line_of, stays_on_line, text_before, text_between,
    text_from, utf16_offset_of_byte, utf8_len,
};
use vstd::prelude::*;
use vstd::utf8::encode_utf8;

verus! {

// -- lines -----------------------------------------------------------------------

/// Whether the bytes from `start` to `end` are one line: no line break is among them, and
/// a line break or an end of the text is on either side.
pub open spec fn is_line(bytes: Seq<u8>, start: int, end: int) -> bool {
    &&& 0 <= start <= end <= bytes.len()
    &&& start == 0 || bytes[start - 1] == 0x0A
    &&& end == bytes.len() || bytes[end] == 0x0A
    &&& forall|i: int| start <= i < end ==> #[trigger] bytes[i] != 0x0A
}

/// Whether `at` is the last place at or before `wanted` where the text can be cut.
pub open spec fn lands(text: Seq<char>, at: int, wanted: int) -> bool {
    &&& on_boundary(text, at)
    &&& at <= wanted
    &&& forall|between: int| at < between <= wanted ==> !#[trigger] on_boundary(text, between)
}

proof fn lemma_line(bytes: Seq<u8>, start: int, end: int, at: int)
    requires
        is_line(bytes, start, end),
        start <= at <= end,
    ensures
        after_newline_before(bytes, at) == start,
        newline_from(bytes, at) == end,
{
    lemma_after_newline_before(bytes, at);
    lemma_newline_from(bytes, at);
    let first = after_newline_before(bytes, at);
    if first < start {
        assert(bytes[start - 1] == 0x0A);
    }
    if first > start {
        assert(bytes[first - 1] == 0x0A);
    }
    let last = newline_from(bytes, at);
    if last < end {
        assert(bytes[last] == 0x0A);
    }
    if last > end {
        assert(bytes[end] == 0x0A);
    }
}

proof fn lemma_landed(text: Seq<char>, wanted: int)
    requires
        0 <= wanted <= utf8_len(text),
    ensures
        lands(text, crate::text::clamped(text, wanted), wanted),
        on_boundary(text, wanted) ==> crate::text::clamped(text, wanted) == wanted,
{
    lemma_clamped(text, wanted);
    lemma_boundary_at_or_below(text, wanted);
}

/// An offset is brought onto the character it lies in, and no further; one past the end
/// goes to the end.
pub proof fn an_offset_lands_on_its_character(editor: EditorView, offset: int)
    requires
        0 <= offset,
    ensures
        ({
            let moved = editor.moved_to(offset);
            &&& moved.content == editor.content
            &&& moved.selected.start == moved.selected.end
            &&& moved.cursor() == moved.selected.start
            &&& offset <= utf8_len(editor.content) ==> lands(
                editor.content,
                moved.selected.start,
                offset,
            )
            &&& offset >= utf8_len(editor.content) ==> moved.selected.start == utf8_len(
                editor.content,
            )
        }),
{
    lemma_clamped(editor.content, offset);
    if offset <= utf8_len(editor.content) {
        lemma_landed(editor.content, offset);
    }
    lemma_clamped(editor.content, editor.moved_to(offset).selected.start);
}

proof fn lemma_cursor(editor: EditorView)
    requires
        editor.wf(),
    ensures
        on_boundary(editor.content, editor.cursor()),
        0 <= editor.cursor() <= utf8_len(editor.content),
        editor.cursor() == if editor.reversed {
            editor.selected.start
        } else {
            editor.selected.end
        },
{
    lemma_clamped(editor.content, editor.selected.start);
    lemma_clamped(editor.content, editor.selected.end);
}

proof fn lemma_line_here(editor: EditorView, start: int, end: int, at: int)
    requires
        is_line(encode_utf8(editor.content), start, end),
        start <= at <= end,
        on_boundary(editor.content, at),
    ensures
        editor.line_start(at) == start,
        editor.line_end(at) == end,
        on_boundary(editor.content, start),
        on_boundary(editor.content, end),
{
    lemma_clamped(editor.content, at);
    lemma_line(encode_utf8(editor.content), start, end, at);
    lemma_ends_are_boundaries(editor.content);
    if start > 0 {
        lemma_newline_byte(editor.content, start - 1);
    }
    if end < utf8_len(editor.content) {
        lemma_newline_byte(editor.content, end);
    }
}

/// Home and End go to the two ends of the line that the caret is on.
pub proof fn home_and_end_are_the_ends_of_the_line(editor: EditorView, start: int, end: int)
    requires
        editor.wf(),
        is_line(encode_utf8(editor.content), start, end),
        start <= editor.cursor() <= end,
    ensures
        editor.moved_to(editor.line_start(editor.cursor())).cursor() == start,
        editor.moved_to(editor.line_end(editor.cursor())).cursor() == end,
{
    lemma_cursor(editor);
    lemma_line_here(editor, start, end, editor.cursor());
    an_offset_lands_on_its_character(editor, start);
    an_offset_lands_on_its_character(editor, end);
    lemma_clamped(editor.content, start);
    lemma_clamped(editor.content, end);
}

/// Going up keeps the column: the caret stands as far from the start of the line above as it
/// stood from the start of its own, or at the end of a line that is shorter. What is
/// selected on the way reaches there from where it began.
pub proof fn going_up_keeps_the_column(
    editor: EditorView,
    above: int,
    start: int,
    end: int,
)
    requires
        editor.wf(),
        is_line(encode_utf8(editor.content), above, start - 1),
        is_line(encode_utf8(editor.content), start, end),
        start <= editor.cursor() <= end,
    ensures
        ({
            let column = editor.cursor() - start;
            let length = start - 1 - above;
            let wanted = above + if column <= length {
                column
            } else {
                length
            };
            &&& lands(editor.content, editor.moved_to(editor.offset_above()).cursor(), wanted)
            &&& lands(editor.content, editor.selected_to(editor.offset_above()).cursor(), wanted)
            &&& on_boundary(editor.content, wanted) ==> editor.moved_to(
                editor.offset_above(),
            ).cursor() == wanted
        }),
{
    let cursor = editor.cursor();
    lemma_cursor(editor);
    lemma_line_here(editor, start, end, cursor);
    lemma_newline_byte(editor.content, start - 1);
    lemma_line_here(editor, above, start - 1, start - 1);
    let wanted = editor.offset_above();
    lemma_landed(editor.content, wanted);
    lemma_clamped(editor.content, crate::text::clamped(editor.content, wanted));
}

/// Going down keeps the column in the same way.
pub proof fn going_down_keeps_the_column(
    editor: EditorView,
    start: int,
    end: int,
    below_end: int,
)
    requires
        editor.wf(),
        is_line(encode_utf8(editor.content), start, end),
        is_line(encode_utf8(editor.content), end + 1, below_end),
        start <= editor.cursor() <= end,
    ensures
        ({
            let column = editor.cursor() - start;
            let length = below_end - (end + 1);
            let wanted = end + 1 + if column <= length {
                column
            } else {
                length
            };
            &&& lands(editor.content, editor.moved_to(editor.offset_below()).cursor(), wanted)
            &&& lands(editor.content, editor.selected_to(editor.offset_below()).cursor(), wanted)
            &&& on_boundary(editor.content, wanted) ==> editor.moved_to(
                editor.offset_below(),
            ).cursor() == wanted
        }),
{
    let cursor = editor.cursor();
    lemma_cursor(editor);
    lemma_line_here(editor, start, end, cursor);
    lemma_newline_byte(editor.content, end);
    lemma_line_here(editor, end + 1, below_end, end + 1);
    let wanted = editor.offset_below();
    lemma_landed(editor.content, wanted);
    lemma_clamped(editor.content, crate::text::clamped(editor.content, wanted));
}

/// On the first line there is nothing above: going up goes to the start of the text. On the
/// last line going down goes to its end.
pub proof fn the_first_and_the_last_line_end_the_text(editor: EditorView, start: int, end: int)
    requires
        editor.wf(),
        is_line(encode_utf8(editor.content), start, end),
        start <= editor.cursor() <= end,
    ensures
        start == 0 ==> editor.moved_to(editor.offset_above()).cursor() == 0,
        end == utf8_len(editor.content) ==> editor.moved_to(editor.offset_below()).cursor()
            == utf8_len(editor.content),
{
    lemma_cursor(editor);
    lemma_line_here(editor, start, end, editor.cursor());
    lemma_ends_are_boundaries(editor.content);
    lemma_clamped(editor.content, 0);
    lemma_clamped(editor.content, utf8_len(editor.content) as int);
}

/// Between two lines of the same length, going up and then down brings the caret back, and
/// so does going down and then up.
pub proof fn up_and_down_undo_each_other(editor: EditorView, above: int, start: int, end: int)
    requires
        editor.wf(),
        is_line(encode_utf8(editor.content), above, start - 1),
        is_line(encode_utf8(editor.content), start, end),
        end - start == start - 1 - above,
        editor.moved_to(editor.offset_above()).wf(),
        editor.moved_to(editor.offset_below()).wf(),
    ensures
        start <= editor.cursor() <= end && on_boundary(
            editor.content,
            above + (editor.cursor() - start),
        ) ==> ({
            let up = editor.moved_to(editor.offset_above());
            up.moved_to(up.offset_below()).cursor() == editor.cursor()
        }),
        above <= editor.cursor() <= start - 1 && on_boundary(
            editor.content,
            start + (editor.cursor() - above),
        ) ==> ({
            let down = editor.moved_to(editor.offset_below());
            down.moved_to(down.offset_above()).cursor() == editor.cursor()
        }),
{
    lemma_cursor(editor);
    if start <= editor.cursor() <= end && on_boundary(
        editor.content,
        above + (editor.cursor() - start),
    ) {
        going_up_keeps_the_column(editor, above, start, end);
        let up = editor.moved_to(editor.offset_above());
        going_down_keeps_the_column(up, above, start - 1, end);
    }
    if above <= editor.cursor() <= start - 1 && on_boundary(
        editor.content,
        start + (editor.cursor() - above),
    ) {
        going_down_keeps_the_column(editor, above, start - 1, end);
        let down = editor.moved_to(editor.offset_below());
        going_up_keeps_the_column(down, above, start, end);
    }
}

// -- selecting ---------------------------------------------------------------------

/// Selecting to a place selects exactly what lies between there and the end that does not
/// move, and changes no text.
pub proof fn selecting_reaches_the_place(editor: EditorView, offset: int)
    requires
        editor.wf(),
        on_boundary(editor.content, offset),
    ensures
        ({
            let anchor = if editor.reversed {
                editor.selected.end
            } else {
                editor.selected.start
            };
            let after = editor.selected_to(offset);
            &&& after.cursor() == offset
            &&& after.selected.start == if anchor <= offset {
                anchor
            } else {
                offset
            }
            &&& after.selected.end == if anchor <= offset {
                offset
            } else {
                anchor
            }
            &&& after.content == editor.content
        }),
{
    let _ = lemma_boundary_prefix(editor.content, offset);
    lemma_clamped(editor.content, offset);
    lemma_clamped(editor.content, editor.selected.start);
    lemma_clamped(editor.content, editor.selected.end);
}

// -- clusters ------------------------------------------------------------------------

/// Whether offsets stand in order.
pub open spec fn in_order(starts: Seq<usize>) -> bool {
    forall|i: int, j: int| 0 <= i < j < starts.len() ==> starts[i] < starts[j]
}

/// A step to the left goes to the nearest cluster that begins before the caret, or to the
/// start of the text where none does.
pub proof fn a_step_left_skips_no_cluster(starts: Seq<usize>, offset: int, index: int)
    requires
        in_order(starts),
        0 <= index < starts.len(),
    ensures
        starts[index] < offset ==> starts[index] <= last_start_below(starts, offset) < offset,
        (forall|i: int| 0 <= i < starts.len() ==> #[trigger] starts[i] >= offset)
            ==> last_start_below(starts, offset) == 0,
        last_start_below(starts, offset) == 0 || exists|i: int|
            0 <= i < starts.len() && #[trigger] starts[i] == last_start_below(starts, offset),
    decreases starts.len(),
{
    let rest = starts.drop_last();
    if starts.last() < offset {
        assert(starts[starts.len() - 1] == starts.last());
        if index < starts.len() - 1 {
            assert(starts[index] < starts[starts.len() - 1]);
        }
    } else {
        assert(starts[starts.len() - 1] >= offset);
        if index < rest.len() {
            a_step_left_skips_no_cluster(rest, offset, index);
            assert(rest[index] == starts[index]);
            if last_start_below(rest, offset) != 0 {
                let i = choose|i: int|
                    0 <= i < rest.len() && #[trigger] rest[i] == last_start_below(rest, offset);
                assert(starts[i] == last_start_below(starts, offset));
            }
        } else if rest.len() > 0 {
            a_step_left_skips_no_cluster(rest, offset, 0);
            if last_start_below(rest, offset) != 0 {
                let i = choose|i: int|
                    0 <= i < rest.len() && #[trigger] rest[i] == last_start_below(rest, offset);
                assert(starts[i] == last_start_below(starts, offset));
            }
        }
        if forall|i: int| 0 <= i < starts.len() ==> #[trigger] starts[i] >= offset {
            assert forall|i: int| 0 <= i < rest.len() implies #[trigger] rest[i] >= offset by {
                assert(rest[i] == starts[i]);
            }
        }
    }
}

/// A step to the right goes to the nearest cluster that begins behind the caret, or to the
/// end of the text where none does.
pub proof fn a_step_right_skips_no_cluster(
    starts: Seq<usize>,
    offset: int,
    end: int,
    index: int,
)
    requires
        in_order(starts),
        0 <= index < starts.len(),
    ensures
        starts[index] > offset ==> offset < first_start_above(starts, offset, end)
            <= starts[index],
        (forall|i: int| 0 <= i < starts.len() ==> #[trigger] starts[i] <= offset)
            ==> first_start_above(starts, offset, end) == end,
        first_start_above(starts, offset, end) == end || exists|i: int|
            0 <= i < starts.len() && #[trigger] starts[i] == first_start_above(starts, offset, end),
    decreases starts.len(),
{
    let rest = starts.drop_first();
    if starts[0] > offset {
        if index > 0 {
            assert(starts[0] < starts[index]);
        }
    } else if rest.len() > 0 {
        let at = if index > 0 {
            index - 1
        } else {
            0
        };
        a_step_right_skips_no_cluster(rest, offset, end, at);
        assert(rest[at] == starts[at + 1]);
        if first_start_above(rest, offset, end) != end {
            let i = choose|i: int|
                0 <= i < rest.len() && #[trigger] rest[i] == first_start_above(rest, offset, end);
            assert(starts[i + 1] == first_start_above(starts, offset, end));
        }
        if forall|i: int| 0 <= i < starts.len() ==> #[trigger] starts[i] <= offset {
            assert forall|i: int| 0 <= i < rest.len() implies #[trigger] rest[i] <= offset by {
                assert(rest[i] == starts[i + 1]);
            }
        }
    }
}

/// With nothing selected, Backspace takes away exactly the text between the cluster before
/// the caret and the caret, and the caret stands where that text began. What is selected
/// goes in its place, and nothing else does.
pub proof fn backspace_takes_one_cluster(editor: EditorView)
    requires
        editor.wf(),
        editor.marked is None,
        on_boundary(
            editor.content,
            last_start_below(grapheme_starts(editor.content), editor.cursor()),
        ),
        last_start_below(grapheme_starts(editor.content), editor.cursor()) <= editor.cursor(),
    ensures
        ({
            let from = if editor.selected.start == editor.selected.end {
                last_start_below(grapheme_starts(editor.content), editor.cursor())
            } else {
                editor.selected.start
            };
            let after = editor.backspaced();
            &&& after.content == text_before(editor.content, from) + text_from(
                editor.content,
                editor.selected.end,
            )
            &&& after.selected == (Span { start: from, end: from })
        }),
{
    lemma_cursor(editor);
    let from = last_start_below(grapheme_starts(editor.content), editor.cursor());
    selecting_reaches_the_place(editor, from);
    lemma_erased(
        if editor.nothing_selected() {
            editor.selected_to(from)
        } else {
            editor
        },
    );
}

/// With nothing selected, Delete takes away exactly the text from the caret to the cluster
/// behind it, and the caret stays. What is selected goes in its place, and nothing else
/// does.
pub proof fn delete_takes_one_cluster(editor: EditorView)
    requires
        editor.wf(),
        editor.marked is None,
        ({
            let to = first_start_above(
                grapheme_starts(editor.content),
                editor.cursor(),
                utf8_len(editor.content) as int,
            );
            on_boundary(editor.content, to) && to >= editor.cursor()
        }),
    ensures
        ({
            let to = if editor.selected.start == editor.selected.end {
                first_start_above(
                    grapheme_starts(editor.content),
                    editor.cursor(),
                    utf8_len(editor.content) as int,
                )
            } else {
                editor.selected.end
            };
            let after = editor.deleted();
            &&& after.content == text_before(editor.content, editor.selected.start) + text_from(
                editor.content,
                to,
            )
            &&& after.selected == (Span {
                start: editor.selected.start,
                end: editor.selected.start,
            })
        }),
{
    lemma_cursor(editor);
    let to = first_start_above(
        grapheme_starts(editor.content),
        editor.cursor(),
        utf8_len(editor.content) as int,
    );
    selecting_reaches_the_place(editor, to);
    lemma_erased(
        if editor.nothing_selected() {
            editor.selected_to(to)
        } else {
            editor
        },
    );
}

proof fn lemma_erased(editor: EditorView)
    requires
        editor.marked is None,
        editor.selected.fits(editor.content),
    ensures
        editor.replaced(None, seq![]).content == text_before(
            editor.content,
            editor.selected.start,
        ) + text_from(editor.content, editor.selected.end),
        editor.replaced(None, seq![]).selected == (Span {
            start: editor.selected.start,
            end: editor.selected.start,
        }),
{
    reveal(Seq::filter);
    assert(editor.entered(seq![]) =~= seq![]);
    assert(utf8_len(Seq::<char>::empty()) == 0);
    let before = text_before(editor.content, editor.selected.start);
    assert(before + seq![] =~= before);
}

// -- typing --------------------------------------------------------------------------

/// A field of several lines takes a text as it is.
pub proof fn a_field_of_lines_takes_text_as_it_is(editor: EditorView, new_text: Seq<char>)
    requires
        !editor.single_line,
    ensures
        editor.entered(new_text) == new_text,
        editor.filled(new_text).content == new_text,
{
}

/// Putting a text on one line drops its line breaks and nothing else: what stands on
/// either side of a character stays in its order, a line break leaves nothing, and any
/// other character stays.
pub proof fn one_line_drops_breaks_alone(left: Seq<char>, character: char, right: Seq<char>)
    ensures
        single_line_of(left + right) == single_line_of(left) + single_line_of(right),
        single_line_of(seq![character]) == if character == '\r' || character == '\n' {
            Seq::<char>::empty()
        } else {
            seq![character]
        },
{
    let kept = |character: char| stays_on_line(character);
    Seq::<char>::filter_distributes_over_add(left, right, kept);
    reveal(Seq::filter);
    let one = seq![character];
    assert(one.drop_last() =~= Seq::<char>::empty());
    assert(Seq::<char>::empty().filter(kept) =~= Seq::<char>::empty());
    assert(one.drop_last().filter(kept) =~= Seq::<char>::empty());
    assert(one.last() == character);
    assert(one.filter(kept) == if kept(character) {
        one.drop_last().filter(kept).push(character)
    } else {
        one.drop_last().filter(kept)
    });
    assert(single_line_of(seq![character]) =~= if character == '\r' || character == '\n' {
        Seq::<char>::empty()
    } else {
        seq![character]
    });
}

/// An edit that names a range replaces that range; one that names none replaces the text
/// being composed, and the selection only where nothing is being composed.
pub proof fn composed_text_goes_before_the_selection(editor: EditorView)
    ensures
        editor.marked matches Some(marked) ==> editor.edited_span(None) == marked,
        editor.marked is None ==> editor.edited_span(None) == editor.selected,
{
}

/// A new text replaces everything, and the caret stands behind it.
pub proof fn a_new_text_replaces_everything(editor: EditorView, text: Seq<char>)
    ensures
        ({
            let after = editor.filled(text);
            &&& after.content == editor.entered(text)
            &&& after.selected.start == after.selected.end == utf8_len(after.content)
            &&& after.marked is None
        }),
{
}

/// What an input method composes can be read back from the marked range, the text around it
/// is as it was, and the selection lies inside it.
pub proof fn composed_text_can_be_read_back(
    editor: EditorView,
    range_utf16: Option<Span>,
    new_text: Seq<char>,
    selected_utf16: Option<Span>,
)
    requires
        editor.wf(),
        editor.entered(new_text).len() > 0,
    ensures
        ({
            let range = editor.edited_span(range_utf16);
            let after = editor.marked_with(range_utf16, new_text, selected_utf16);
            &&& after.marked is Some
            &&& after.marked->0.start == range.start
            &&& text_between(after.content, after.marked->0.start, after.marked->0.end)
                == editor.entered(new_text)
            &&& text_before(after.content, range.start) == text_before(editor.content, range.start)
            &&& text_from(after.content, after.marked->0.end) == text_from(
                editor.content,
                range.end,
            )
            &&& selected_utf16 is None ==> after.selected == (Span {
                start: after.marked->0.end,
                end: after.marked->0.end,
            })
            &&& after.marked->0.start <= after.selected.start <= after.selected.end
                <= after.marked->0.end
        }),
{
    every_edit_has_a_range(editor, range_utf16);
    an_edit_can_be_read_back(editor, range_utf16, new_text);
    let after = editor.marked_with(range_utf16, new_text, selected_utf16);
    let typed = editor.replaced(range_utf16, new_text);
    assert(after.content == typed.content);
    match selected_utf16 {
        Some(units) => {
            let entered = editor.entered(new_text);
            crate::text::utf16_offsets_land_on_boundaries(entered, units.start);
            crate::text::utf16_offsets_land_on_boundaries(entered, units.end);
        },
        None => {},
    }
}

/// The selection that comes with composed text is counted from the start of that text, in
/// UTF-16.
pub proof fn a_composed_selection_is_counted_from_its_text(
    editor: EditorView,
    range_utf16: Option<Span>,
    new_text: Seq<char>,
    from: int,
    to: int,
)
    requires
        editor.wf(),
        on_boundary(editor.entered(new_text), from),
        on_boundary(editor.entered(new_text), to),
        from <= to,
    ensures
        ({
            let entered = editor.entered(new_text);
            let units = Span {
                start: utf16_offset_of_byte(entered, from) as int,
                end: utf16_offset_of_byte(entered, to) as int,
            };
            let start = editor.edited_span(range_utf16).start;
            editor.marked_with(range_utf16, new_text, Some(units)).selected == (Span {
                start: start + from,
                end: start + to,
            })
        }),
{
    crate::text::offsets_round_trip(editor.entered(new_text), from);
    crate::text::offsets_round_trip(editor.entered(new_text), to);
}

/// What is committed takes the place of what was being composed: the text is as though the
/// committed text had been typed at once. So is what is composed next.
pub proof fn a_commit_replaces_the_composition(
    editor: EditorView,
    composed: Seq<char>,
    selected_utf16: Option<Span>,
    committed: Seq<char>,
)
    requires
        editor.wf(),
        editor.entered(composed).len() > 0,
    ensures
        ({
            let composing = editor.marked_with(None, composed, selected_utf16);
            &&& composing.replaced(None, committed).content == editor.replaced(
                None,
                committed,
            ).content
            &&& composing.replaced(None, committed).selected == editor.replaced(
                None,
                committed,
            ).selected
            &&& composing.replaced(None, committed).marked is None
            &&& composing.marked_with(None, committed, None).content == editor.marked_with(
                None,
                committed,
                None,
            ).content
        }),
{
    composed_text_can_be_read_back(editor, None, composed, selected_utf16);
}

/// The selection is handed to an input method in UTF-16: the units between the start of the
/// text and each of its ends.
pub proof fn the_selection_is_reported_in_units(editor: EditorView)
    requires
        editor.wf(),
    ensures
        span_to_utf16(editor.content, editor.selected) == (Span {
            start: utf16_offset_of_byte(editor.content, editor.selected.start) as int,
            end: utf16_offset_of_byte(editor.content, editor.selected.end) as int,
        }),
{
    lemma_clamped(editor.content, editor.selected.start);
    lemma_clamped(editor.content, editor.selected.end);
}

// -- the pointer and the wheel ---------------------------------------------------------

/// A pointer above the box means the start of the text, one below it the end, and one on a
/// line the byte that lies closest on that line.
pub proof fn the_pointer_means_what_lies_under_it(editor: EditorView, line: usize, closest: usize)
    requires
        editor.content.len() > 0,
        line < editor.lines.len(),
        editor.lines[line as int].byte_start + closest <= utf8_len(editor.content),
    ensures
        editor.pointed_offset(PointerHit::Above) == 0,
        editor.pointed_offset(PointerHit::Below) == utf8_len(editor.content),
        lands(
            editor.content,
            editor.pointed_offset(PointerHit::Line { line, closest }),
            editor.lines[line as int].byte_start + closest,
        ),
{
    lemma_landed(editor.content, editor.lines[line as int].byte_start + closest);
}

/// Scrolling goes as far as it is asked to, but never beyond either end of the rows, and
/// moves neither the caret nor the text.
pub proof fn scrolling_stops_at_the_ends(editor: EditorView, rows: int)
    requires
        total_rows(editor.lines) > MAX_VISIBLE_ROWS,
    ensures
        ({
            let after = editor.scrolled_by(rows);
            let last = total_rows(editor.lines) - MAX_VISIBLE_ROWS;
            let wanted = editor.scroll_row + rows;
            &&& 0 <= after.scroll_row <= last
            &&& 0 <= wanted <= last ==> after.scroll_row == wanted
            &&& wanted < 0 ==> after.scroll_row == 0
            &&& wanted > last ==> after.scroll_row == last
            &&& after.selected == editor.selected
            &&& after.content == editor.content
        }),
{
}

/// A layout leaves the text and the selection alone, and brings the caret on screen where it
/// has moved.
pub proof fn a_layout_brings_the_caret_on_screen(
    editor: EditorView,
    lines: Seq<crate::rows::LineEntry>,
)
    requires
        (EditorView { lines, ..editor }).wf(),
        editor.wraps(),
        editor.follow_cursor,
        total_rows(lines) > MAX_VISIBLE_ROWS,
    ensures
        ({
            let after = editor.laid_out(lines);
            &&& after.content == editor.content
            &&& after.selected == editor.selected
            &&& after.lines == lines
            &&& after.scroll_row <= after.caret_row() < after.scroll_row + MAX_VISIBLE_ROWS
        }),
{
    (EditorView { lines, ..editor }).showing_caret_shows_it();
}

} // verus!
