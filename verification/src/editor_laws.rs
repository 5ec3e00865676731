//! What holds of an editor across several operations.

use crate::editor::{EditorView, Span};
use crate::text::{
    lemma_boundary_in_left, lemma_boundary_survives, lemma_cut, lemma_encode_joined,
    lemma_joint_is_boundary, on_boundary, single_line_holds_no_break, single_line_of, stays_on_line,
    text_before, text_between, text_from, utf8_len,
};
use vstd::prelude::*;
use vstd::utf8::{encode_utf8, encode_utf8_decode_utf8};

verus! {

/// A text cut at two places is three texts in a row.
proof fn lemma_cut_twice(text: Seq<char>, start: int, end: int)
    requires
        start <= end,
        on_boundary(text, start),
        on_boundary(text, end),
    ensures
        text == text_before(text, start) + text_between(text, start, end) + text_from(text, end),
        encode_utf8(text_between(text, start, end)) == encode_utf8(text).subrange(start, end),
        utf8_len(text_between(text, start, end)) == end - start,
{
    lemma_cut(text, end);
    lemma_cut(text, start);
    let head = text_before(text, end);
    lemma_boundary_survives(text, start, end);
    lemma_cut(head, start);
    let bytes = encode_utf8(text);
    assert(encode_utf8(head).subrange(start, end) =~= bytes.subrange(start, end));
    assert(encode_utf8(head).subrange(0, start) =~= bytes.subrange(0, start));
    assert(text_from(head, start) == text_between(text, start, end));
    assert(text_before(head, start) == text_before(text, start));
}

/// What an edit puts in can be read back: it lies between where the edit began and the
/// caret.
pub proof fn an_edit_can_be_read_back(
    editor: EditorView,
    range_utf16: Option<Span>,
    new_text: Seq<char>,
)
    requires
        editor.wf(),
        editor.edited_span(range_utf16).fits(editor.content),
    ensures
        ({
            let after = editor.replaced(range_utf16, new_text);
            let start = editor.edited_span(range_utf16).start;
            &&& text_between(after.content, start, after.selected.start) == editor.entered(new_text)
            &&& after.selected.start == after.selected.end
            &&& text_before(after.content, start) == text_before(editor.content, start)
            &&& text_from(after.content, after.selected.end) == text_from(
                editor.content,
                editor.edited_span(range_utf16).end,
            )
        }),
{
    let range = editor.edited_span(range_utf16);
    let entered = editor.entered(new_text);
    let before = text_before(editor.content, range.start);
    let behind = text_from(editor.content, range.end);
    lemma_cut(editor.content, range.start);
    lemma_joint_is_boundary(before, entered);
    lemma_joint_is_boundary(before + entered, behind);
    lemma_boundary_in_left(before + entered, behind, range.start);
    let whole = before + entered + behind;
    let caret = range.start + utf8_len(entered);
    lemma_cut_twice(whole, range.start, caret);
    lemma_encode_joined(before + entered, behind);
    lemma_encode_joined(before, entered);
    assert(encode_utf8(whole).subrange(range.start, caret) =~= encode_utf8(entered));
    assert(encode_utf8(whole).subrange(0, range.start) =~= encode_utf8(before));
    encode_utf8_decode_utf8(entered);
    encode_utf8_decode_utf8(before);
}

/// Every range that names UTF-16 offsets, and every range the editor keeps, can be edited.
pub proof fn every_edit_has_a_range(editor: EditorView, range_utf16: Option<Span>)
    requires
        editor.wf(),
    ensures
        editor.edited_span(range_utf16).fits(editor.content),
{
    match range_utf16 {
        Some(units) => {
            crate::editor::lemma_span_from_utf16(editor.content, units);
        },
        None => {},
    }
}

/// Cutting the selection out and pasting it back leaves the text as it was, unless text
/// is being composed or the selection holds line breaks in a field that drops them.
pub proof fn cut_and_paste_restore_the_text(editor: EditorView)
    requires
        editor.wf(),
        editor.marked is None,
        editor.entered(editor.selected_text()) == editor.selected_text(),
    ensures
        editor.replaced(None, seq![]).replaced(None, editor.selected_text()).content
            == editor.content,
{
    let start = editor.selected.start;
    let end = editor.selected.end;
    lemma_cut_twice(editor.content, start, end);
    lemma_cut(editor.content, start);
    let before = text_before(editor.content, start);
    let behind = text_from(editor.content, end);
    let cut = editor.replaced(None, seq![]);
    reveal(Seq::filter);
    assert(editor.entered(seq![]) =~= seq![]);
    assert(utf8_len(Seq::<char>::empty()) == 0);
    assert(cut.content =~= before + behind);
    assert(cut.selected == (Span { start, end: start }));
    lemma_joint_is_boundary(before, behind);
    assert(cut.single_line == editor.single_line);
}

/// The end of the selection that does not move stays where it is.
pub proof fn selecting_keeps_the_anchor(editor: EditorView, offset: int)
    requires
        editor.wf(),
    ensures
        ({
            let anchor = if editor.reversed {
                editor.selected.end
            } else {
                editor.selected.start
            };
            let after = editor.selected_to(offset);
            anchor == if after.reversed {
                after.selected.end
            } else {
                after.selected.start
            }
        }),
        editor.selected_to(offset).content == editor.content,
{
}

/// Whether a text has no line breaks.
pub open spec fn on_one_line(text: Seq<char>) -> bool {
    forall|i: int| 0 <= i < text.len() ==> stays_on_line(#[trigger] text[i])
}

/// A single-line field never comes to hold a line break, whether it is typed, pasted,
/// composed or set.
pub proof fn a_single_line_stays_one(
    editor: EditorView,
    range_utf16: Option<Span>,
    new_text: Seq<char>,
    selected_utf16: Option<Span>,
)
    requires
        editor.wf(),
        editor.single_line,
        on_one_line(editor.content),
    ensures
        on_one_line(editor.replaced(range_utf16, new_text).content),
        on_one_line(editor.marked_with(range_utf16, new_text, selected_utf16).content),
        on_one_line(editor.filled(new_text).content),
{
    single_line_holds_no_break(new_text);
    every_edit_has_a_range(editor, range_utf16);
    let range = editor.edited_span(range_utf16);
    lemma_cut(editor.content, range.start);
    lemma_cut(editor.content, range.end);
    let before = text_before(editor.content, range.start);
    let behind = text_from(editor.content, range.end);
    let head = text_before(editor.content, range.end);
    assert forall|i: int| 0 <= i < before.len() implies stays_on_line(#[trigger] before[i]) by {
        assert(before[i] == editor.content[i]);
    }
    assert forall|i: int| 0 <= i < behind.len() implies stays_on_line(#[trigger] behind[i]) by {
        assert(behind[i] == editor.content[head.len() + i]);
    }
    let entered = single_line_of(new_text);
    let whole = before + entered + behind;
    assert forall|i: int| 0 <= i < whole.len() implies stays_on_line(#[trigger] whole[i]) by {
        if i < before.len() {
            assert(whole[i] == before[i]);
        } else if i < before.len() + entered.len() {
            assert(whole[i] == entered[i - before.len()]);
        } else {
            assert(whole[i] == behind[i - before.len() - entered.len()]);
        }
    }
}

/// Scrolling by hand survives the next layout; only a caret that moved brings the view
/// back.
pub proof fn manual_scrolling_survives_a_layout(
    editor: EditorView,
    rows: int,
    lines: Seq<crate::rows::LineEntry>,
)
    ensures
        editor.scrolled_by(rows).laid_out(lines).scroll_row == editor.scrolled_by(rows).scroll_row,
        !editor.scrolled_by(rows).laid_out(lines).follow_cursor,
{
}

} // verus!
