//! The text editor behind the composer and the settings fields.
//!
//! An editor holds a text, a selection and the text that an input method is still
//! composing. All offsets it stores are byte offsets that the text can be cut at,
//! whatever offsets the platform hands in.

use crate::graphemes::{
    first_start_above, grapheme_starts, last_start_below, next_boundary, previous_boundary,
};
use crate::rows::{
    after_newline_before, caret_place, caret_row, caret_row_from, find_line_start, find_newline,
    lemma_caret_row_bound, lemma_newline_from, line_holding, lines_wf, newline_from, row_count,
    rows_above, rows_before, selected_in_lines, selection_rows, total_rows, CaretPlace, LineEntry,
    MAX_VISIBLE_ROWS, SelectedRow,
};
use crate::text::{
    byte_len, byte_offset_from_utf16, byte_offset_of_utf16, clamp, clamped, lemma_boundary_in_left,
    lemma_boundary_in_right, lemma_clamped, lemma_clamped_ordered, lemma_cut,
    lemma_ends_are_boundaries, lemma_newline_byte, normalize_single_line, on_boundary,
    single_line_of, slice, splice, spliced, text_before, text_between, text_from,
    utf16_offset_from_byte, utf16_offset_of_byte, utf16_offsets_land_on_boundaries, utf8_len,
};
use core::ops::Range;
use vstd::prelude::*;
use vstd::utf8::encode_utf8;

verus! {

/// What an editor tells its owner.
#[derive(Clone, Copy, Debug, PartialEq, Eq, Structural)]
pub enum EditorEvent {
    /// Enter pressed (composer send / field commit).
    Submit,
    /// Content changed.
    Change,
}

/// A range of bytes.
pub struct Span {
    pub start: int,
    pub end: int,
}

/// A range of bytes, as a span.
pub open spec fn span(range: Range<usize>) -> Span {
    Span { start: range.start as int, end: range.end as int }
}

impl Span {
    /// Whether the span can be cut out of `text`.
    pub open spec fn fits(self, text: Seq<char>) -> bool {
        &&& 0 <= self.start <= self.end
        &&& on_boundary(text, self.start)
        &&& on_boundary(text, self.end)
    }
}

/// The span between two offsets, brought into `text` and the right way round.
pub open spec fn clamped_span(text: Seq<char>, given: Span) -> Span {
    let low = if given.start <= given.end {
        given.start
    } else {
        given.end
    };
    let high = if given.start <= given.end {
        given.end
    } else {
        given.start
    };
    Span { start: clamped(text, low), end: clamped(text, high) }
}

/// The byte span of a span of UTF-16 units.
pub open spec fn span_from_utf16(text: Seq<char>, units: Span) -> Span {
    clamped_span(
        text,
        Span {
            start: byte_offset_of_utf16(text, units.start) as int,
            end: byte_offset_of_utf16(text, units.end) as int,
        },
    )
}

/// The UTF-16 span of a span of bytes.
pub open spec fn span_to_utf16(text: Seq<char>, bytes: Span) -> Span {
    let inside = clamped_span(text, bytes);
    Span {
        start: utf16_offset_of_byte(text, inside.start) as int,
        end: utf16_offset_of_byte(text, inside.end) as int,
    }
}

/// A text field with a selection, laid out in wrapped rows.
pub struct Editor {
    pub content: String,
    pub placeholder: String,
    pub selected_range: Range<usize>,
    pub selection_reversed: bool,
    /// The text that an input method is composing.
    pub marked_range: Option<Range<usize>>,
    /// The rows of the last layout; none once the text has moved on.
    pub lines: Vec<LineEntry>,
    pub is_selecting: bool,
    /// Single-line fields hide newlines and submit on Enter.
    pub single_line: bool,
    /// Long single values may wrap visually while still rejecting line breaks.
    pub wrap_long_lines: bool,
    /// First visible wrapped row.
    pub scroll_row: usize,
    /// Set by editing and caret movement, consumed by the next layout.
    pub follow_cursor: bool,
}

/// What an editor holds.
pub struct EditorView {
    pub content: Seq<char>,
    pub placeholder: Seq<char>,
    pub selected: Span,
    pub reversed: bool,
    pub marked: Option<Span>,
    pub lines: Seq<LineEntry>,
    pub is_selecting: bool,
    pub single_line: bool,
    pub wrap_long_lines: bool,
    pub scroll_row: int,
    pub follow_cursor: bool,
}

impl View for Editor {
    type V = EditorView;

    open spec fn view(&self) -> EditorView {
        EditorView {
            content: self.content@,
            placeholder: self.placeholder@,
            selected: span(self.selected_range),
            reversed: self.selection_reversed,
            marked: match self.marked_range {
                Some(range) => Some(span(range)),
                None => None,
            },
            lines: self.lines@,
            is_selecting: self.is_selecting,
            single_line: self.single_line,
            wrap_long_lines: self.wrap_long_lines,
            scroll_row: self.scroll_row as int,
            follow_cursor: self.follow_cursor,
        }
    }
}

impl EditorView {
    /// Every range the editor keeps is usable for slicing the content.
    pub open spec fn ranges_fit(self) -> bool {
        &&& self.selected.fits(self.content)
        &&& self.marked matches Some(marked) ==> marked.fits(self.content)
    }

    pub open spec fn wf(self) -> bool {
        &&& self.ranges_fit()
        &&& lines_wf(self.lines)
        &&& self.scroll_row + MAX_VISIBLE_ROWS <= usize::MAX
    }

    /// Whether long lines are wrapped at the editor's width.
    pub open spec fn wraps(self) -> bool {
        !self.single_line || self.wrap_long_lines
    }

    /// The end of the selection that moves.
    pub open spec fn cursor(self) -> int {
        clamped(
            self.content,
            if self.reversed {
                self.selected.start
            } else {
                self.selected.end
            },
        )
    }

    pub open spec fn line_start(self, offset: int) -> int {
        after_newline_before(encode_utf8(self.content), clamped(self.content, offset))
    }

    pub open spec fn line_end(self, offset: int) -> int {
        newline_from(encode_utf8(self.content), clamped(self.content, offset))
    }

    pub open spec fn previous_boundary(self, offset: int) -> int {
        last_start_below(grapheme_starts(self.content), offset)
    }

    pub open spec fn next_boundary(self, offset: int) -> int {
        first_start_above(
            grapheme_starts(self.content),
            offset,
            utf8_len(self.content) as int,
        )
    }

    pub open spec fn caret_row(self) -> int {
        caret_row_from(self.lines, 0, self.cursor())
    }

    /// The first visible row once the caret is brought on screen.
    pub open spec fn scroll_showing_caret(self) -> int {
        if !self.wraps() {
            self.scroll_row
        } else if total_rows(self.lines) <= MAX_VISIBLE_ROWS {
            0
        } else if self.caret_row() < self.scroll_row {
            self.caret_row()
        } else if self.caret_row() >= self.scroll_row + MAX_VISIBLE_ROWS {
            self.caret_row() + 1 - MAX_VISIBLE_ROWS
        } else {
            self.scroll_row
        }
    }

    /// The editor with the caret on screen.
    pub open spec fn showing_caret(self) -> EditorView {
        EditorView { scroll_row: self.scroll_showing_caret(), ..self }
    }

    /// The editor with the caret at `offset` and nothing selected.
    pub open spec fn moved_to(self, offset: int) -> EditorView {
        let at = clamped(self.content, offset);
        (EditorView {
            selected: Span { start: at, end: at },
            reversed: false,
            follow_cursor: true,
            ..self
        }).showing_caret()
    }

    /// The editor with the moving end of its selection at `offset`. Where the ends cross,
    /// the other end becomes the moving one.
    pub open spec fn selected_to(self, offset: int) -> EditorView {
        let at = clamped(self.content, offset);
        let fixed = if self.reversed {
            self.selected.end
        } else {
            self.selected.start
        };
        let crossed = if self.reversed {
            fixed < at
        } else {
            at < fixed
        };
        (EditorView {
            selected: if fixed <= at {
                Span { start: fixed, end: at }
            } else {
                Span { start: at, end: fixed }
            },
            reversed: if crossed {
                !self.reversed
            } else {
                self.reversed
            },
            follow_cursor: true,
            ..self
        }).showing_caret()
    }

    /// What an edit replaces: the range it names, else the text being composed, else the
    /// selection.
    pub open spec fn edited_span(self, range_utf16: Option<Span>) -> Span {
        match range_utf16 {
            Some(units) => span_from_utf16(self.content, units),
            None => match self.marked {
                Some(marked) => marked,
                None => self.selected,
            },
        }
    }

    /// The text that an edit puts in: without its line breaks in a single-line field.
    pub open spec fn entered(self, new_text: Seq<char>) -> Seq<char> {
        if self.single_line {
            single_line_of(new_text)
        } else {
            new_text
        }
    }

    /// The editor after an edit: the caret stands behind the new text, and the layout is
    /// gone.
    pub open spec fn replaced(self, range_utf16: Option<Span>, new_text: Seq<char>) -> EditorView {
        let range = self.edited_span(range_utf16);
        let entered = self.entered(new_text);
        let caret = range.start + utf8_len(entered);
        (EditorView {
            content: spliced(self.content, range.start, range.end, entered),
            selected: Span { start: caret, end: caret },
            marked: None,
            lines: seq![],
            follow_cursor: true,
            ..self
        }).showing_caret()
    }

    /// The editor after an input method composed `new_text`: the text is marked, and the
    /// selection is measured from the start of it.
    pub open spec fn marked_with(
        self,
        range_utf16: Option<Span>,
        new_text: Seq<char>,
        selected_utf16: Option<Span>,
    ) -> EditorView {
        let range = self.edited_span(range_utf16);
        let entered = self.entered(new_text);
        let content = spliced(self.content, range.start, range.end, entered);
        let end = range.start + utf8_len(entered);
        EditorView {
            content,
            marked: if entered.len() == 0 {
                None
            } else {
                Some(Span { start: range.start, end })
            },
            selected: match selected_utf16 {
                Some(units) => {
                    let from = byte_offset_of_utf16(entered, units.start) as int;
                    let to = byte_offset_of_utf16(entered, units.end) as int;
                    Span {
                        start: range.start + from,
                        end: range.start + if to < from {
                            from
                        } else {
                            to
                        },
                    }
                },
                None => Span { start: end, end },
            },
            ..self
        }
    }
}

// -- what every operation keeps ------------------------------------------------

proof fn lemma_span_clamped(text: Seq<char>, given: Span)
    requires
        0 <= given.start,
        0 <= given.end,
    ensures
        clamped_span(text, given).fits(text),
        clamped_span(text, given).end <= utf8_len(text),
        given.fits(text) ==> clamped_span(text, given) == given,
{
    let low = if given.start <= given.end {
        given.start
    } else {
        given.end
    };
    let high = if given.start <= given.end {
        given.end
    } else {
        given.start
    };
    lemma_clamped(text, low);
    lemma_clamped(text, high);
    lemma_clamped_ordered(text, low, high);
}

pub proof fn lemma_span_from_utf16(text: Seq<char>, units: Span)
    ensures
        span_from_utf16(text, units).fits(text),
        span_from_utf16(text, units).end <= utf8_len(text),
{
    utf16_offsets_land_on_boundaries(text, units.start);
    utf16_offsets_land_on_boundaries(text, units.end);
    lemma_span_clamped(
        text,
        Span {
            start: byte_offset_of_utf16(text, units.start) as int,
            end: byte_offset_of_utf16(text, units.end) as int,
        },
    );
}

impl EditorView {
    /// Bringing the caret on screen puts its row inside the visible window, once there
    /// are more rows than the box shows.
    pub proof fn showing_caret_shows_it(self)
        requires
            self.wf(),
            self.wraps(),
            total_rows(self.lines) > MAX_VISIBLE_ROWS,
        ensures
            self.showing_caret().scroll_row <= self.caret_row() < self.showing_caret().scroll_row
                + MAX_VISIBLE_ROWS,
            self.showing_caret().caret_row() == self.caret_row(),
    {
    }

    proof fn lemma_showing_caret_wf(self)
        requires
            self.ranges_fit(),
            lines_wf(self.lines),
            self.scroll_row + MAX_VISIBLE_ROWS <= usize::MAX,
            0 <= self.scroll_row,
        ensures
            self.showing_caret().wf(),
            0 <= self.scroll_showing_caret(),
    {
        lemma_caret_row_bound(self.lines, 0, self.cursor());
    }

    proof fn lemma_replaced_fits(self, range: Span, new_text: Seq<char>)
        requires
            self.wf(),
            range.fits(self.content),
        ensures
            on_boundary(spliced(self.content, range.start, range.end, new_text), range.start),
            forall|at: int|
                on_boundary(new_text, at) ==> on_boundary(
                    spliced(self.content, range.start, range.end, new_text),
                    range.start + #[trigger] clamped(new_text, at),
                ),
    {
        lemma_cut(self.content, range.start);
        let before = text_before(self.content, range.start);
        let after = text_from(self.content, range.end);
        lemma_ends_are_boundaries(before);
        lemma_boundary_in_left(before, new_text, range.start);
        lemma_boundary_in_left(before + new_text, after, range.start);
        assert forall|at: int| on_boundary(new_text, at) implies on_boundary(
            spliced(self.content, range.start, range.end, new_text),
            range.start + #[trigger] clamped(new_text, at),
        ) by {
            lemma_boundary_in_right(before, new_text, at);
            lemma_clamped(new_text, at);
            lemma_boundary_in_left(before + new_text, after, range.start + at);
        }
    }
}

impl Editor {
    fn new_with(single_line: bool, wrap_long_lines: bool) -> (editor: Editor)
        ensures
            editor@ == EditorView::fresh(single_line, wrap_long_lines),
            editor@.wf(),
    {
        proof {
            lemma_ends_are_boundaries(Seq::<char>::empty());
        }
        let editor = Editor {
            content: String::new(),
            placeholder: "Type here…".to_owned(),
            selected_range: 0..0,
            selection_reversed: false,
            marked_range: None,
            lines: Vec::new(),
            is_selecting: false,
            single_line,
            wrap_long_lines,
            scroll_row: 0,
            follow_cursor: true,
        };
        assert(editor@.lines =~= seq![]);
        editor
    }

    /// A multi-line editor.
    pub fn new() -> (editor: Editor)
        ensures
            editor@ == EditorView::fresh(false, true),
            editor@.wf(),
    {
        Self::new_with(false, true)
    }

    /// A field of one line that scrolls sideways.
    pub fn single_line() -> (editor: Editor)
        ensures
            editor@ == EditorView::fresh(true, false),
            editor@.wf(),
    {
        Self::new_with(true, false)
    }

    /// A field of one value that may wrap.
    pub fn wrapped_single_line() -> (editor: Editor)
        ensures
            editor@ == EditorView::fresh(true, true),
            editor@.wf(),
    {
        Self::new_with(true, true)
    }

    pub fn set_placeholder(&mut self, placeholder: String)
        requires
            old(self)@.wf(),
        ensures
            final(self)@ == (EditorView {
                placeholder: placeholder@,
                lines: seq![],
                ..old(self)@
            }),
            final(self)@.wf(),
    {
        self.placeholder = placeholder;
        self.lines.clear();
        assert(self@.lines =~= seq![]);
    }

    pub fn text(&self) -> (text: &str)
        ensures
            text@ == self@.content,
    {
        self.content.as_str()
    }

    /// Put `text` in place of everything, with the caret behind it.
    pub fn set_text(&mut self, text: String)
        requires
            old(self)@.wf(),
        ensures
            final(self)@ == old(self)@.filled(text@),
            final(self)@.wf(),
    {
        self.content = if self.single_line {
            normalize_single_line(text.as_str())
        } else {
            text
        };
        let len: usize = byte_len(self.content.as_str());
        self.selected_range = len..len;
        self.selection_reversed = false;
        self.marked_range = None;
        self.lines.clear();
        self.scroll_row = 0;
        self.follow_cursor = true;
        proof {
            lemma_ends_are_boundaries(self.content@);
            assert(self@.lines =~= seq![]);
        }
    }

    pub fn clear(&mut self)
        requires
            old(self)@.wf(),
        ensures
            final(self)@ == old(self)@.filled(Seq::empty()),
            final(self)@.wf(),
    {
        self.set_text(String::new());
    }

    // -- movement ---------------------------------------------------------------

    /// Put the caret at `offset`, brought into the content.
    pub fn move_to(&mut self, offset: usize)
        requires
            old(self)@.wf(),
        ensures
            final(self)@ == old(self)@.moved_to(offset as int),
            final(self)@.wf(),
    {
        let at: usize = self.clamp(offset);
        self.selected_range = at..at;
        self.selection_reversed = false;
        self.follow_cursor = true;
        self.ensure_cursor_visible();
    }

    /// The end of the selection that moves.
    pub fn cursor_offset(&self) -> (cursor: usize)
        ensures
            cursor == self@.cursor(),
            on_boundary(self@.content, cursor as int),
            cursor <= utf8_len(self@.content),
    {
        let offset: usize = if self.selection_reversed {
            self.selected_range.start
        } else {
            self.selected_range.end
        };
        self.clamp(offset)
    }

    /// Move one end of the selection to `offset`, brought into the content.
    pub fn select_to(&mut self, offset: usize)
        requires
            old(self)@.wf(),
        ensures
            final(self)@ == old(self)@.selected_to(offset as int),
            final(self)@.wf(),
    {
        let at: usize = self.clamp(offset);
        if self.selection_reversed {
            self.selected_range = at..self.selected_range.end;
        } else {
            self.selected_range = self.selected_range.start..at;
        }
        if self.selected_range.end < self.selected_range.start {
            self.selection_reversed = !self.selection_reversed;
            self.selected_range = self.selected_range.end..self.selected_range.start;
        }
        self.follow_cursor = true;
        self.ensure_cursor_visible();
    }

    /// Clamp `offset` into the content and onto a character boundary.
    pub fn clamp(&self, offset: usize) -> (at: usize)
        ensures
            at == clamped(self@.content, offset as int),
            on_boundary(self@.content, at as int),
            at <= utf8_len(self@.content),
    {
        proof {
            lemma_clamped(self.content@, offset as int);
        }
        clamp(self.content.as_str(), offset)
    }

    /// The same for both ends of a range, which is turned the right way round.
    pub fn clamp_range(&self, range: Range<usize>) -> (inside: Range<usize>)
        ensures
            span(inside) == clamped_span(self@.content, span(range)),
            span(inside).fits(self@.content),
    {
        proof {
            lemma_span_clamped(self.content@, span(range));
        }
        let (low, high): (usize, usize) = if range.start <= range.end {
            (range.start, range.end)
        } else {
            (range.end, range.start)
        };
        self.clamp(low)..self.clamp(high)
    }

    /// Start-of-line index.
    pub fn line_start(&self, offset: usize) -> (start: usize)
        ensures
            start == self@.line_start(offset as int),
            start <= clamped(self@.content, offset as int),
    {
        find_line_start(self.content.as_str(), self.clamp(offset))
    }

    /// End-of-line index, before the newline itself.
    pub fn line_end(&self, offset: usize) -> (end: usize)
        ensures
            end == self@.line_end(offset as int),
            clamped(self@.content, offset as int) <= end <= utf8_len(self@.content),
    {
        find_newline(self.content.as_str(), self.clamp(offset))
    }

    /// The beginning of the user-perceived character before `offset`.
    pub fn previous_boundary(&self, offset: usize) -> (start: usize)
        ensures
            start == self@.previous_boundary(offset as int),
            start <= offset,
            on_boundary(self@.content, start as int),
    {
        previous_boundary(self.content.as_str(), offset)
    }

    /// The beginning of the user-perceived character after `offset`, or the end.
    pub fn next_boundary(&self, offset: usize) -> (start: usize)
        ensures
            start == self@.next_boundary(offset as int),
            on_boundary(self@.content, start as int),
    {
        next_boundary(self.content.as_str(), offset)
    }

    // -- UTF-16 -------------------------------------------------------------------

    pub fn offset_from_utf16(&self, offset: usize) -> (at: usize)
        ensures
            at == byte_offset_of_utf16(self@.content, offset as int),
    {
        byte_offset_from_utf16(self.content.as_str(), offset)
    }

    pub fn offset_to_utf16(&self, offset: usize) -> (units: usize)
        ensures
            units == utf16_offset_of_byte(
                self@.content,
                clamped(self@.content, offset as int),
            ),
    {
        utf16_offset_from_byte(self.content.as_str(), self.clamp(offset))
    }

    pub fn range_to_utf16(&self, range: Range<usize>) -> (units: Range<usize>)
        ensures
            span(units) == span_to_utf16(self@.content, span(range)),
    {
        let inside: Range<usize> = self.clamp_range(range);
        proof {
            lemma_clamped(self.content@, inside.start as int);
            lemma_clamped(self.content@, inside.end as int);
        }
        self.offset_to_utf16(inside.start)..self.offset_to_utf16(inside.end)
    }

    pub fn range_from_utf16(&self, units: Range<usize>) -> (range: Range<usize>)
        ensures
            span(range) == span_from_utf16(self@.content, span(units)),
            span(range).fits(self@.content),
    {
        proof {
            lemma_span_from_utf16(self.content@, span(units));
        }
        self.clamp_range(self.offset_from_utf16(units.start)..self.offset_from_utf16(units.end))
    }

    // -- rows ---------------------------------------------------------------------

    /// Rows the content would paint in total.
    pub fn total_rows(&self) -> (rows: usize)
        requires
            self@.wf(),
        ensures
            rows == total_rows(self@.lines),
    {
        row_count(&self.lines)
    }

    /// Rows of the lines before line `up_to`.
    pub fn rows_above(&self, up_to: usize) -> (rows: usize)
        requires
            self@.wf(),
        ensures
            rows == rows_before(self@.lines, up_to as int),
    {
        rows_above(&self.lines, up_to)
    }

    /// The wrapped row the caret sits on.
    pub fn caret_row(&self) -> (row: usize)
        requires
            self@.wf(),
        ensures
            row == self@.caret_row(),
            row <= total_rows(self@.lines),
    {
        caret_row(&self.lines, self.cursor_offset())
    }

    /// Keep the caret row on screen once the content outgrows the box.
    pub fn ensure_cursor_visible(&mut self)
        requires
            old(self)@.wf(),
        ensures
            final(self)@ == old(self)@.showing_caret(),
            final(self)@.wf(),
    {
        if self.single_line && !self.wrap_long_lines {
            return;
        }
        if self.total_rows() <= MAX_VISIBLE_ROWS {
            self.scroll_row = 0;
            return;
        }
        let caret: usize = self.caret_row();
        if caret < self.scroll_row {
            self.scroll_row = caret;
        } else if caret >= self.scroll_row + MAX_VISIBLE_ROWS {
            self.scroll_row = caret + 1 - MAX_VISIBLE_ROWS;
        }
    }
}

impl EditorView {
    /// An editor that holds nothing yet.
    pub open spec fn fresh(single_line: bool, wrap_long_lines: bool) -> EditorView {
        EditorView {
            content: seq![],
            placeholder: "Type here…"@,
            selected: Span { start: 0, end: 0 },
            reversed: false,
            marked: None,
            lines: seq![],
            is_selecting: false,
            single_line,
            wrap_long_lines,
            scroll_row: 0,
            follow_cursor: true,
        }
    }

    /// The editor with `text` in place of everything.
    pub open spec fn filled(self, text: Seq<char>) -> EditorView {
        let entered = self.entered(text);
        EditorView {
            content: entered,
            selected: Span { start: utf8_len(entered) as int, end: utf8_len(entered) as int },
            reversed: false,
            marked: None,
            lines: seq![],
            scroll_row: 0,
            follow_cursor: true,
            ..self
        }
    }
}

// -- editing -------------------------------------------------------------------

impl EditorView {
    pub open spec fn nothing_selected(self) -> bool {
        self.selected.start == self.selected.end
    }

    /// The editor after Backspace: the selection goes, or the character before the caret.
    pub open spec fn backspaced(self) -> EditorView {
        let reaching = if self.nothing_selected() {
            self.selected_to(self.previous_boundary(self.cursor()))
        } else {
            self
        };
        reaching.replaced(None, seq![])
    }

    /// The editor after Delete: the selection goes, or the character after the caret.
    pub open spec fn deleted(self) -> EditorView {
        let reaching = if self.nothing_selected() {
            self.selected_to(self.next_boundary(self.cursor()))
        } else {
            self
        };
        reaching.replaced(None, seq![])
    }

    /// Where the caret goes one line up: the same column, or the end of a shorter line.
    pub open spec fn offset_above(self) -> int {
        let cursor = self.cursor();
        let start = self.line_start(cursor);
        if start == 0 {
            0
        } else {
            let above = self.line_start(start - 1);
            let column = cursor - start;
            if column < start - 1 - above {
                above + column
            } else {
                start - 1
            }
        }
    }

    /// Where the caret goes one line down: the same column, or the end of a shorter line.
    pub open spec fn offset_below(self) -> int {
        let cursor = self.cursor();
        let end = self.line_end(cursor);
        if end >= utf8_len(self.content) {
            utf8_len(self.content) as int
        } else {
            let column = cursor - self.line_start(cursor);
            let below_end = self.line_end(end + 1);
            if end + 1 + column < below_end {
                end + 1 + column
            } else {
                below_end
            }
        }
    }

    pub open spec fn selected_text(self) -> Seq<char> {
        text_between(self.content, self.selected.start, self.selected.end)
    }

    /// The furthest that the rows scroll.
    pub open spec fn max_scroll(self) -> int {
        if total_rows(self.lines) > MAX_VISIBLE_ROWS {
            total_rows(self.lines) - MAX_VISIBLE_ROWS
        } else {
            0
        }
    }

    /// The editor scrolled by whole rows, within the content.
    pub open spec fn scrolled_by(self, rows: int) -> EditorView {
        let wanted = self.scroll_row + rows;
        EditorView {
            follow_cursor: false,
            scroll_row: if wanted < 0 {
                0
            } else if wanted > self.max_scroll() {
                self.max_scroll()
            } else {
                wanted
            },
            ..self
        }
    }

    /// The editor once a layout has arrived.
    pub open spec fn laid_out(self, lines: Seq<LineEntry>) -> EditorView {
        let fresh = EditorView { lines, ..self };
        if self.follow_cursor {
            EditorView { follow_cursor: false, ..fresh.showing_caret() }
        } else {
            fresh
        }
    }
}

/// What a pointer position hits.
#[derive(Clone, Copy, Debug, PartialEq, Eq, Structural)]
pub enum PointerHit {
    /// The editor has not been painted yet.
    Unpainted,
    /// A line, and the byte of it that lies closest.
    Line { line: usize, closest: usize },
    /// Above the editor's box.
    Above,
    /// Below the last line.
    Below,
}

impl EditorView {
    /// The offset in the content that a pointer position stands for.
    pub open spec fn pointed_offset(self, hit: PointerHit) -> int {
        if self.content.len() == 0 {
            0
        } else {
            match hit {
                PointerHit::Unpainted => 0,
                PointerHit::Line { line, closest } => clamped(
                    self.content,
                    self.lines[line as int].byte_start + closest,
                ),
                PointerHit::Above => 0,
                PointerHit::Below => utf8_len(self.content) as int,
            }
        }
    }

    /// A hit names a line of the layout and a byte inside it.
    pub open spec fn can_be_hit(self, hit: PointerHit) -> bool {
        hit matches PointerHit::Line { line, closest } ==> line < self.lines.len() && closest
            <= self.lines[line as int].line.bytes()
    }
}

impl Editor {
    /// The range that an edit replaces.
    fn edited_range(&self, range_utf16: Option<Range<usize>>) -> (range: Range<usize>)
        requires
            self@.wf(),
        ensures
            span(range) == self@.edited_span(
                match range_utf16 {
                    Some(units) => Some(span(units)),
                    None => None,
                },
            ),
            span(range).fits(self@.content),
    {
        match range_utf16 {
            Some(units) => self.range_from_utf16(units),
            None => match &self.marked_range {
                Some(marked) => marked.start..marked.end,
                None => self.selected_range.start..self.selected_range.end,
            },
        }
    }

    /// Replace a range of the content, as the keyboard, the clipboard and input methods
    /// do. The range that they name wins, then the text being composed, then the
    /// selection; a stale range is brought into the content.
    pub fn replace_text_in_range(
        &mut self,
        range_utf16: Option<Range<usize>>,
        new_text: &str,
    ) -> (event: EditorEvent)
        requires
            old(self)@.wf(),
        ensures
            final(self)@ == old(self)@.replaced(
                match range_utf16 {
                    Some(units) => Some(span(units)),
                    None => None,
                },
                new_text@,
            ),
            final(self)@.wf(),
            event == EditorEvent::Change,
    {
        let entered: String = if self.single_line {
            normalize_single_line(new_text)
        } else {
            new_text.to_owned()
        };
        let range: Range<usize> = self.edited_range(range_utf16);
        let content: String = splice(
            self.content.as_str(),
            range.start,
            range.end,
            entered.as_str(),
        );
        let caret: usize = range.start + byte_len(entered.as_str());
        self.content = content;
        self.selected_range = caret..caret;
        self.marked_range = None;
        self.lines.clear();
        self.follow_cursor = true;
        assert(self@.lines =~= seq![]);
        self.ensure_cursor_visible();
        EditorEvent::Change
    }

    /// Enter a line break; a single-line field submits instead.
    pub fn insert_newline(&mut self) -> (event: EditorEvent)
        requires
            old(self)@.wf(),
        ensures
            final(self)@ == if old(self)@.single_line {
                old(self)@
            } else {
                old(self)@.replaced(None, seq!['\n'])
            },
            final(self)@.wf(),
            event == if old(self)@.single_line {
                EditorEvent::Submit
            } else {
                EditorEvent::Change
            },
    {
        if self.single_line {
            return EditorEvent::Submit;
        }
        proof {
            reveal_strlit("\n");
            assert("\n"@ =~= seq!['\n']);
        }
        self.replace_text_in_range(None, "\n")
    }

    pub fn backspace(&mut self) -> (event: EditorEvent)
        requires
            old(self)@.wf(),
        ensures
            final(self)@ == old(self)@.backspaced(),
            final(self)@.wf(),
            event == EditorEvent::Change,
    {
        if self.selected_range.start == self.selected_range.end {
            let offset: usize = self.previous_boundary(self.cursor_offset());
            self.select_to(offset);
        }
        self.remove_selection()
    }

    pub fn delete(&mut self) -> (event: EditorEvent)
        requires
            old(self)@.wf(),
        ensures
            final(self)@ == old(self)@.deleted(),
            final(self)@.wf(),
            event == EditorEvent::Change,
    {
        if self.selected_range.start == self.selected_range.end {
            let offset: usize = self.next_boundary(self.cursor_offset());
            self.select_to(offset);
        }
        self.remove_selection()
    }

    fn remove_selection(&mut self) -> (event: EditorEvent)
        requires
            old(self)@.wf(),
        ensures
            final(self)@ == old(self)@.replaced(None, seq![]),
            final(self)@.wf(),
            event == EditorEvent::Change,
    {
        proof {
            reveal_strlit("");
            assert(""@ =~= seq![]);
        }
        self.replace_text_in_range(None, "")
    }

    pub fn left(&mut self)
        requires
            old(self)@.wf(),
        ensures
            final(self)@ == old(self)@.moved_to(
                if old(self)@.nothing_selected() {
                    old(self)@.previous_boundary(old(self)@.cursor())
                } else {
                    old(self)@.selected.start
                },
            ),
            final(self)@.wf(),
    {
        let offset: usize = if self.selected_range.start == self.selected_range.end {
            self.previous_boundary(self.cursor_offset())
        } else {
            self.selected_range.start
        };
        self.move_to(offset);
    }

    pub fn right(&mut self)
        requires
            old(self)@.wf(),
        ensures
            final(self)@ == old(self)@.moved_to(
                if old(self)@.nothing_selected() {
                    old(self)@.next_boundary(old(self)@.selected.end)
                } else {
                    old(self)@.selected.end
                },
            ),
            final(self)@.wf(),
    {
        let offset: usize = if self.selected_range.start == self.selected_range.end {
            self.next_boundary(self.selected_range.end)
        } else {
            self.selected_range.end
        };
        self.move_to(offset);
    }

    /// Where the caret goes one line up.
    pub fn offset_above(&self) -> (offset: usize)
        ensures
            offset == self@.offset_above(),
    {
        let cursor: usize = self.cursor_offset();
        proof {
            lemma_clamped(self.content@, cursor as int);
        }
        let start: usize = self.line_start(cursor);
        if start == 0 {
            return 0;
        }
        proof {
            lemma_clamped(self.content@, start - 1);
        }
        let above: usize = self.line_start(start - 1);
        let column: usize = cursor - start;
        if column < start - 1 - above {
            above + column
        } else {
            start - 1
        }
    }

    /// Where the caret goes one line down.
    pub fn offset_below(&self) -> (offset: usize)
        ensures
            offset == self@.offset_below(),
    {
        let cursor: usize = self.cursor_offset();
        let len: usize = byte_len(self.content.as_str());
        proof {
            lemma_clamped(self.content@, cursor as int);
        }
        let end: usize = self.line_end(cursor);
        if end >= len {
            return len;
        }
        let column: usize = cursor - self.line_start(cursor);
        proof {
            lemma_newline_from(encode_utf8(self.content@), cursor as int);
            lemma_newline_byte(self.content@, end as int);
            lemma_clamped(self.content@, end + 1);
        }
        let below: usize = end + 1;
        let below_end: usize = self.line_end(below);
        if column < below_end - below {
            below + column
        } else {
            below_end
        }
    }

    pub fn up(&mut self)
        requires
            old(self)@.wf(),
        ensures
            final(self)@ == old(self)@.moved_to(old(self)@.offset_above()),
            final(self)@.wf(),
    {
        let offset: usize = self.offset_above();
        self.move_to(offset);
    }

    pub fn down(&mut self)
        requires
            old(self)@.wf(),
        ensures
            final(self)@ == old(self)@.moved_to(old(self)@.offset_below()),
            final(self)@.wf(),
    {
        let offset: usize = self.offset_below();
        self.move_to(offset);
    }

    pub fn home(&mut self)
        requires
            old(self)@.wf(),
        ensures
            final(self)@ == old(self)@.moved_to(old(self)@.line_start(old(self)@.cursor())),
            final(self)@.wf(),
    {
        let offset: usize = self.line_start(self.cursor_offset());
        self.move_to(offset);
    }

    pub fn end(&mut self)
        requires
            old(self)@.wf(),
        ensures
            final(self)@ == old(self)@.moved_to(old(self)@.line_end(old(self)@.cursor())),
            final(self)@.wf(),
    {
        let offset: usize = self.line_end(self.cursor_offset());
        self.move_to(offset);
    }

    pub fn select_left(&mut self)
        requires
            old(self)@.wf(),
        ensures
            final(self)@ == old(self)@.selected_to(
                old(self)@.previous_boundary(old(self)@.cursor()),
            ),
            final(self)@.wf(),
    {
        let offset: usize = self.previous_boundary(self.cursor_offset());
        self.select_to(offset);
    }

    pub fn select_right(&mut self)
        requires
            old(self)@.wf(),
        ensures
            final(self)@ == old(self)@.selected_to(old(self)@.next_boundary(old(self)@.cursor())),
            final(self)@.wf(),
    {
        let offset: usize = self.next_boundary(self.cursor_offset());
        self.select_to(offset);
    }

    pub fn select_up(&mut self)
        requires
            old(self)@.wf(),
        ensures
            final(self)@ == old(self)@.selected_to(old(self)@.offset_above()),
            final(self)@.wf(),
    {
        let offset: usize = self.offset_above();
        self.select_to(offset);
    }

    pub fn select_down(&mut self)
        requires
            old(self)@.wf(),
        ensures
            final(self)@ == old(self)@.selected_to(old(self)@.offset_below()),
            final(self)@.wf(),
    {
        let offset: usize = self.offset_below();
        self.select_to(offset);
    }

    pub fn select_all(&mut self)
        requires
            old(self)@.wf(),
        ensures
            final(self)@ == (EditorView {
                selected: Span { start: 0, end: utf8_len(old(self)@.content) as int },
                ..old(self)@
            }),
            final(self)@.wf(),
    {
        proof {
            lemma_ends_are_boundaries(self.content@);
        }
        self.selected_range = 0..byte_len(self.content.as_str());
    }

    /// Enter what the clipboard holds.
    pub fn paste(&mut self, clipboard: Option<&str>) -> (event: Option<EditorEvent>)
        requires
            old(self)@.wf(),
        ensures
            match clipboard {
                Some(text) => final(self)@ == old(self)@.replaced(None, text@) && event == Some(
                    EditorEvent::Change,
                ),
                None => final(self)@ == old(self)@ && event is None,
            },
            final(self)@.wf(),
    {
        match clipboard {
            Some(text) => Some(self.replace_text_in_range(None, text)),
            None => None,
        }
    }

    /// What goes to the clipboard: the selection, where there is one.
    pub fn copy(&self) -> (copied: Option<String>)
        requires
            self@.wf(),
        ensures
            match copied {
                Some(text) => !self@.nothing_selected() && text@ == self@.selected_text(),
                None => self@.nothing_selected(),
            },
    {
        if self.selected_range.start == self.selected_range.end {
            None
        } else {
            Some(
                slice(
                    self.content.as_str(),
                    self.selected_range.start,
                    self.selected_range.end,
                ),
            )
        }
    }

    /// Take the selection out and hand it to the clipboard. While text is being
    /// composed, that text is what an edit replaces.
    pub fn cut(&mut self) -> (cut: Option<(String, EditorEvent)>)
        requires
            old(self)@.wf(),
        ensures
            match cut {
                Some((text, event)) => !old(self)@.nothing_selected() && text@ == old(
                    self,
                )@.selected_text() && event == EditorEvent::Change && final(self)@ == old(
                    self,
                )@.replaced(None, seq![]),
                None => old(self)@.nothing_selected() && final(self)@ == old(self)@,
            },
            final(self)@.wf(),
    {
        match self.copy() {
            Some(text) => {
                let event: EditorEvent = self.remove_selection();
                Some((text, event))
            },
            None => None,
        }
    }

    pub fn submit(&self) -> (event: EditorEvent)
        ensures
            event == EditorEvent::Submit,
    {
        EditorEvent::Submit
    }

    // -- scrolling ------------------------------------------------------------------

    /// Scroll by whole rows, as the wheel does; typing keeps following the caret.
    pub fn scroll_by(&mut self, rows: i64)
        requires
            old(self)@.wf(),
        ensures
            final(self)@ == old(self)@.scrolled_by(rows as int),
            final(self)@.wf(),
    {
        self.follow_cursor = false;
        let total: usize = self.total_rows();
        let max_scroll: usize = if total > MAX_VISIBLE_ROWS {
            total - MAX_VISIBLE_ROWS
        } else {
            0
        };
        let wanted: i128 = self.scroll_row as i128 + rows as i128;
        self.scroll_row = if wanted < 0 {
            0
        } else if wanted > max_scroll as i128 {
            max_scroll
        } else {
            wanted as usize
        };
    }

    /// Scroll to the row that the dragged thumb stands for. Nothing moves while all rows
    /// are on screen.
    pub fn scroll_to(&mut self, row: usize)
        requires
            old(self)@.wf(),
            row + MAX_VISIBLE_ROWS <= usize::MAX,
        ensures
            final(self)@ == if total_rows(old(self)@.lines) <= MAX_VISIBLE_ROWS {
                old(self)@
            } else {
                EditorView { follow_cursor: false, scroll_row: row as int, ..old(self)@ }
            },
            final(self)@.wf(),
    {
        if self.total_rows() <= MAX_VISIBLE_ROWS {
            return;
        }
        self.follow_cursor = false;
        self.scroll_row = row;
    }

    // -- pointer --------------------------------------------------------------------

    /// How many rows below the top of the box a line begins; none for a line that begins
    /// above it, which a click cannot hit.
    pub fn visible_row_of_line(&self, line: usize) -> (row: Option<usize>)
        requires
            self@.wf(),
        ensures
            row == if rows_before(self@.lines, line as int) >= self@.scroll_row {
                Some((rows_before(self@.lines, line as int) - self@.scroll_row) as usize)
            } else {
                None
            },
    {
        let above: usize = self.rows_above(line);
        if above >= self.scroll_row {
            Some(above - self.scroll_row)
        } else {
            None
        }
    }

    /// The offset in the content that a pointer position stands for.
    pub fn index_for_mouse_position(&self, hit: PointerHit) -> (offset: usize)
        requires
            self@.wf(),
            self@.can_be_hit(hit),
        ensures
            offset == self@.pointed_offset(hit),
            on_boundary(self@.content, offset as int),
    {
        proof {
            lemma_ends_are_boundaries(self.content@);
        }
        if self.content.as_str().is_empty() {
            return 0;
        }
        match hit {
            PointerHit::Unpainted => 0,
            PointerHit::Line { line, closest } => {
                assert(self@.lines[line as int].end() <= usize::MAX);
                self.clamp(self.lines[line].byte_start + closest)
            },
            PointerHit::Above => 0,
            PointerHit::Below => byte_len(self.content.as_str()),
        }
    }

    /// The button went down on the text: the caret moves there, or with Shift the
    /// selection reaches there.
    pub fn on_mouse_down(&mut self, hit: PointerHit, shift: bool)
        requires
            old(self)@.wf(),
            old(self)@.can_be_hit(hit),
        ensures
            final(self)@ == ({
                let pressed = EditorView { is_selecting: true, ..old(self)@ };
                if shift {
                    pressed.selected_to(old(self)@.pointed_offset(hit))
                } else {
                    pressed.moved_to(old(self)@.pointed_offset(hit))
                }
            }),
            final(self)@.wf(),
    {
        self.is_selecting = true;
        let offset: usize = self.index_for_mouse_position(hit);
        if shift {
            self.select_to(offset);
        } else {
            self.move_to(offset);
        }
    }

    /// The button went down on the scrollbar: dragging selects nothing.
    pub fn on_scrollbar_down(&mut self)
        requires
            old(self)@.wf(),
        ensures
            final(self)@ == (EditorView { is_selecting: false, ..old(self)@ }),
            final(self)@.wf(),
    {
        self.is_selecting = false;
    }

    pub fn on_mouse_up(&mut self)
        requires
            old(self)@.wf(),
        ensures
            final(self)@ == (EditorView { is_selecting: false, ..old(self)@ }),
            final(self)@.wf(),
    {
        self.is_selecting = false;
    }

    /// The pointer moved: while the button is down, the selection reaches there.
    pub fn on_mouse_move(&mut self, hit: PointerHit)
        requires
            old(self)@.wf(),
            old(self)@.can_be_hit(hit),
        ensures
            final(self)@ == if old(self)@.is_selecting {
                old(self)@.selected_to(old(self)@.pointed_offset(hit))
            } else {
                old(self)@
            },
            final(self)@.wf(),
    {
        if self.is_selecting {
            let offset: usize = self.index_for_mouse_position(hit);
            self.select_to(offset);
        }
    }

    // -- input methods ----------------------------------------------------------------

    /// The text of a UTF-16 range, and the range that it really is.
    pub fn text_for_range(&self, range_utf16: Range<usize>) -> (found: (String, Range<usize>))
        ensures
            ({
                let range = span_from_utf16(self@.content, span(range_utf16));
                &&& found.0@ == text_between(self@.content, range.start, range.end)
                &&& span(found.1) == span_to_utf16(self@.content, range)
            }),
    {
        let range: Range<usize> = self.range_from_utf16(range_utf16);
        let text: String = slice(self.content.as_str(), range.start, range.end);
        (text, self.range_to_utf16(range))
    }

    /// The selection in UTF-16, and whether its start is the moving end.
    pub fn selected_text_range(&self) -> (selection: (Range<usize>, bool))
        ensures
            span(selection.0) == span_to_utf16(self@.content, self@.selected),
            selection.1 == self@.reversed,
    {
        (
            self.range_to_utf16(self.selected_range.start..self.selected_range.end),
            self.selection_reversed,
        )
    }

    /// The text being composed, in UTF-16.
    pub fn marked_text_range(&self) -> (marked: Option<Range<usize>>)
        ensures
            match marked {
                Some(units) => self@.marked is Some && span(units) == span_to_utf16(
                    self@.content,
                    self@.marked->0,
                ),
                None => self@.marked is None,
            },
    {
        match &self.marked_range {
            Some(marked) => Some(self.range_to_utf16(marked.start..marked.end)),
            None => None,
        }
    }

    /// Composing has ended: the text stays as it is.
    pub fn unmark_text(&mut self)
        requires
            old(self)@.wf(),
        ensures
            final(self)@ == (EditorView { marked: None, ..old(self)@ }),
            final(self)@.wf(),
    {
        self.marked_range = None;
    }

    /// An input method is composing `new_text`. The selection it hands in is relative to
    /// that text, not to the content.
    pub fn replace_and_mark_text_in_range(
        &mut self,
        range_utf16: Option<Range<usize>>,
        new_text: &str,
        new_selected_range_utf16: Option<Range<usize>>,
    ) -> (event: EditorEvent)
        requires
            old(self)@.wf(),
        ensures
            final(self)@ == old(self)@.marked_with(
                match range_utf16 {
                    Some(units) => Some(span(units)),
                    None => None,
                },
                new_text@,
                match new_selected_range_utf16 {
                    Some(units) => Some(span(units)),
                    None => None,
                },
            ),
            final(self)@.wf(),
            event == EditorEvent::Change,
    {
        let entered: String = if self.single_line {
            normalize_single_line(new_text)
        } else {
            new_text.to_owned()
        };
        let new_text: &str = entered.as_str();
        let range: Range<usize> = self.edited_range(range_utf16);
        proof {
            self@.lemma_replaced_fits(span(range), new_text@);
        }
        let content: String = splice(self.content.as_str(), range.start, range.end, new_text);
        let marked_end: usize = range.start + byte_len(new_text);
        self.content = content;
        self.marked_range = if new_text.is_empty() {
            None
        } else {
            Some(range.start..marked_end)
        };
        self.selected_range = match new_selected_range_utf16 {
            Some(units) => {
                let from: usize = byte_offset_from_utf16(new_text, units.start);
                let to: usize = byte_offset_from_utf16(new_text, units.end);
                proof {
                    utf16_offsets_land_on_boundaries(new_text@, units.start as int);
                    utf16_offsets_land_on_boundaries(new_text@, units.end as int);
                    lemma_clamped(new_text@, from as int);
                    lemma_clamped(new_text@, to as int);
                }
                if to < from {
                    range.start + from..range.start + from
                } else {
                    range.start + from..range.start + to
                }
            },
            None => marked_end..marked_end,
        };
        EditorEvent::Change
    }
}

// -- painting --------------------------------------------------------------------

/// Which rows an editor paints from.
#[derive(Clone, Copy, Debug, PartialEq, Eq, Structural)]
pub enum LineSource {
    /// The rows of the last layout: neither text, width nor typography has moved.
    Kept,
    /// The rows that were shaped when the editor was measured.
    Measured,
    /// Freshly shaped rows.
    Shaped,
}

/// What an editor paints besides its text.
pub struct PaintPlan {
    pub caret: Option<CaretPlace>,
    pub selection: Vec<SelectedRow>,
    pub content_rows: usize,
    /// Whether a scrollbar thumb is drawn.
    pub thumb: bool,
}

impl Editor {
    /// Which rows to paint from, given whether the kept and the measured shape are of
    /// what is to be painted.
    pub fn line_source(&self, kept_is_current: bool, measured_is_current: bool) -> (source:
        LineSource)
        ensures
            source == if kept_is_current && self@.lines.len() > 0 {
                LineSource::Kept
            } else if measured_is_current {
                LineSource::Measured
            } else {
                LineSource::Shaped
            },
    {
        if kept_is_current && self.lines.len() > 0 {
            LineSource::Kept
        } else if measured_is_current {
            LineSource::Measured
        } else {
            LineSource::Shaped
        }
    }

    /// What is shaped: the content, or the placeholder while there is none.
    pub fn display_text(&self) -> (text: &str)
        ensures
            text@ == if self@.content.len() == 0 {
                self@.placeholder
            } else {
                self@.content
            },
    {
        if self.content.as_str().is_empty() {
            self.placeholder.as_str()
        } else {
            self.content.as_str()
        }
    }

    /// Whether long lines are wrapped at the editor's width.
    pub fn wraps(&self) -> (wraps: bool)
        ensures
            wraps == self@.wraps(),
    {
        !(self.single_line && !self.wrap_long_lines)
    }

    /// What to paint over `lines`: the caret while nothing is selected and the editor has
    /// the focus, otherwise the selection row by row, which stays when the focus goes.
    pub fn paint_plan(&self, lines: &Vec<LineEntry>, focused: bool) -> (plan: PaintPlan)
        requires
            self@.wf(),
            lines_wf(lines@),
        ensures
            plan.content_rows == total_rows(lines@),
            plan.thumb == (total_rows(lines@) > MAX_VISIBLE_ROWS),
            plan.selection@ == if self@.nothing_selected() {
                Seq::<SelectedRow>::empty()
            } else {
                selected_in_lines(lines@, self@.selected.start, self@.selected.end)
            },
            match plan.caret {
                Some(place) => self@.nothing_selected() && focused && line_holding(
                    lines@,
                    self@.cursor(),
                ) == Some(place.line as int) && place.rows_above == rows_before(
                    lines@,
                    place.line as int,
                ) && place.offset == self@.cursor() - lines@[place.line as int].byte_start,
                None => !(self@.nothing_selected() && focused) || line_holding(
                    lines@,
                    self@.cursor(),
                ) is None,
            },
    {
        let content_rows: usize = row_count(lines);
        let thumb: bool = content_rows > MAX_VISIBLE_ROWS;
        if self.selected_range.start == self.selected_range.end {
            let caret: Option<CaretPlace> = if focused {
                caret_place(lines, self.cursor_offset())
            } else {
                None
            };
            PaintPlan { caret, selection: Vec::new(), content_rows, thumb }
        } else {
            let selection: Vec<SelectedRow> = selection_rows(
                lines,
                self.selected_range.start,
                self.selected_range.end,
            );
            PaintPlan { caret: None, selection, content_rows, thumb }
        }
    }

    /// Take a fresh layout over. The caret is brought on screen if it moved since the
    /// last one; scrolling by hand is left alone.
    pub fn adopt_lines(&mut self, lines: Vec<LineEntry>)
        requires
            old(self)@.wf(),
            lines_wf(lines@),
        ensures
            final(self)@ == old(self)@.laid_out(lines@),
            final(self)@.wf(),
    {
        self.lines = lines;
        if self.follow_cursor {
            self.ensure_cursor_visible();
            self.follow_cursor = false;
        }
    }

    /// Where an input method's candidate window belongs for a UTF-16 range. The layout
    /// may lag behind the content, so the place stays inside the line.
    pub fn place_for_range(&self, range_utf16: Range<usize>) -> (place: Option<CaretPlace>)
        requires
            self@.wf(),
        ensures
            ({
                let start = span_from_utf16(self@.content, span(range_utf16)).start;
                match place {
                    Some(place) => {
                        let entry = self@.lines[place.line as int];
                        &&& line_holding(self@.lines, start) == Some(place.line as int)
                        &&& place.rows_above == rows_before(self@.lines, place.line as int)
                        &&& place.offset == if start - entry.byte_start < entry.line.bytes() {
                            start - entry.byte_start
                        } else {
                            entry.line.bytes()
                        }
                    },
                    None => line_holding(self@.lines, start) is None,
                }
            }),
    {
        let range: Range<usize> = self.range_from_utf16(range_utf16);
        match caret_place(&self.lines, range.start) {
            Some(place) => {
                let len: usize = self.lines[place.line].line.len();
                let offset: usize = if place.offset < len {
                    place.offset
                } else {
                    len
                };
                Some(CaretPlace { line: place.line, rows_above: place.rows_above, offset })
            },
            None => None,
        }
    }
}

/// The rows an editor's box is measured at: as many as its text takes, within limits.
pub fn box_rows(rows: usize) -> (shown: usize)
    ensures
        shown == if rows < 1 {
            1
        } else if rows > MAX_VISIBLE_ROWS {
            MAX_VISIBLE_ROWS
        } else {
            rows
        },
{
    if rows < 1 {
        1
    } else if rows > MAX_VISIBLE_ROWS {
        MAX_VISIBLE_ROWS
    } else {
        rows
    }
}

} // verus!
