//! The rows that an editor's text is painted on.
//!
//! The text is laid out line by line, and a line that is too wide wraps onto several
//! rows. The layout engine decides where a line wraps; everything that follows from it,
//! which row the caret sits on and which part of each row is selected, is decided here.

use crate::text::{byte_len, utf8_len};
use vstd::prelude::*;
use vstd::utf8::encode_utf8;

verus! {

/// How many rows an editor's box shows at once.
pub const MAX_VISIBLE_ROWS: usize = 8;

/// One logical line as the layout engine wrapped it.
pub struct WrappedLine {
    /// The byte, counted from the start of the line, at which each row ends. The last
    /// row ends where the line does.
    pub row_ends: Vec<usize>,
}

/// A laid out line and where it stands in the text.
pub struct LineEntry {
    /// Byte offset of this line inside the text.
    pub byte_start: usize,
    pub line: WrappedLine,
}

impl WrappedLine {
    /// A line takes at least one row, and its rows follow one another.
    pub open spec fn wf(&self) -> bool {
        &&& self.row_ends@.len() > 0
        &&& forall|i: int, j: int|
            0 <= i <= j < self.row_ends@.len() ==> self.row_ends@[i] <= self.row_ends@[j]
    }

    /// The line's length in bytes.
    pub open spec fn bytes(&self) -> int {
        self.row_ends@.last() as int
    }

    /// The line's length in bytes.
    pub fn len(&self) -> (len: usize)
        requires
            self.wf(),
        ensures
            len == self.bytes(),
    {
        self.row_ends[self.row_ends.len() - 1]
    }
}

impl LineEntry {
    /// The byte offset in the text at which this line ends.
    pub open spec fn end(&self) -> int {
        self.byte_start + self.line.bytes()
    }
}

/// The rows that `lines` take together.
pub open spec fn total_rows(lines: Seq<LineEntry>) -> nat
    decreases lines.len(),
{
    if lines.len() == 0 {
        0
    } else {
        total_rows(lines.drop_last()) + lines.last().line.row_ends@.len()
    }
}

/// Lines as a layout produces them: they start with the text, none begins beyond the
/// end of the one before it and its line break, and what they measure fits the machine.
pub open spec fn lines_wf(lines: Seq<LineEntry>) -> bool {
    &&& forall|i: int| 0 <= i < lines.len() ==> (#[trigger] lines[i]).line.wf()
    &&& forall|i: int| 0 <= i < lines.len() ==> (#[trigger] lines[i]).end() <= usize::MAX
    &&& lines.len() > 0 ==> lines[0].byte_start == 0
    &&& forall|i: int, j: int|
        0 <= i && j == i + 1 && j < lines.len() ==> (#[trigger] lines[j]).byte_start <= (
        #[trigger] lines[i]).end() + 1
    &&& total_rows(lines) + MAX_VISIBLE_ROWS <= usize::MAX
}

/// The rows of the lines before line `up_to`.
pub open spec fn rows_before(lines: Seq<LineEntry>, up_to: int) -> nat {
    total_rows(
        lines.take(
            if up_to < lines.len() {
                up_to
            } else {
                lines.len() as int
            },
        ),
    )
}

/// The first row of a line that reaches byte `index` of it. A byte at which the line
/// wraps belongs to the row that ends there.
pub open spec fn row_within(row_ends: Seq<usize>, index: int) -> int
    decreases row_ends.len(),
{
    if row_ends.len() == 0 || index <= row_ends[0] {
        0
    } else {
        1 + row_within(row_ends.drop_first(), index)
    }
}

/// The row that the caret at byte `cursor` sits on, looking from line `from` on.
pub open spec fn caret_row_from(lines: Seq<LineEntry>, from: int, cursor: int) -> int
    decreases lines.len() - from,
{
    if from < 0 || from >= lines.len() {
        total_rows(lines) as int
    } else if cursor <= lines[from].end() {
        rows_before(lines, from) + row_within(
            lines[from].line.row_ends@,
            cursor - lines[from].byte_start,
        )
    } else {
        caret_row_from(lines, from + 1, cursor)
    }
}

proof fn lemma_rows_before_step(lines: Seq<LineEntry>, index: int)
    requires
        0 <= index < lines.len(),
    ensures
        rows_before(lines, index + 1) == rows_before(lines, index)
            + lines[index].line.row_ends@.len(),
        rows_before(lines, index + 1) <= total_rows(lines),
    decreases lines.len() - index,
{
    assert(lines.take(index + 1).drop_last() =~= lines.take(index));
    if index + 1 < lines.len() {
        lemma_rows_before_step(lines, index + 1);
    } else {
        assert(lines.take(index + 1) =~= lines);
    }
}

/// The rows before a line are no more than all rows.
pub proof fn lemma_rows_before_bound(lines: Seq<LineEntry>, index: int)
    requires
        0 <= index,
    ensures
        rows_before(lines, index) <= total_rows(lines),
{
    if index < lines.len() {
        lemma_rows_before_step(lines, index);
    } else {
        assert(lines.take(lines.len() as int) =~= lines);
    }
}

proof fn lemma_row_within(row_ends: Seq<usize>, index: int)
    ensures
        0 <= row_within(row_ends, index) <= row_ends.len(),
        row_within(row_ends, index) < row_ends.len() <==> exists|row: int|
            0 <= row < row_ends.len() && index <= #[trigger] row_ends[row],
    decreases row_ends.len(),
{
    if row_ends.len() > 0 {
        if index > row_ends[0] {
            let rest = row_ends.drop_first();
            lemma_row_within(rest, index);
            if exists|row: int| 0 <= row < row_ends.len() && index <= #[trigger] row_ends[row] {
                let row = choose|row: int|
                    0 <= row < row_ends.len() && index <= #[trigger] row_ends[row];
                assert(rest[row - 1] == row_ends[row]);
            }
            if exists|row: int| 0 <= row < rest.len() && index <= #[trigger] rest[row] {
                let row = choose|row: int| 0 <= row < rest.len() && index <= #[trigger] rest[row];
                assert(row_ends[row + 1] == rest[row]);
            }
        } else {
            assert(index <= row_ends[0]);
        }
    }
}

/// The caret's row is a row of the text, or the one after the last.
pub proof fn lemma_caret_row_bound(lines: Seq<LineEntry>, from: int, cursor: int)
    requires
        lines_wf(lines),
        0 <= from,
    ensures
        0 <= caret_row_from(lines, from, cursor) <= total_rows(lines),
    decreases lines.len() - from,
{
    if from < lines.len() {
        if cursor <= lines[from].end() {
            let row_ends = lines[from].line.row_ends@;
            lemma_row_within(row_ends, cursor - lines[from].byte_start);
            assert(row_ends[row_ends.len() - 1] == lines[from].line.bytes());
            lemma_rows_before_step(lines, from);
        } else {
            lemma_caret_row_bound(lines, from + 1, cursor);
        }
    }
}

/// The rows of the lines before line `up_to`.
pub fn rows_above(lines: &Vec<LineEntry>, up_to: usize) -> (rows: usize)
    requires
        total_rows(lines@) <= usize::MAX,
    ensures
        rows == rows_before(lines@, up_to as int),
{
    let stop: usize = if up_to < lines.len() {
        up_to
    } else {
        lines.len()
    };
    let mut rows: usize = 0;
    let mut index: usize = 0;
    proof {
        assert(lines@.take(0) =~= Seq::<LineEntry>::empty());
    }
    while index < stop
        invariant
            index <= stop <= lines.len(),
            total_rows(lines@) <= usize::MAX,
            rows == rows_before(lines@, index as int),
        decreases stop - index,
    {
        proof {
            lemma_rows_before_step(lines@, index as int);
        }
        rows += lines[index].line.row_ends.len();
        index += 1;
    }
    rows
}

/// All rows that the lines take.
pub fn row_count(lines: &Vec<LineEntry>) -> (rows: usize)
    requires
        total_rows(lines@) <= usize::MAX,
    ensures
        rows == total_rows(lines@),
{
    proof {
        assert(lines@.take(lines@.len() as int) =~= lines@);
    }
    rows_above(lines, lines.len())
}

/// The row that the caret at byte `cursor` sits on.
pub fn caret_row(lines: &Vec<LineEntry>, cursor: usize) -> (row: usize)
    requires
        lines_wf(lines@),
    ensures
        row == caret_row_from(lines@, 0, cursor as int),
        row <= total_rows(lines@),
{
    let mut index: usize = 0;
    proof {
        lemma_caret_row_bound(lines@, 0, cursor as int);
    }
    while index < lines.len()
        invariant
            lines_wf(lines@),
            index <= lines.len(),
            index > 0 ==> cursor > lines@[index - 1].end(),
            caret_row_from(lines@, 0, cursor as int) == caret_row_from(
                lines@,
                index as int,
                cursor as int,
            ),
            caret_row_from(lines@, 0, cursor as int) <= total_rows(lines@),
        decreases lines.len() - index,
    {
        let entry: &LineEntry = &lines[index];
        if cursor <= entry.byte_start + entry.line.len() {
            let inside: usize = cursor - entry.byte_start;
            let above: usize = rows_above(lines, index);
            return above + row_of_index(&entry.line, inside);
        }
        index += 1;
    }
    row_count(lines)
}

/// The row of a wrapped line that byte `index` of it stands on.
pub fn row_of_index(line: &WrappedLine, index: usize) -> (row: usize)
    requires
        line.wf(),
        index <= line.bytes(),
    ensures
        row == row_within(line.row_ends@, index as int),
        row < line.row_ends@.len(),
{
    let mut row: usize = 0;
    let ends: &Vec<usize> = &line.row_ends;
    proof {
        assert(ends@.skip(0) =~= ends@);
        assert(index <= ends@[ends@.len() - 1]);
    }
    while row < ends.len() - 1 && index > ends[row]
        invariant
            ends@.len() > 0,
            row < ends@.len(),
            index <= ends@[ends@.len() - 1],
            row_within(ends@, index as int) == row + row_within(
                ends@.skip(row as int),
                index as int,
            ),
        decreases ends.len() - row,
    {
        proof {
            assert(ends@.skip(row as int).drop_first() =~= ends@.skip(row + 1));
        }
        row += 1;
    }
    row
}

/// The last line that begins at or before byte `byte`.
pub open spec fn line_holding(lines: Seq<LineEntry>, byte: int) -> Option<int>
    decreases lines.len(),
{
    if lines.len() == 0 {
        None
    } else if lines.last().byte_start <= byte {
        Some(lines.len() - 1)
    } else {
        line_holding(lines.drop_last(), byte)
    }
}

/// The last line that begins at or before byte `byte`.
pub fn row_for_byte(lines: &Vec<LineEntry>, byte: usize) -> (found: Option<usize>)
    ensures
        match found {
            Some(index) => line_holding(lines@, byte as int) == Some(index as int) && index
                < lines@.len() && lines@[index as int].byte_start <= byte,
            None => line_holding(lines@, byte as int) is None,
        },
{
    let mut index: usize = lines.len();
    proof {
        assert(lines@.take(lines@.len() as int) =~= lines@);
    }
    while index > 0
        invariant
            index <= lines.len(),
            line_holding(lines@, byte as int) == line_holding(lines@.take(index as int), byte as int),
        decreases index,
    {
        proof {
            assert(lines@.take(index as int).drop_last() =~= lines@.take(index - 1));
        }
        index -= 1;
        if lines[index].byte_start <= byte {
            return Some(index);
        }
    }
    None
}

/// Where the caret is drawn: on which line, below how many rows, and at which byte of
/// the line.
#[derive(Clone, Copy, PartialEq, Eq, Structural, Debug)]
pub struct CaretPlace {
    pub line: usize,
    pub rows_above: usize,
    pub offset: usize,
}

/// Where the caret at byte `cursor` is drawn; nowhere while no line is laid out.
pub fn caret_place(lines: &Vec<LineEntry>, cursor: usize) -> (place: Option<CaretPlace>)
    requires
        total_rows(lines@) <= usize::MAX,
    ensures
        match place {
            Some(place) => line_holding(lines@, cursor as int) == Some(place.line as int)
                && place.line < lines@.len() && place.rows_above == rows_before(
                lines@,
                place.line as int,
            ) && place.offset == cursor - lines@[place.line as int].byte_start,
            None => line_holding(lines@, cursor as int) is None,
        },
{
    match row_for_byte(lines, cursor) {
        Some(line) => {
            proof {
                lemma_rows_before_bound(lines@, line as int);
            }
            Some(
                CaretPlace {
                    line,
                    rows_above: rows_above(lines, line),
                    offset: cursor - lines[line].byte_start,
                },
            )
        },
        None => None,
    }
}

// -- laying lines out --------------------------------------------------------

/// The end of the line that byte `at` stands on: the next newline, or the end.
pub open spec fn newline_from(bytes: Seq<u8>, at: int) -> int
    decreases bytes.len() - at,
{
    if at >= bytes.len() {
        bytes.len() as int
    } else if bytes[at] == 0x0A {
        at
    } else {
        newline_from(bytes, at + 1)
    }
}

/// The start of the line that byte `at` stands on: after the last newline before it.
pub open spec fn after_newline_before(bytes: Seq<u8>, at: int) -> int
    decreases at,
{
    if at <= 0 {
        0
    } else if bytes[at - 1] == 0x0A {
        at
    } else {
        after_newline_before(bytes, at - 1)
    }
}

/// Where the line after the one that starts at `at` starts. Lines beyond the end of the
/// text are one byte apart.
pub open spec fn next_line_start(bytes: Seq<u8>, at: int) -> int {
    if at < bytes.len() {
        newline_from(bytes, at) + 1
    } else {
        at + 1
    }
}

/// The byte offset at which line `index` of the text starts.
pub open spec fn nth_line_start(bytes: Seq<u8>, index: nat) -> int
    decreases index,
{
    if index == 0 {
        0
    } else {
        next_line_start(bytes, nth_line_start(bytes, (index - 1) as nat))
    }
}

pub proof fn lemma_newline_from(bytes: Seq<u8>, at: int)
    requires
        0 <= at <= bytes.len(),
    ensures
        at <= newline_from(bytes, at) <= bytes.len(),
        newline_from(bytes, at) < bytes.len() ==> bytes[newline_from(bytes, at)] == 0x0A,
        forall|i: int| at <= i < newline_from(bytes, at) ==> #[trigger] bytes[i] != 0x0A,
    decreases bytes.len() - at,
{
    if at < bytes.len() && bytes[at] != 0x0A {
        lemma_newline_from(bytes, at + 1);
    }
}

pub proof fn lemma_after_newline_before(bytes: Seq<u8>, at: int)
    requires
        0 <= at <= bytes.len(),
    ensures
        0 <= after_newline_before(bytes, at) <= at,
        after_newline_before(bytes, at) > 0 ==> bytes[after_newline_before(bytes, at) - 1] == 0x0A,
        forall|i: int| after_newline_before(bytes, at) <= i < at ==> #[trigger] bytes[i] != 0x0A,
    decreases at,
{
    if at > 0 && bytes[at - 1] != 0x0A {
        lemma_after_newline_before(bytes, at - 1);
    }
}

/// The end of the line that byte `at` stands on.
pub fn find_newline(text: &str, at: usize) -> (end: usize)
    requires
        at <= utf8_len(text@),
    ensures
        end == newline_from(encode_utf8(text@), at as int),
        at <= end <= utf8_len(text@),
{
    let bytes: &[u8] = text.as_bytes();
    let mut end: usize = at;
    proof {
        lemma_newline_from(bytes@, at as int);
    }
    while end < bytes.len() && bytes[end] != 0x0A
        invariant
            at <= end <= bytes@.len(),
            newline_from(bytes@, at as int) == newline_from(bytes@, end as int),
        decreases bytes@.len() - end,
    {
        end += 1;
    }
    end
}

/// The start of the line that byte `at` stands on.
pub fn find_line_start(text: &str, at: usize) -> (start: usize)
    requires
        at <= utf8_len(text@),
    ensures
        start == after_newline_before(encode_utf8(text@), at as int),
        start <= at,
{
    let bytes: &[u8] = text.as_bytes();
    let mut start: usize = at;
    proof {
        lemma_after_newline_before(bytes@, at as int);
    }
    while start > 0 && bytes[start - 1] != 0x0A
        invariant
            start <= at <= bytes@.len(),
            after_newline_before(bytes@, at as int) == after_newline_before(bytes@, start as int),
        decreases start,
    {
        start -= 1;
    }
    start
}

proof fn lemma_nth_line_start(bytes: Seq<u8>, index: nat)
    ensures
        0 <= nth_line_start(bytes, index) <= bytes.len() + index,
    decreases index,
{
    if index > 0 {
        lemma_nth_line_start(bytes, (index - 1) as nat);
        let at = nth_line_start(bytes, (index - 1) as nat);
        if at < bytes.len() {
            lemma_newline_from(bytes, at);
        }
    }
}

/// Place the wrapped lines of `content` one after another.
pub fn line_entries(content: &str, wrapped: Vec<WrappedLine>) -> (lines: Vec<LineEntry>)
    requires
        utf8_len(content@) + wrapped@.len() <= usize::MAX,
    ensures
        lines@.len() == wrapped@.len(),
        forall|i: int|
            0 <= i < lines@.len() ==> (#[trigger] lines@[i]).line == wrapped@[i]
                && lines@[i].byte_start == nth_line_start(encode_utf8(content@), i as nat),
{
    let len: usize = byte_len(content);
    let ghost bytes = encode_utf8(content@);
    let ghost all = wrapped@;
    let mut lines: Vec<LineEntry> = Vec::new();
    let mut byte_start: usize = 0;
    for line in iter: wrapped
        invariant
            iter.seq() == all,
            bytes == encode_utf8(content@),
            len == bytes.len(),
            len + all.len() <= usize::MAX,
            lines@.len() == iter.index(),
            byte_start == nth_line_start(bytes, iter.index() as nat),
            forall|i: int|
                0 <= i < lines@.len() ==> (#[trigger] lines@[i]).line == all[i]
                    && lines@[i].byte_start == nth_line_start(bytes, i as nat),
    {
        lines.push(LineEntry { byte_start, line });
        proof {
            lemma_nth_line_start(bytes, lines@.len());
        }
        byte_start = if byte_start < len {
            find_newline(content, byte_start) + 1
        } else {
            byte_start + 1
        };
    }
    lines
}

/// Whether `wrapped` are the lines of a text, wrapped: each as long as the line of the text
/// it stands for, the last one perhaps empty.
pub open spec fn wraps_text(bytes: Seq<u8>, wrapped: Seq<WrappedLine>) -> bool {
    forall|i: int|
        0 <= i < wrapped.len() ==> (#[trigger] wrapped[i]).wf() && nth_line_start(bytes, i as nat)
            <= bytes.len() && wrapped[i].bytes() == newline_from(
            bytes,
            nth_line_start(bytes, i as nat),
        ) - nth_line_start(bytes, i as nat)
}

/// Placing the wrapped lines of a text gives lines in order, whatever the text is.
pub proof fn a_layout_of_the_text_is_in_order(
    bytes: Seq<u8>,
    wrapped: Seq<WrappedLine>,
    lines: Seq<LineEntry>,
)
    requires
        bytes.len() <= usize::MAX,
        wraps_text(bytes, wrapped),
        lines.len() == wrapped.len(),
        forall|i: int|
            0 <= i < lines.len() ==> (#[trigger] lines[i]).line == wrapped[i]
                && lines[i].byte_start == nth_line_start(bytes, i as nat),
        total_rows(lines) + MAX_VISIBLE_ROWS <= usize::MAX,
    ensures
        lines_wf(lines),
{
    assert forall|i: int| 0 <= i < lines.len() implies (#[trigger] lines[i]).line.wf()
        && lines[i].end() <= usize::MAX by {
        assert(wrapped[i].wf());
        lemma_nth_line_start(bytes, i as nat);
        lemma_newline_from(bytes, nth_line_start(bytes, i as nat));
    }
    assert forall|i: int, j: int| 0 <= i && j == i + 1 && j < lines.len() implies (
    #[trigger] lines[j]).byte_start <= (#[trigger] lines[i]).end() + 1 by {
        assert(wrapped[i].wf());
        assert(nth_line_start(bytes, j as nat) == next_line_start(
            bytes,
            nth_line_start(bytes, i as nat),
        ));
    }
}

// -- the selection, row by row -------------------------------------------------

/// The part of one row that a selection covers. Its bytes are counted from the start of
/// its line.
#[derive(Clone, Copy, PartialEq, Eq, Structural, Debug)]
pub struct SelectedRow {
    /// The row, counted from the first row of the text.
    pub row: usize,
    /// The line that the row belongs to.
    pub line: usize,
    /// The byte of the line at which the row begins; the selected bytes are counted from
    /// the start of the line too.
    pub row_start: usize,
    pub start: usize,
    pub end: usize,
}

/// The byte of its line at which a row begins.
pub open spec fn row_start(row_ends: Seq<usize>, row: int) -> int {
    if row <= 0 {
        0
    } else {
        row_ends[row - 1] as int
    }
}

/// The first selected byte of a row, counted from the start of its line.
pub open spec fn selected_from(entry: LineEntry, row: int, start: int) -> int {
    let begins = row_start(entry.line.row_ends@, row);
    if start - entry.byte_start > begins {
        start - entry.byte_start
    } else {
        begins
    }
}

/// The end of the selected bytes of a row, counted from the start of its line.
pub open spec fn selected_to(entry: LineEntry, row: int, end: int) -> int {
    let ends = entry.line.row_ends@[row] as int;
    if end - entry.byte_start < ends {
        end - entry.byte_start
    } else {
        ends
    }
}

/// What a selection covers of the first `rows` rows of line number `line`.
pub open spec fn selected_in_line(
    entry: LineEntry,
    line: int,
    above: int,
    rows: int,
    start: int,
    end: int,
) -> Seq<SelectedRow>
    decreases rows,
{
    if rows <= 0 {
        seq![]
    } else {
        let earlier = selected_in_line(entry, line, above, rows - 1, start, end);
        let from = selected_from(entry, rows - 1, start);
        let to = selected_to(entry, rows - 1, end);
        if from < to {
            earlier.push(
                SelectedRow {
                    row: (above + rows - 1) as usize,
                    line: line as usize,
                    row_start: row_start(entry.line.row_ends@, rows - 1) as usize,
                    start: from as usize,
                    end: to as usize,
                },
            )
        } else {
            earlier
        }
    }
}

/// What the selection from byte `start` to byte `end` covers, row by row.
pub open spec fn selected_in_lines(lines: Seq<LineEntry>, start: int, end: int) -> Seq<SelectedRow>
    decreases lines.len(),
{
    if lines.len() == 0 {
        seq![]
    } else {
        selected_in_lines(lines.drop_last(), start, end) + selected_in_line(
            lines.last(),
            lines.len() - 1,
            total_rows(lines.drop_last()) as int,
            lines.last().line.row_ends@.len() as int,
            start,
            end,
        )
    }
}

/// What the selection from byte `start` to byte `end` covers, row by row.
pub fn selection_rows(lines: &Vec<LineEntry>, start: usize, end: usize) -> (selected: Vec<
    SelectedRow,
>)
    requires
        lines_wf(lines@),
    ensures
        selected@ == selected_in_lines(lines@, start as int, end as int),
{
    let mut selected: Vec<SelectedRow> = Vec::new();
    let mut above: usize = 0;
    let mut line: usize = 0;
    proof {
        assert(lines@.take(0) =~= Seq::<LineEntry>::empty());
    }
    while line < lines.len()
        invariant
            lines_wf(lines@),
            line <= lines@.len(),
            above == rows_before(lines@, line as int),
            selected@ == selected_in_lines(lines@.take(line as int), start as int, end as int),
        decreases lines@.len() - line,
    {
        let entry: &LineEntry = &lines[line];
        let ends: &Vec<usize> = &entry.line.row_ends;
        let ghost before = selected@;
        let mut row: usize = 0;
        let mut begins: usize = 0;
        proof {
            lemma_rows_before_step(lines@, line as int);
            assert(before =~= before + Seq::<SelectedRow>::empty());
        }
        while row < ends.len()
            invariant
                lines_wf(lines@),
                line < lines@.len(),
                *entry == lines@[line as int],
                *ends == entry.line.row_ends,
                row <= ends@.len(),
                begins == row_start(ends@, row as int),
                begins <= entry.line.bytes(),
                above + ends@.len() <= usize::MAX,
                selected@ == before + selected_in_line(
                    *entry,
                    line as int,
                    above as int,
                    row as int,
                    start as int,
                    end as int,
                ),
            decreases ends@.len() - row,
        {
            let ends_at: usize = ends[row];
            assert(ends_at <= entry.line.bytes());
            let from: usize = if start > entry.byte_start + begins {
                start
            } else {
                entry.byte_start + begins
            };
            let to: usize = if end < entry.byte_start + ends_at {
                end
            } else {
                entry.byte_start + ends_at
            };
            if from < to {
                selected.push(
                    SelectedRow {
                        row: above + row,
                        line,
                        row_start: begins,
                        start: from - entry.byte_start,
                        end: to - entry.byte_start,
                    },
                );
            }
            begins = ends_at;
            row += 1;
        }
        proof {
            assert(lines@.take(line + 1).drop_last() =~= lines@.take(line as int));
            assert(lines@.take(line + 1).last() == lines@[line as int]);
        }
        above += ends.len();
        line += 1;
    }
    assert(lines@.take(lines@.len() as int) =~= lines@);
    selected
}

proof fn lemma_selected_in_line(
    entry: LineEntry,
    line: int,
    above: int,
    rows: int,
    start: int,
    end: int,
)
    requires
        entry.line.wf(),
        entry.end() <= usize::MAX,
        0 <= rows <= entry.line.row_ends@.len(),
        0 <= line <= usize::MAX,
        0 <= above,
        above + rows <= usize::MAX,
        0 <= start,
    ensures
        forall|i: int|
            #![trigger selected_in_line(entry, line, above, rows, start, end)[i]]
            0 <= i < selected_in_line(entry, line, above, rows, start, end).len() ==> {
                let part = selected_in_line(entry, line, above, rows, start, end)[i];
                &&& part.line == line
                &&& above <= part.row < above + rows
                &&& part.row_start == row_start(entry.line.row_ends@, part.row - above)
                &&& part.row_start <= part.start < part.end
                &&& part.end <= entry.line.row_ends@[part.row - above]
                &&& start <= entry.byte_start + part.start
                &&& entry.byte_start + part.end <= end
            },
        forall|byte: int|
            start <= byte < end && entry.byte_start <= byte && byte < entry.byte_start + row_start(
                entry.line.row_ends@,
                rows,
            ) ==> #[trigger] covered(
                selected_in_line(entry, line, above, rows, start, end),
                line,
                byte - entry.byte_start,
            ),
    decreases rows,
{
    if rows > 0 {
        lemma_selected_in_line(entry, line, above, rows - 1, start, end);
        let earlier = selected_in_line(entry, line, above, rows - 1, start, end);
        let all = selected_in_line(entry, line, above, rows, start, end);
        let ends = entry.line.row_ends@;
        assert(row_start(ends, rows - 1) <= ends[rows - 1]);
        assert(ends[rows - 1] <= entry.line.bytes());
        assert forall|byte: int|
            start <= byte < end && entry.byte_start <= byte && byte < entry.byte_start + row_start(
                ends,
                rows,
            ) implies #[trigger] covered(all, line, byte - entry.byte_start) by {
            let at = byte - entry.byte_start;
            if at < row_start(ends, rows - 1) {
                assert(covered(earlier, line, at));
                let i = choose|i: int|
                    0 <= i < earlier.len() && (#[trigger] earlier[i]).line == line
                        && earlier[i].start <= at < earlier[i].end;
                assert(all[i] == earlier[i]);
            } else {
                let last = all[all.len() - 1];
                assert(last.line == line && last.start <= at < last.end);
            }
        }
    }
}

/// Whether one of the parts covers byte `at` of line `line`.
pub open spec fn covered(parts: Seq<SelectedRow>, line: int, at: int) -> bool {
    exists|i: int|
        0 <= i < parts.len() && (#[trigger] parts[i]).line == line && parts[i].start <= at
            < parts[i].end
}

/// The rows painted for a selection are the selection: each part is inside one row of
/// one line and inside the selection, and every selected byte of a line is in a part.
pub proof fn selected_rows_are_the_selection(lines: Seq<LineEntry>, start: int, end: int)
    requires
        lines_wf(lines),
        0 <= start,
        lines.len() <= usize::MAX,
    ensures
        forall|i: int|
            #![trigger selected_in_lines(lines, start, end)[i]]
            0 <= i < selected_in_lines(lines, start, end).len() ==> {
                let part = selected_in_lines(lines, start, end)[i];
                let entry = lines[part.line as int];
                let row = part.row - rows_before(lines, part.line as int);
                &&& part.line < lines.len()
                &&& 0 <= row < entry.line.row_ends@.len()
                &&& row_start(entry.line.row_ends@, row) <= part.start < part.end
                &&& part.end <= entry.line.row_ends@[row]
                &&& start <= entry.byte_start + part.start
                &&& entry.byte_start + part.end <= end
            },
        forall|line: int, byte: int|
            0 <= line < lines.len() && start <= byte < end && lines[line].byte_start <= byte && byte
                < lines[line].end() ==> #[trigger] covered(
                selected_in_lines(lines, start, end),
                line,
                byte - lines[line].byte_start,
            ),
    decreases lines.len(),
{
    if lines.len() > 0 {
        let earlier = lines.drop_last();
        let entry = lines.last();
        lemma_rows_before_step(lines, lines.len() - 1);
        assert(lines.take(lines.len() - 1) =~= earlier);
        assert(lines.take(lines.len() as int) =~= lines);
        assert forall|i: int| 0 <= i < earlier.len() implies (#[trigger] earlier[i])
            == lines[i] by {}
        assert(lines_wf(earlier));
        selected_rows_are_the_selection(earlier, start, end);
        lemma_selected_in_line(
            entry,
            lines.len() - 1,
            total_rows(earlier) as int,
            entry.line.row_ends@.len() as int,
            start,
            end,
        );
        let first = selected_in_lines(earlier, start, end);
        let second = selected_in_line(
            entry,
            lines.len() - 1,
            total_rows(earlier) as int,
            entry.line.row_ends@.len() as int,
            start,
            end,
        );
        let all = selected_in_lines(lines, start, end);
        assert(all == first + second);
        assert forall|i: int|
            #![trigger all[i]]
            0 <= i < all.len() implies {
            let part = all[i];
            let entry = lines[part.line as int];
            let row = part.row - rows_before(lines, part.line as int);
            &&& part.line < lines.len()
            &&& 0 <= row < entry.line.row_ends@.len()
            &&& row_start(entry.line.row_ends@, row) <= part.start < part.end
            &&& part.end <= entry.line.row_ends@[row]
            &&& start <= entry.byte_start + part.start
            &&& entry.byte_start + part.end <= end
        } by {
            if i < first.len() {
                assert(all[i] == first[i]);
                assert(lines.take(all[i].line as int) =~= earlier.take(all[i].line as int));
            } else {
                assert(all[i] == second[i - first.len()]);
            }
        }
        assert forall|line: int, byte: int|
            0 <= line < lines.len() && start <= byte < end && lines[line].byte_start <= byte && byte
                < lines[line].end() implies #[trigger] covered(
            all,
            line,
            byte - lines[line].byte_start,
        ) by {
            let at = byte - lines[line].byte_start;
            if line < earlier.len() {
                assert(covered(first, line, byte - earlier[line].byte_start));
                let i = choose|i: int|
                    0 <= i < first.len() && (#[trigger] first[i]).line == line && first[i].start
                        <= at < first[i].end;
                assert(all[i] == first[i]);
            } else {
                assert(covered(second, line, byte - entry.byte_start));
                let i = choose|i: int|
                    0 <= i < second.len() && (#[trigger] second[i]).line == line && second[i].start
                        <= at < second[i].end;
                assert(all[first.len() + i] == second[i]);
            }
        }
    }
}

} // verus!
