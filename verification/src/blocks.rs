//! How the blocks of a message are laid out.

use crate::ids::{hash_id, hash_of, lemma_wrapped_sum, product, sum, wrapped_product, wrapped_sum};
use crate::text::characters;
use crate::words::{all_texts, decimal, join, join_all, joined_with, number_text, trim, trimmed};
use vstd::prelude::*;
use vstd::utf8::encode_utf8;

verus! {

/// One block of a message, its text still as it was written.
pub enum MarkdownBlock {
    Heading(u64, String),
    Paragraph(String),
    Bullet(String),
    Numbered(u64, String),
    Quote(String),
    Code(String),
    Table(Vec<String>, Vec<Vec<String>>),
    Separator,
}

#[derive(Clone, Copy, Debug, PartialEq, Eq, Structural)]
pub enum Weight {
    Normal,
    Semibold,
    Bold,
}

/// Which of the text colours a block is drawn in.
#[derive(Clone, Copy, Debug, PartialEq, Eq, Structural)]
pub enum Ink {
    Text,
    Secondary,
}

/// Room above a heading, on top of the uniform gap between blocks.
pub const HEADING_SPACE_BEFORE: u32 = 16;

/// Room below a heading. Smaller than the space above it, which is what ties a heading to
/// the text it belongs to.
pub const HEADING_SPACE_AFTER: u32 = 4;

/// Extra breathing room around a paragraph.
pub const PARAGRAPH_SPACE: u32 = 4;

/// Room around a rule between two parts of a message.
pub const SEPARATOR_SPACE: u32 = 8;

/// How a block is set: sizes and spaces in pixels at the plain text size.
#[derive(Debug)]
pub struct BlockStyle {
    pub size: u32,
    pub weight: Weight,
    pub ink: Ink,
    pub space_before: u32,
    pub space_after: u32,
    /// What stands in front of an item of a list.
    pub marker: Option<String>,
}

/// The size of a block's text. Body text is 13, and a heading has to read as one at a
/// glance.
pub open spec fn size_of_block(block: MarkdownBlock) -> u32 {
    match block {
        MarkdownBlock::Heading(level, _) => if level == 1 {
            24
        } else if level == 2 {
            20
        } else {
            17
        },
        MarkdownBlock::Code(_) | MarkdownBlock::Table(_, _) => 12,
        _ => 13,
    }
}

pub open spec fn weight_of_block(block: MarkdownBlock) -> Weight {
    match block {
        MarkdownBlock::Heading(level, _) => if level == 1 {
            Weight::Bold
        } else {
            Weight::Semibold
        },
        _ => Weight::Normal,
    }
}

/// The room a block leaves above itself. The first block of a message leaves none: the gap
/// only exists to separate blocks from each other.
pub open spec fn space_before_block(block: MarkdownBlock, is_first: bool) -> u32 {
    if is_first {
        0
    } else {
        match block {
            MarkdownBlock::Heading(_, _) => HEADING_SPACE_BEFORE,
            MarkdownBlock::Paragraph(_) => PARAGRAPH_SPACE,
            MarkdownBlock::Separator => SEPARATOR_SPACE,
            _ => 0,
        }
    }
}

pub open spec fn space_after_block(block: MarkdownBlock) -> u32 {
    match block {
        MarkdownBlock::Heading(_, _) => HEADING_SPACE_AFTER,
        MarkdownBlock::Paragraph(_) => PARAGRAPH_SPACE,
        MarkdownBlock::Separator => SEPARATOR_SPACE,
        _ => 0,
    }
}

/// How a block is set.
pub fn block_style(block: &MarkdownBlock, is_first: bool) -> (style: BlockStyle)
    ensures
        style.size == size_of_block(*block),
        style.weight == weight_of_block(*block),
        style.ink == if block is Quote {
            Ink::Secondary
        } else {
            Ink::Text
        },
        style.space_before == space_before_block(*block, is_first),
        style.space_after == space_after_block(*block),
        match *block {
            MarkdownBlock::Bullet(_) => style.marker matches Some(marker) && marker@ == "•"@,
            MarkdownBlock::Numbered(number, _) => style.marker matches Some(marker) && marker@
                == decimal(number as nat) + "."@,
            _ => style.marker is None,
        },
{
    let (size, weight): (u32, Weight) = match block {
        MarkdownBlock::Heading(level, _) => if *level == 1 {
            (24, Weight::Bold)
        } else if *level == 2 {
            (20, Weight::Semibold)
        } else {
            (17, Weight::Semibold)
        },
        MarkdownBlock::Code(_) | MarkdownBlock::Table(_, _) => (12, Weight::Normal),
        _ => (13, Weight::Normal),
    };
    let (space_before, space_after): (u32, u32) = match block {
        MarkdownBlock::Heading(_, _) => (HEADING_SPACE_BEFORE, HEADING_SPACE_AFTER),
        MarkdownBlock::Paragraph(_) => (PARAGRAPH_SPACE, PARAGRAPH_SPACE),
        MarkdownBlock::Separator => (SEPARATOR_SPACE, SEPARATOR_SPACE),
        _ => (0, 0),
    };
    let ink: Ink = match block {
        MarkdownBlock::Quote(_) => Ink::Secondary,
        _ => Ink::Text,
    };
    let marker: Option<String> = match block {
        MarkdownBlock::Bullet(_) => Some("•".to_owned()),
        MarkdownBlock::Numbered(number, _) => Some(join(number_text(*number).as_str(), ".")),
        _ => None,
    };
    BlockStyle {
        size,
        weight,
        ink,
        space_before: if is_first {
            0
        } else {
            space_before
        },
        space_after,
        marker,
    }
}

/// A heading stands closer to the text it introduces than to what comes before it, and is
/// larger than the text under it.
pub proof fn a_heading_belongs_to_what_follows(level: u64, title: String, body: String)
    ensures
        space_after_block(MarkdownBlock::Heading(level, title)) < space_before_block(
            MarkdownBlock::Heading(level, title),
            false,
        ),
        size_of_block(MarkdownBlock::Heading(level, title)) > size_of_block(
            MarkdownBlock::Paragraph(body),
        ),
{
}

/// A message does not begin with a hole: whatever its first block is, it leaves no room
/// above itself.
pub proof fn a_message_begins_without_a_gap(block: MarkdownBlock)
    ensures
        space_before_block(block, true) == 0,
{
}

// -- tables ----------------------------------------------------------------------

pub const MAX_TABLE_COLUMNS: usize = 8;

pub const MAX_TABLE_ROWS: usize = 80;

/// The narrowest and the widest a column is taken to be, in characters.
pub const MIN_COLUMN_WEIGHT: usize = 4;

pub const MAX_COLUMN_WEIGHT: usize = 32;

/// How a table is laid out.
#[derive(Debug)]
pub struct TableLayout {
    /// The relative width of each column. Every row uses the same, so the columns line up.
    pub weights: Vec<usize>,
    /// The weights together; a column takes its weight's share of the whole width.
    pub total_weight: usize,
    pub shown_rows: usize,
    /// What says how many rows are left out, if any are.
    pub hidden_note: Option<String>,
    /// Identifies the table by its headers.
    pub id: u64,
}

/// The cells of the longest row.
pub open spec fn longest_row(rows: Seq<Vec<String>>) -> nat
    decreases rows.len(),
{
    if rows.len() == 0 {
        0
    } else {
        let rest = longest_row(rows.drop_last());
        if rows.last()@.len() > rest {
            rows.last()@.len()
        } else {
            rest
        }
    }
}

/// How many columns a table has: as many as its longest row, but at least one, and not more
/// than can be drawn.
pub open spec fn column_count(headers: Seq<String>, rows: Seq<Vec<String>>) -> int {
    let cells = if headers.len() > longest_row(rows) {
        headers.len()
    } else {
        longest_row(rows)
    };
    if cells < 1 {
        1
    } else if cells > MAX_TABLE_COLUMNS {
        MAX_TABLE_COLUMNS as int
    } else {
        cells as int
    }
}

/// How many rows are drawn.
pub open spec fn shown_row_count(rows: Seq<Vec<String>>) -> int {
    if rows.len() > MAX_TABLE_ROWS {
        MAX_TABLE_ROWS as int
    } else {
        rows.len() as int
    }
}

/// The characters of a cell; a row that ends before it has none there.
pub open spec fn cell_width(cells: Seq<String>, column: int) -> nat {
    if column < cells.len() {
        cells[column]@.len()
    } else {
        0
    }
}

/// The characters of the widest cell in a column.
pub open spec fn widest_cell(headers: Seq<String>, rows: Seq<Vec<String>>, column: int) -> nat
    decreases rows.len(),
{
    if rows.len() == 0 {
        cell_width(headers, column)
    } else {
        let rest = widest_cell(headers, rows.drop_last(), column);
        if cell_width(rows.last()@, column) > rest {
            cell_width(rows.last()@, column)
        } else {
            rest
        }
    }
}

/// The relative width of a column.
pub open spec fn column_weight(headers: Seq<String>, rows: Seq<Vec<String>>, column: int) -> int {
    let widest = widest_cell(headers, rows, column);
    if widest < MIN_COLUMN_WEIGHT {
        MIN_COLUMN_WEIGHT as int
    } else if widest > MAX_COLUMN_WEIGHT {
        MAX_COLUMN_WEIGHT as int
    } else {
        widest as int
    }
}

/// The weights of the first columns.
pub open spec fn sum_of(weights: Seq<usize>) -> int
    decreases weights.len(),
{
    if weights.len() == 0 {
        0
    } else {
        sum_of(weights.drop_last()) + weights.last()
    }
}

fn longest(rows: &Vec<Vec<String>>) -> (cells: usize)
    ensures
        cells == longest_row(rows@),
{
    let mut cells: usize = 0;
    let mut index: usize = 0;
    assert(rows@.take(0) =~= Seq::<Vec<String>>::empty());
    while index < rows.len()
        invariant
            index <= rows@.len(),
            cells == longest_row(rows@.take(index as int)),
        decreases rows@.len() - index,
    {
        proof {
            assert(rows@.take(index + 1).drop_last() =~= rows@.take(index as int));
        }
        if rows[index].len() > cells {
            cells = rows[index].len();
        }
        index += 1;
    }
    assert(rows@.take(rows@.len() as int) =~= rows@);
    cells
}

fn width_of(cells: &Vec<String>, column: usize) -> (width: usize)
    ensures
        width == cell_width(cells@, column as int),
{
    if column < cells.len() {
        characters(cells[column].as_str()).len()
    } else {
        0
    }
}

fn weight_of(
    headers: &Vec<String>,
    rows: &Vec<Vec<String>>,
    shown: usize,
    column: usize,
) -> (weight: usize)
    requires
        shown <= rows@.len(),
    ensures
        weight == column_weight(headers@, rows@.take(shown as int), column as int),
{
    let mut widest: usize = width_of(headers, column);
    let mut index: usize = 0;
    assert(rows@.take(0) =~= Seq::<Vec<String>>::empty());
    while index < shown
        invariant
            index <= shown <= rows@.len(),
            widest == widest_cell(headers@, rows@.take(index as int), column as int),
        decreases shown - index,
    {
        let width: usize = width_of(&rows[index], column);
        proof {
            assert(rows@.take(index + 1).drop_last() =~= rows@.take(index as int));
        }
        if width > widest {
            widest = width;
        }
        index += 1;
    }
    if widest < MIN_COLUMN_WEIGHT {
        MIN_COLUMN_WEIGHT
    } else if widest > MAX_COLUMN_WEIGHT {
        MAX_COLUMN_WEIGHT
    } else {
        widest
    }
}

/// What says how many rows are left out, if any are.
pub open spec fn hidden_note_of(hidden: int) -> Option<Seq<char>> {
    if hidden > 0 {
        Some(decimal(hidden as nat) + " more row(s) hidden"@)
    } else {
        None
    }
}

/// How a table is laid out.
pub fn table_layout(headers: &Vec<String>, rows: &Vec<Vec<String>>) -> (layout: TableLayout)
    ensures
        layout.shown_rows == shown_row_count(rows@),
        layout.weights@.len() == column_count(headers@, rows@),
        forall|column: int|
            0 <= column < layout.weights@.len() ==> (#[trigger] layout.weights@[column])
                == column_weight(headers@, rows@.take(shown_row_count(rows@)), column),
        layout.total_weight == sum_of(layout.weights@),
        match layout.hidden_note {
            Some(note) => Some(note@) == hidden_note_of(rows@.len() - layout.shown_rows),
            None => hidden_note_of(rows@.len() - layout.shown_rows) is None,
        },
        layout.id == hash_of(encode_utf8(joined_with(all_texts(headers@), "|"@))),
{
    let shown: usize = if rows.len() > MAX_TABLE_ROWS {
        MAX_TABLE_ROWS
    } else {
        rows.len()
    };
    let row_cells: usize = longest(rows);
    let cells: usize = if headers.len() > row_cells {
        headers.len()
    } else {
        row_cells
    };
    let columns: usize = if cells < 1 {
        1
    } else if cells > MAX_TABLE_COLUMNS {
        MAX_TABLE_COLUMNS
    } else {
        cells
    };
    let mut weights: Vec<usize> = Vec::new();
    let mut total: usize = 0;
    while weights.len() < columns
        invariant
            columns == column_count(headers@, rows@),
            weights@.len() <= columns <= MAX_TABLE_COLUMNS,
            shown == shown_row_count(rows@),
            forall|column: int|
                0 <= column < weights@.len() ==> (#[trigger] weights@[column]) == column_weight(
                    headers@,
                    rows@.take(shown as int),
                    column,
                ),
            total == sum_of(weights@),
            total <= MAX_COLUMN_WEIGHT * weights@.len(),
        decreases columns - weights@.len(),
    {
        let weight: usize = weight_of(headers, rows, shown, weights.len());
        let ghost before = weights@;
        weights.push(weight);
        assert(weights@.drop_last() =~= before);
        total += weight;
    }
    let hidden: usize = rows.len() - shown;
    let hidden_note: Option<String> = if hidden > 0 {
        Some(join(number_text(hidden as u64).as_str(), " more row(s) hidden"))
    } else {
        None
    };
    TableLayout {
        weights,
        total_weight: total,
        shown_rows: shown,
        hidden_note,
        id: hash_id(join_all(headers, "|").as_str()),
    }
}

proof fn lemma_cells_are_no_wider(
    headers: Seq<String>,
    rows: Seq<Vec<String>>,
    row: int,
    column: int,
)
    requires
        0 <= row <= rows.len(),
    ensures
        row < rows.len() ==> cell_width(rows[row]@, column) <= widest_cell(headers, rows, column),
        cell_width(headers, column) <= widest_cell(headers, rows, column),
    decreases rows.len(),
{
    if rows.len() > 0 {
        let rest = rows.drop_last();
        lemma_cells_are_no_wider(
            headers,
            rest,
            if row < rest.len() {
                row
            } else {
                rest.len() as int
            },
            column,
        );
    }
}

/// A column has room for its cells: it is weighed by the widest of them, up to the widest
/// a column may be.
pub proof fn a_column_is_as_wide_as_its_cells(
    headers: Seq<String>,
    rows: Seq<Vec<String>>,
    row: int,
    column: int,
)
    requires
        0 <= row < rows.len(),
    ensures
        column_weight(headers, rows, column) >= cell_width(rows[row]@, column) || column_weight(
            headers,
            rows,
            column,
        ) == MAX_COLUMN_WEIGHT,
        column_weight(headers, rows, column) >= cell_width(headers, column) || column_weight(
            headers,
            rows,
            column,
        ) == MAX_COLUMN_WEIGHT,
        MIN_COLUMN_WEIGHT <= column_weight(headers, rows, column) <= MAX_COLUMN_WEIGHT,
{
    lemma_cells_are_no_wider(headers, rows, row, column);
}

/// One cell of a table, as it is drawn.
#[derive(Debug)]
pub struct TableCell {
    pub text: String,
    /// Identifies the cell.
    pub id: u64,
    /// What the text's own id is counted from.
    pub seed: u64,
    pub weight: Weight,
    pub ink: Ink,
    pub line_right: bool,
    pub line_above: bool,
}

/// The text of a cell, without the white space around it.
pub open spec fn cell_text_of(cells: Seq<String>, column: int) -> Seq<char> {
    if column < cells.len() {
        trimmed(cells[column]@)
    } else {
        seq![]
    }
}

pub fn cell_text(cells: &Vec<String>, index: usize) -> (text: String)
    ensures
        text@ == cell_text_of(cells@, index as int),
{
    if index < cells.len() {
        trim(cells[index].as_str())
    } else {
        let empty = String::new();
        assert(empty@ =~= seq![]);
        empty
    }
}

/// What identifies a cell besides the seed: its place and its text.
pub open spec fn cell_name(row: int, column: int, text: Seq<char>) -> Seq<char> {
    decimal(row as nat) + ":"@ + decimal(column as nat) + ":"@ + text
}

/// The seed of a cell. Row 0 is the header, and each row takes as many seeds as there are
/// columns.
pub open spec fn cell_seed(seed: u64, row: int, column: int, columns: int) -> u64 {
    wrapped_sum(wrapped_sum(wrapped_product(seed, 1000), (row * columns) as u64), column as u64)
}

/// The cell in `column` of `row`, whose cells are `cells`. Row 0 is the header.
pub fn table_cell(
    cells: &Vec<String>,
    row: usize,
    column: usize,
    columns: usize,
    seed: u64,
) -> (cell: TableCell)
    requires
        row <= MAX_TABLE_ROWS,
        column < columns <= MAX_TABLE_COLUMNS,
    ensures
        cell.text@ == cell_text_of(cells@, column as int),
        cell.seed == cell_seed(seed, row as int, column as int, columns as int),
        cell.id == wrapped_sum(
            hash_of(encode_utf8(cell_name(row as int, column as int, cell.text@))),
            cell.seed,
        ),
        cell.weight == if row == 0 {
            Weight::Semibold
        } else {
            Weight::Normal
        },
        cell.ink == if row == 0 {
            Ink::Text
        } else {
            Ink::Secondary
        },
        cell.line_right == (column + 1 < columns),
        cell.line_above == (row > 0),
{
    let text: String = cell_text(cells, column);
    assert(row * columns <= MAX_TABLE_ROWS * MAX_TABLE_COLUMNS) by (nonlinear_arith)
        requires
            row <= MAX_TABLE_ROWS,
            columns <= MAX_TABLE_COLUMNS,
    ;
    let first: u64 = sum(product(seed, 1000), (row * columns) as u64);
    let own: u64 = sum(first, column as u64);
    let mut name: String = number_text(row as u64);
    name.append(":");
    name.append(number_text(column as u64).as_str());
    name.append(":");
    name.append(text.as_str());
    let id: u64 = sum(hash_id(name.as_str()), own);
    TableCell {
        text,
        id,
        seed: own,
        weight: if row == 0 {
            Weight::Semibold
        } else {
            Weight::Normal
        },
        ink: if row == 0 {
            Ink::Text
        } else {
            Ink::Secondary
        },
        line_right: column + 1 < columns,
        line_above: row > 0,
    }
}

/// Where the number of an inline text starts: its own hash, and the place of its block.
pub fn inline_id(source: &str, seed: u64) -> (id: u64)
    ensures
        id == wrapped_sum(hash_of(encode_utf8(source@)), seed),
{
    sum(hash_id(source), seed)
}

/// No two cells of a table share a seed.
pub proof fn cells_have_seeds_of_their_own(
    seed: u64,
    columns: int,
    row: int,
    column: int,
    other_row: int,
    other_column: int,
)
    requires
        1 <= columns <= MAX_TABLE_COLUMNS,
        0 <= row <= MAX_TABLE_ROWS,
        0 <= other_row <= MAX_TABLE_ROWS,
        0 <= column < columns,
        0 <= other_column < columns,
        cell_seed(seed, row, column, columns) == cell_seed(seed, other_row, other_column, columns),
    ensures
        row == other_row,
        column == other_column,
{
    assert(0 <= row * columns <= MAX_TABLE_ROWS * MAX_TABLE_COLUMNS && 0 <= other_row * columns
        <= MAX_TABLE_ROWS * MAX_TABLE_COLUMNS) by (nonlinear_arith)
        requires
            0 <= row <= MAX_TABLE_ROWS,
            0 <= other_row <= MAX_TABLE_ROWS,
            1 <= columns <= MAX_TABLE_COLUMNS,
    ;
    let base = wrapped_product(seed, 1000);
    let (place, other_place) = ((row * columns) as u64, (other_row * columns) as u64);
    lemma_wrapped_sum(base, place);
    lemma_wrapped_sum(base, other_place);
    lemma_wrapped_sum(wrapped_sum(base, place), column as u64);
    lemma_wrapped_sum(wrapped_sum(base, other_place), other_column as u64);
    assert(row * columns + column == other_row * columns + other_column);
    assert(row == other_row) by (nonlinear_arith)
        requires
            row * columns + column == other_row * columns + other_column,
            0 <= column < columns,
            0 <= other_column < columns,
    ;
}

} // verus!
