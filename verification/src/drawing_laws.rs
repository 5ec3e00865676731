//! What is drawn: tool calls, bubbles, questions, the composer, blocks, tables and colours.

use crate::blocks::{
    cell_name, cell_seed, cell_text_of, cell_width, column_count, column_weight, hidden_note_of,
    longest_row, shown_row_count, size_of_block, space_after_block, space_before_block, sum_of,
    weight_of_block, widest_cell, MarkdownBlock, Weight,
};
use crate::chat::CopyButton;
use crate::composer::{
    group_rows, menu_rows_of, model_row_of, preview_of, queue_row_of, send_button_of, MenuRowView,
    SendAction, SendFill,
};
use crate::effects::QueuedView;
use crate::ids::{hash_of, wrapped_product, wrapped_sum};
use crate::menu::ModelView;
use crate::models::{AttachmentView, MessageRole, MessageView};
use crate::state::{AppView, ClarifyView};
use crate::text::{on_boundary, utf8_len};
use crate::theme::{color_of, Color, Theme};
use crate::transcript::{
    activity_of, attachment_names, bubble_of, card_of, hyphenated, shown_detail, BubbleView,
};
use crate::word_laws::number_of;
use crate::words::{decimal, joined_with, trimmed};
use vstd::prelude::*;
use vstd::utf8::encode_utf8;

verus! {

// -- tool calls --------------------------------------------------------------------

/// Unfolded, the first twelve tool calls are drawn in the order in which they were made, each
/// under its number, its name and how it went; folded away, none is.
pub proof fn tool_calls_are_drawn_in_order(
    message: MessageView,
    expanded: bool,
    duration: Seq<char>,
    index: int,
)
    ensures
        ({
            let drawn = activity_of(message, expanded, duration).rows;
            let calls = message.tool_calls;
            &&& !expanded ==> drawn.len() == 0
            &&& expanded && calls.len() <= 12 ==> drawn.len() == calls.len()
            &&& expanded && calls.len() > 12 ==> drawn.len() == 12
            &&& 0 <= index < drawn.len() ==> {
                &&& drawn[index].title == decimal((index + 1) as nat) + ". "@ + calls[index].name
                    + " · "@ + calls[index].status
                &&& drawn[index].detail == shown_detail(calls[index].detail)
            }
        }),
{
}

/// A detail is drawn as it is; one that is empty is named so, and one of more than three
/// thousand bytes is cut there and marked.
pub proof fn a_detail_is_drawn_as_it_is(detail: Seq<char>)
    ensures
        0 < utf8_len(detail) <= 3000 ==> shown_detail(detail) == detail,
        detail.len() == 0 ==> shown_detail(detail) == "No detail"@,
        utf8_len(detail) > 3000 && on_boundary(detail, 3000) ==> exists|kept: Seq<char>|
            encode_utf8(kept) == encode_utf8(detail).take(3000) && shown_detail(detail)
                == #[trigger] (kept + "\n..."@),
{
    if detail.len() == 0 {
        assert(detail =~= Seq::<char>::empty());
        assert(utf8_len(detail) == 0) by {
            reveal_with_fuel(vstd::utf8::encode_utf8, 2);
        }
    }
    if 0 < utf8_len(detail) <= 3000 {
        assert(detail.len() > 0) by {
            if detail.len() == 0 {
                assert(detail =~= Seq::<char>::empty());
                reveal_with_fuel(vstd::utf8::encode_utf8, 2);
            }
        }
    }
    if utf8_len(detail) > 3000 && on_boundary(detail, 3000) {
        crate::text::lemma_ends_are_boundaries(detail);
        crate::cuts::lemma_between_bytes(detail, 0, 3000);
        let kept = crate::text::text_between(detail, 0, 3000);
        assert(encode_utf8(detail).subrange(0, 3000) =~= encode_utf8(detail).take(3000));
        assert(shown_detail(detail) == kept + "\n..."@);
    }
}

/// The line above a reply says whether it is still being written and how long it took; the
/// pill counts the tool calls and says what it does.
pub proof fn a_reply_says_how_long_it_took(
    message: MessageView,
    expanded: bool,
    duration: Seq<char>,
)
    ensures
        ({
            let drawn = activity_of(message, expanded, duration);
            let count = decimal(message.tool_calls.len());
            &&& message.is_streaming ==> drawn.thinking == "Thinking · "@ + duration
            &&& !message.is_streaming ==> drawn.thinking == "Thought for "@ + duration
            &&& message.tool_calls.len() == 0 ==> drawn.pill is None
            &&& message.tool_calls.len() > 0 && expanded ==> drawn.pill == Some(
                "Tool calls · "@ + count + " · hide"@,
            )
            &&& message.tool_calls.len() > 0 && !expanded ==> drawn.pill == Some(
                "Tool calls · "@ + count + " · show"@,
            )
            &&& drawn.hidden_note is Some <==> expanded && message.tool_calls.len() > 12
        }),
{
}

// -- bubbles -------------------------------------------------------------------------

/// What the user wrote is drawn with the names of the files that were attached, in their
/// order, each marked as a file.
pub proof fn a_prompt_is_drawn_with_its_files(
    message: MessageView,
    expanded: bool,
    copy: CopyButton,
    duration: Seq<char>,
    index: int,
)
    requires
        message.role == MessageRole::User,
    ensures
        bubble_of(message, expanded, copy, duration) is User,
        ({
            let drawn = bubble_of(message, expanded, copy, duration)->User_attachments;
            &&& drawn.len() == message.attachments.len()
            &&& 0 <= index < drawn.len() ==> drawn[index] == "@"@ + message.attachments[index].name
        }),
{
}

/// A reply is drawn with its text where it says something, with what the agent did where it
/// did or does something, and with a copy button once it is finished and says something.
/// Everything else is drawn as plain text.
pub proof fn a_reply_is_drawn_with_what_it_has(
    message: MessageView,
    expanded: bool,
    copy: CopyButton,
    duration: Seq<char>,
)
    ensures
        ({
            let drawn = bubble_of(message, expanded, copy, duration);
            let says_something = trimmed(message.content).len() > 0;
            &&& message.role == MessageRole::Assistant ==> {
                &&& drawn is Assistant
                &&& drawn->streaming == message.is_streaming
                &&& drawn->shows_text == says_something
                &&& drawn->activity is Some <==> message.is_streaming
                    || message.tool_calls.len() > 0
                &&& drawn->activity is Some ==> drawn->activity == Some(
                    activity_of(message, expanded, duration),
                )
                &&& drawn->copy is Some <==> !message.is_streaming && says_something
                &&& drawn->copy is Some ==> drawn->copy == Some(copy)
            }
            &&& message.role == MessageRole::System || message.role == MessageRole::Tool ==> drawn
                == BubbleView::Plain(message.content)
        }),
{
}

/// A label is found by its characters, with a hyphen for every space.
pub proof fn a_label_has_hyphens_for_spaces(text: Seq<char>, index: int)
    ensures
        hyphenated(text).len() == text.len(),
        0 <= index < text.len() && text[index] == ' ' ==> hyphenated(text)[index] == '-',
        0 <= index < text.len() && text[index] != ' ' ==> hyphenated(text)[index] == text[index],
{
}

/// A question is drawn in the backend's name with its choices in their order, numbered from
/// one, and a hint that depends on whether there are any.
pub proof fn a_question_is_drawn_with_its_choices(
    clarify: ClarifyView,
    backend: Seq<char>,
    index: int,
)
    ensures
        ({
            let card = card_of(clarify, backend);
            &&& card.title == backend + " needs your confirmation"@
            &&& card.question == clarify.question
            &&& card.choices.len() == clarify.choices.len()
            &&& 0 <= index < card.choices.len() ==> number_of(card.choices[index].0) == index + 1
                && card.choices[index].1 == clarify.choices[index]
            &&& clarify.choices.len() == 0 ==> card.hint
                == "Type your answer below and press Enter"@
            &&& clarify.choices.len() > 0 ==> card.hint
                == "Or type a custom answer below and press Enter"@
        }),
{
    if 0 <= index < clarify.choices.len() {
        crate::word_laws::a_number_reads_as_itself((index + 1) as nat);
    }
}

// -- the composer ---------------------------------------------------------------------

/// A waiting prompt is shown by its text, and with the names of its files where it has some;
/// its buttons are known by the number of its id.
pub proof fn a_waiting_prompt_is_shown_by_its_text(queued: QueuedView)
    ensures
        queue_row_of(queued).id == hash_of(encode_utf8(queued.id)),
        queue_row_of(queued).preview == preview_of(queued),
        queued.attachments.len() == 0 ==> preview_of(queued) == queued.text,
        queued.attachments.len() > 0 && queued.text.len() > 0 ==> preview_of(queued) == queued.text
            + "\n["@ + joined_with(
            queued.attachments.map_values(|file: AttachmentView| "@"@ + file.name),
            " "@,
        ) + "]"@,
        queued.attachments.len() > 0 && queued.text.len() == 0 ==> preview_of(queued)
            == "Attached files"@ + "\n["@ + joined_with(
            queued.attachments.map_values(|file: AttachmentView| "@"@ + file.name),
            " "@,
        ) + "]"@,
{
    assert(attachment_names(queued.attachments) =~= queued.attachments.map_values(
        |file: AttachmentView| "@"@ + file.name,
    ));
}

/// The button stops a turn that runs while no question is open, and sends otherwise; it says
/// by its colour what pressing it does, and whether it can be pressed.
pub proof fn the_button_says_what_it_does(
    asking: bool,
    sending: bool,
    can_send: bool,
    typed: Seq<char>,
)
    ensures
        ({
            let button = send_button_of(asking, sending, can_send, typed);
            &&& button.shows_stop <==> sending && !asking
            &&& button.action == SendAction::Interrupt <==> sending && !asking
            &&& button.fill == SendFill::Danger <==> sending && !asking
            &&& asking ==> (button.enabled <==> trimmed(typed).len() > 0)
            &&& !asking && !sending ==> (button.enabled <==> can_send)
            &&& !asking && sending ==> button.enabled
            &&& !button.shows_stop ==> (button.fill == SendFill::Accent <==> button.enabled)
            &&& !button.shows_stop ==> (button.fill == SendFill::Neutral <==> !button.enabled)
        }),
{
}

/// The model button names the model that is configured, else the one that the session on
/// screen runs on, else the backend.
pub proof fn the_model_button_names_the_model(state: AppView)
    ensures
        trimmed(state.model_name).len() > 0 ==> state.model_label() == trimmed(state.model_name),
        trimmed(state.model_name).len() == 0 && state.selected is Some && state.selected->0.model
            is Some ==> state.model_label() == state.selected->0.model->0,
        trimmed(state.model_name).len() == 0 && (state.selected is None || state.selected->0.model
            is None) ==> state.model_label() == state.settings.backend_kind.name_of(),
{
}

/// The menu draws its providers in their order, each followed by its own models in theirs.
pub proof fn the_menu_draws_every_group_in_order(
    left: Seq<(Seq<char>, Seq<ModelView>)>,
    right: Seq<(Seq<char>, Seq<ModelView>)>,
    provider: Seq<char>,
    model: Seq<char>,
    group: (Seq<char>, Seq<ModelView>),
    index: int,
)
    ensures
        menu_rows_of(left + right, provider, model) == menu_rows_of(left, provider, model)
            + menu_rows_of(right, provider, model),
        menu_rows_of(seq![group], provider, model).len() == 1 + group.1.len(),
        menu_rows_of(seq![group], provider, model)[0] == MenuRowView::Provider(group.0),
        0 <= index < group.1.len() ==> {
            let row = menu_rows_of(seq![group], provider, model)[index + 1];
            &&& row is Model
            &&& row->option == group.1[index]
            &&& row->current <==> group.1[index].provider == provider && group.1[index].model
                == model
        },
    decreases right.len(),
{
    let all = left + right;
    if right.len() == 0 {
        assert(all =~= left);
        assert(menu_rows_of(left, provider, model) + menu_rows_of(right, provider, model)
            =~= menu_rows_of(left, provider, model));
    } else {
        let rest = right.drop_last();
        the_menu_draws_every_group_in_order(left, rest, provider, model, group, index);
        assert(all.drop_last() =~= left + rest);
        assert(all.last() == right.last());
        assert(menu_rows_of(left, provider, model) + menu_rows_of(right, provider, model)
            =~= menu_rows_of(left + rest, provider, model) + group_rows(
            right.last(),
            provider,
            model,
        ));
    }
    let one = seq![group];
    assert(one.drop_last() =~= Seq::<(Seq<char>, Seq<ModelView>)>::empty());
    assert(menu_rows_of(one.drop_last(), provider, model).len() == 0);
    assert(menu_rows_of(one, provider, model) =~= group_rows(group, provider, model));
}

/// The line of a model is known by the number of its provider and its name, kept apart by
/// the unit separator.
pub proof fn a_model_is_known_by_provider_and_name(
    option: ModelView,
    provider: Seq<char>,
    model: Seq<char>,
)
    ensures
        model_row_of(option, provider, model)->id == hash_of(
            encode_utf8(option.provider + "\u{1f}"@ + option.model),
        ),
{
}

// -- numbers of ids -------------------------------------------------------------------

/// The number of an id starts from the offset basis; each byte is mixed in from the first to
/// the last, and after each the number is multiplied by the prime, modulo two to the
/// sixty-fourth.
pub proof fn an_id_is_hashed_byte_by_byte(bytes: Seq<u8>, byte: u8)
    ensures
        hash_of(seq![]) == 14695981039346656037,
        hash_of(bytes.push(byte)) == ((hash_of(bytes) ^ (byte as u64)) as int * 1099511628211)
            % 18446744073709551616,
{
    reveal(wrapped_product);
    assert(bytes.push(byte).drop_last() =~= bytes);
}

// -- blocks ------------------------------------------------------------------------------

/// Headings are set in three sizes, the first level bold; code and tables are set smaller
/// than the body, everything else as the body.
pub proof fn blocks_are_set_by_kind(block: MarkdownBlock)
    ensures
        block matches MarkdownBlock::Heading(level, _) ==> size_of_block(block) == (if level == 1 {
            24u32
        } else if level == 2 {
            20
        } else {
            17
        }) && weight_of_block(block) == if level == 1 {
            Weight::Bold
        } else {
            Weight::Semibold
        },
        block is Code || block is Table ==> size_of_block(block) == 12,
        block is Paragraph || block is Bullet || block is Numbered || block is Quote || block
            is Separator ==> size_of_block(block) == 13,
        block !is Heading ==> weight_of_block(block) == Weight::Normal,
{
}

/// Headings, paragraphs and rules stand apart from what is around them; items, quotes, code
/// and tables do not.
pub proof fn blocks_stand_apart_by_kind(block: MarkdownBlock)
    ensures
        block is Heading ==> space_before_block(block, false) == 16 && space_after_block(block)
            == 4,
        block is Paragraph ==> space_before_block(block, false) == 4 && space_after_block(block)
            == 4,
        block is Separator ==> space_before_block(block, false) == 8 && space_after_block(block)
            == 8,
        block is Bullet || block is Numbered || block is Quote || block is Code || block is Table
            ==> space_before_block(block, false) == 0 && space_after_block(block) == 0,
{
}

/// The longest row has as many cells as any row, and some row has as many.
pub proof fn the_longest_row_is_a_row(rows: Seq<Vec<String>>)
    ensures
        forall|i: int| 0 <= i < rows.len() ==> (#[trigger] rows[i])@.len() <= longest_row(rows),
        rows.len() == 0 ==> longest_row(rows) == 0,
        rows.len() > 0 ==> exists|i: int|
            0 <= i < rows.len() && (#[trigger] rows[i])@.len() == longest_row(rows),
    decreases rows.len(),
{
    if rows.len() > 0 {
        let rest = rows.drop_last();
        the_longest_row_is_a_row(rest);
        assert forall|i: int| 0 <= i < rows.len() implies (#[trigger] rows[i])@.len()
            <= longest_row(rows) by {
            if i < rest.len() {
                assert(rest[i]@.len() <= longest_row(rest));
            }
        }
        if rows.last()@.len() > longest_row(rest) || rest.len() == 0 {
            assert(rows[rows.len() - 1]@.len() == longest_row(rows));
        } else {
            let i = choose|i: int|
                0 <= i < rest.len() && (#[trigger] rest[i])@.len() == longest_row(rest);
            assert(rows[i]@.len() == longest_row(rows));
        }
    }
}

/// A table has a column for every cell of its longest row and its headers, but at least one
/// and at most eight; at most eighty of its rows are drawn, and a note counts the others.
pub proof fn a_table_is_drawn_within_bounds(headers: Seq<String>, rows: Seq<Vec<String>>)
    ensures
        1 <= column_count(headers, rows) <= 8,
        headers.len() <= 8 ==> column_count(headers, rows) >= headers.len(),
        forall|i: int|
            0 <= i < rows.len() && (#[trigger] rows[i])@.len() <= 8 ==> column_count(headers, rows)
                >= rows[i]@.len(),
        headers.len() > 8 ==> column_count(headers, rows) == 8,
        column_count(headers, rows) > 1 && column_count(headers, rows) != headers.len()
            ==> headers.len() > 8 || exists|i: int|
            0 <= i < rows.len() && (#[trigger] rows[i])@.len() >= column_count(headers, rows),
        rows.len() <= 80 ==> shown_row_count(rows) == rows.len(),
        rows.len() > 80 ==> shown_row_count(rows) == 80,
        rows.len() <= 80 ==> hidden_note_of(rows.len() - shown_row_count(rows)) is None,
        rows.len() > 80 ==> hidden_note_of(rows.len() - shown_row_count(rows)) == Some(
            decimal((rows.len() - 80) as nat) + " more row(s) hidden"@,
        ),
{
    the_longest_row_is_a_row(rows);
    if rows.len() > 0 {
        let i = choose|i: int|
            0 <= i < rows.len() && (#[trigger] rows[i])@.len() == longest_row(rows);
        assert(rows[i]@.len() == longest_row(rows));
    }
}

/// A column is weighed by the widest of its cells, the header's or some row's, and by no
/// wider one; a row that ends before the column has none there.
pub proof fn a_column_is_weighed_by_its_widest_cell(
    headers: Seq<String>,
    rows: Seq<Vec<String>>,
    column: int,
)
    requires
        0 <= column,
    ensures
        widest_cell(headers, rows, column) == (if column < headers.len() {
            headers[column]@.len()
        } else {
            0
        }) || exists|i: int|
            0 <= i < rows.len() && column < (#[trigger] rows[i])@.len() && widest_cell(
                headers,
                rows,
                column,
            ) == rows[i]@[column]@.len(),
        column < headers.len() ==> widest_cell(headers, rows, column) >= headers[column]@.len(),
        forall|i: int|
            0 <= i < rows.len() && column < (#[trigger] rows[i])@.len() ==> widest_cell(
                headers,
                rows,
                column,
            ) >= rows[i]@[column]@.len(),
        4 <= widest_cell(headers, rows, column) <= 32 ==> column_weight(headers, rows, column)
            == widest_cell(headers, rows, column),
        widest_cell(headers, rows, column) < 4 ==> column_weight(headers, rows, column) == 4,
        widest_cell(headers, rows, column) > 32 ==> column_weight(headers, rows, column) == 32,
    decreases rows.len(),
{
    if rows.len() > 0 {
        let rest = rows.drop_last();
        a_column_is_weighed_by_its_widest_cell(headers, rest, column);
        let widest = widest_cell(headers, rest, column);
        assert forall|i: int|
            0 <= i < rows.len() && column < (#[trigger] rows[i])@.len() implies widest_cell(
            headers,
            rows,
            column,
        ) >= rows[i]@[column]@.len() by {
            if i < rest.len() {
                assert(rest[i] == rows[i]);
            }
        }
        if cell_width(rows.last()@, column) > widest {
            assert(column < rows[rows.len() - 1]@.len());
        } else if exists|i: int|
            0 <= i < rest.len() && column < (#[trigger] rest[i])@.len() && widest
                == rest[i]@[column]@.len() {
            let i = choose|i: int|
                0 <= i < rest.len() && column < (#[trigger] rest[i])@.len() && widest
                    == rest[i]@[column]@.len();
            assert(rows[i] == rest[i]);
        }
    }
}

/// The weights of all columns add up.
pub proof fn weights_add_up(left: Seq<usize>, right: Seq<usize>, weight: usize)
    ensures
        sum_of(seq![weight]) == weight,
        sum_of(left + right) == sum_of(left) + sum_of(right),
    decreases right.len(),
{
    let one = seq![weight];
    assert(one.drop_last() =~= Seq::<usize>::empty());
    assert(sum_of(one.drop_last()) == 0);
    let all = left + right;
    if right.len() == 0 {
        assert(all =~= left);
    } else {
        weights_add_up(left, right.drop_last(), weight);
        assert(all.drop_last() =~= left + right.drop_last());
    }
}

/// A cell shows its text without the white space around it, and nothing where its row has
/// ended; it is named by its place and its text.
pub proof fn a_cell_shows_its_text(cells: Seq<String>, row: int, column: int, text: Seq<char>)
    requires
        0 <= column,
        0 <= row,
    ensures
        column < cells.len() ==> cell_text_of(cells, column) == trimmed(cells[column]@),
        column >= cells.len() ==> cell_text_of(cells, column).len() == 0,
        cell_name(row, column, text) == decimal(row as nat) + ":"@ + decimal(column as nat) + ":"@
            + text,
{
}

/// The seeds of a table's cells follow one another, row by row, from a thousand times the
/// table's own.
pub proof fn cell_seeds_follow_one_another(seed: u64, row: int, column: int, columns: int)
    requires
        1 <= columns <= 8,
        0 <= row <= 80,
        0 <= column < columns,
    ensures
        cell_seed(seed, row, column, columns) == (seed as int * 1000 + row * columns + column)
            % 18446744073709551616,
{
    reveal(wrapped_product);
    reveal(wrapped_sum);
    assert(0 <= row * columns <= 640) by (nonlinear_arith)
        requires
            0 <= row <= 80,
            1 <= columns <= 8,
    ;
    let place = row * columns;
    let base = wrapped_product(seed, 1000);
    assert(base as int == (seed as int * 1000) % 18446744073709551616);
    let first = wrapped_sum(base, place as u64);
    assert(first as int == (base as int + place) % 18446744073709551616);
}

// -- colours --------------------------------------------------------------------------

/// A colour has the three bytes of its value for channels, red first, and covers at most
/// everything under it.
pub proof fn a_colour_has_the_bytes_of_its_value(red: u8, green: u8, blue: u8, alpha: int)
    ensures
        ({
            let value = (red as int * 65536 + green as int * 256 + blue as int) as u32;
            let color = color_of(value, alpha);
            &&& color.red == red
            &&& color.green == green
            &&& color.blue == blue
            &&& 0 <= alpha <= 100 ==> color.alpha == alpha
            &&& alpha > 100 ==> color.alpha == 100
        }),
{
}

/// The light palette has the first colour of a pair and the dark one the second, in full.
pub proof fn a_palette_has_its_own_colours(day: u32, night: u32)
    ensures
        (Theme { light: true }).pick(day, night) == color_of(day, 100),
        (Theme { light: false }).pick(day, night) == color_of(night, 100),
{
}

/// The lightness of a colour is that of its strongest and its weakest channel together,
/// whichever they are.
pub proof fn lightness_is_that_of_the_extremes(color: Color, most: u8, least: u8)
    requires
        most == color.red || most == color.green || most == color.blue,
        least == color.red || least == color.green || least == color.blue,
        least <= color.red <= most,
        least <= color.green <= most,
        least <= color.blue <= most,
    ensures
        color.lightness_of() == most + least,
{
}

/// A fill of more than half lightness gets a black label, every other one the colour of
/// text.
pub proof fn a_bright_fill_gets_a_black_label(theme: Theme, fill: Color)
    ensures
        fill.lightness_of() > 255 ==> theme.label_for(fill) == (Color {
            red: 0,
            green: 0,
            blue: 0,
            alpha: 100,
        }),
        fill.lightness_of() <= 255 && theme.light ==> theme.label_for(fill) == color_of(
            0x202126,
            100,
        ),
        fill.lightness_of() <= 255 && !theme.light ==> theme.label_for(fill) == color_of(
            0xe8e8ec,
            100,
        ),
{
}

} // verus!
