use std::ops::Range;
use van_goal::editor::{box_rows, Editor, EditorEvent, LineSource, PointerHit};
use van_goal::rows::{line_entries, row_of_index, selection_rows, LineEntry, WrappedLine};
use van_goal::text::{byte_offset_from_utf16, normalize_single_line, utf16_offset_from_byte};

#[test]
fn pasted_single_line_values_drop_terminal_line_breaks() {
    assert_eq!(normalize_single_line("gateway-token\r\n"), "gateway-token");
}

// -- an input method's calls ---------------------------------------------------

fn appkit_set_marked_text(
    editor: &mut Editor,
    text: &str,
    selected_range: Option<(usize, usize)>,
    replacement_range: Option<(usize, usize)>,
) {
    let selected_range = selected_range.map(|(location, length)| location..location + length);
    let replacement_range = replacement_range.map(|(location, length)| location..location + length);
    editor.replace_and_mark_text_in_range(replacement_range, text, selected_range);
}

fn appkit_insert_text(editor: &mut Editor, text: &str, replacement_range: Option<(usize, usize)>) {
    let replacement_range = replacement_range.map(|(location, length)| location..location + length);
    editor.replace_text_in_range(replacement_range, text);
}

fn appkit_marked_range(editor: &Editor) -> Option<(usize, usize)> {
    editor
        .marked_text_range()
        .map(|range| (range.start, range.end - range.start))
}

fn editor_state(editor: &Editor) -> (String, Range<usize>, Option<Range<usize>>) {
    (
        editor.content.clone(),
        editor.selected_range.clone(),
        editor.marked_range.clone(),
    )
}

/// Every range the editor keeps must be usable for slicing `content`.
fn assert_ranges_in_bounds(editor: &Editor, step: &str) {
    let (content, selected, marked) = editor_state(editor);
    for (name, range) in [("selected_range", Some(selected)), ("marked_range", marked)] {
        let Some(range) = range else { continue };
        assert!(
            range.start <= range.end && range.end <= content.len(),
            "{step}: {name} {range:?} escapes content of {} bytes ({content:?})",
            content.len()
        );
        assert!(
            content.is_char_boundary(range.start) && content.is_char_boundary(range.end),
            "{step}: {name} {range:?} is not on char boundaries ({content:?})"
        );
    }
}

fn pinyin_commit(editor: &mut Editor, keys: &str, commit: &str) {
    for (index, _) in keys.char_indices().skip(1) {
        let marked = appkit_marked_range(editor);
        let composition = &keys[..index];
        appkit_set_marked_text(
            editor,
            composition,
            Some((composition.chars().count(), 0)),
            marked,
        );
        assert_ranges_in_bounds(editor, &format!("composing {composition}"));
    }
    let marked = appkit_marked_range(editor);
    appkit_set_marked_text(editor, keys, Some((keys.chars().count(), 0)), marked);
    assert_ranges_in_bounds(editor, &format!("composing {keys}"));
    appkit_insert_text(editor, commit, None);
    assert_ranges_in_bounds(editor, &format!("committing {commit}"));
}

#[test]
fn ime_unmark_then_ascii_insert_does_not_slice_out_of_bounds() {
    let mut editor = Editor::wrapped_single_line();

    // Compose "ni" (the live marked range is passed as the range to replace).
    appkit_set_marked_text(&mut editor, "n", Some((1, 0)), None);
    let marked = appkit_marked_range(&editor);
    appkit_set_marked_text(&mut editor, "ni", Some((2, 0)), marked);

    // The composition is unmarked, then the next key arrives with no range.
    editor.unmark_text();
    appkit_insert_text(&mut editor, "x", None);

    let (content, selected, marked) = editor_state(&editor);
    assert_eq!(content, "nix");
    assert_eq!(selected, content.len()..content.len());
    assert_eq!(marked, None);
}

#[test]
fn pinyin_session_over_committed_chinese_stays_in_bounds() {
    let mut editor = Editor::wrapped_single_line();

    pinyin_commit(&mut editor, "nihao", "你好");
    appkit_insert_text(&mut editor, " ", None);
    pinyin_commit(&mut editor, "shi", "是");
    appkit_insert_text(&mut editor, " ", None);
    pinyin_commit(&mut editor, "zhongguo", "中国");

    editor.unmark_text();
    assert_ranges_in_bounds(&editor, "after unmarkText");
    appkit_insert_text(&mut editor, "!", None);
    assert_ranges_in_bounds(&editor, "after ascii insert");

    let (content, selected, marked) = editor_state(&editor);
    assert_eq!(content, "你好 是 中国!");
    assert_eq!(selected, content.len()..content.len());
    assert_eq!(marked, None);
}

// -- layouts ---------------------------------------------------------------------

/// The lines of `content`, each wrapped after `width` bytes.
fn layout(content: &str, width: usize) -> Vec<LineEntry> {
    let wrapped = content
        .split('\n')
        .map(|line| {
            let mut row_ends: Vec<usize> = Vec::new();
            let mut end = width;
            while end < line.len() {
                row_ends.push(end);
                end += width;
            }
            row_ends.push(line.len());
            WrappedLine { row_ends }
        })
        .collect();
    line_entries(content, wrapped)
}

fn laid_out(content: &str, width: usize) -> Editor {
    let mut editor = Editor::new();
    editor.set_text(content.to_string());
    let lines = layout(content, width);
    editor.adopt_lines(lines);
    editor
}

/// A drag across part of the content selects exactly those characters, and copying puts
/// them on the clipboard.
#[test]
fn mouse_drag_selects_text_and_cmd_c_copies_it() {
    let mut editor = laid_out("hello brave world", 320);
    editor.on_mouse_down(PointerHit::Line { line: 0, closest: 6 }, false);
    editor.on_mouse_move(PointerHit::Line { line: 0, closest: 11 });
    editor.on_mouse_up();

    let (content, selected, _) = editor_state(&editor);
    assert_eq!(&content[selected.clone()], "brave", "drag did not select 'brave'");
    assert_eq!(editor.copy().as_deref(), Some("brave"));
}

/// A drag that starts on one wrapped row and ends on the next must select only the span
/// between the two points.
#[test]
fn mouse_drag_across_wrapped_rows_selects_only_the_span() {
    let content = "hello brave world and hello brave world again";
    let mut editor = laid_out(content, 22);
    let first = 0;
    // The first byte of the second row.
    let second = (0..content.len())
        .find(|byte| row_of_index(&editor.lines[0].line, *byte) == 1)
        .expect("the content did not wrap onto a second row");

    editor.on_mouse_down(PointerHit::Line { line: 0, closest: first }, false);
    editor.on_mouse_move(PointerHit::Line { line: 0, closest: second });
    editor.on_mouse_up();

    let (content, selected, _) = editor_state(&editor);
    assert_eq!(selected.start, first, "anchor moved");
    assert_eq!(selected.end, second, "the drag ran past the second row");
    assert!(
        selected.end < content.len(),
        "crossing rows selected to the end of the content"
    );
}

/// With the caret at the end of a twelve-row paste, the first rows are scrolled off and
/// the caret's row is on screen.
#[test]
fn content_taller_than_the_box_follows_the_caret() {
    let content: String = (0..12).map(|row| format!("line {row}\n")).collect();
    let editor = laid_out(&content, 320);
    let scroll = editor.scroll_row;
    assert!(
        scroll > 0,
        "the caret at the end of the paste was not scrolled into view"
    );
    assert!(scroll < 12, "the scroll window ran past the content");
}

fn numbered_lines(count: usize) -> String {
    (0..count)
        .map(|row| format!("line {row}"))
        .collect::<Vec<_>>()
        .join("\n")
}

/// Once the editor is scrolled, its first visible row owns the top of the box.
#[test]
fn a_click_after_scrolling_hits_the_visible_row() {
    let mut editor = laid_out(&numbered_lines(14), 320);
    let scroll_row = editor.scroll_row;
    let first_visible_byte = editor.lines[scroll_row].byte_start;
    assert!(scroll_row > 0, "fixture did not scroll");

    // The line that is drawn at the top of the box.
    let top = (0..editor.lines.len())
        .find(|line| editor.visible_row_of_line(*line) == Some(0))
        .expect("no line at the top");
    editor.on_mouse_down(PointerHit::Line { line: top, closest: 0 }, false);
    editor.on_mouse_up();

    let selected = editor.selected_range.clone();
    assert!(
        selected.start >= first_visible_byte,
        "top visible row starts at {first_visible_byte}, click landed at {}",
        selected.start
    );
}

/// Scrolling by hand is a deliberate move and must survive the next layout instead of
/// snapping straight back to the caret.
#[test]
fn dragging_the_vertical_thumb_keeps_the_new_scroll_position() {
    let content = numbered_lines(20);
    let mut editor = laid_out(&content, 320);
    editor.selected_range = 0..0;
    editor.scroll_row = 0;
    editor.follow_cursor = false;
    let lines = layout(&content, 320);
    editor.adopt_lines(lines);

    editor.on_scrollbar_down();
    editor.scroll_to(12);
    editor.on_mouse_up();
    let lines = layout(&content, 320);
    editor.adopt_lines(lines);

    assert!(editor.scroll_row > 0, "thumb drag did not scroll");
    assert_eq!(editor.scroll_row, 12);
    assert!(!editor.follow_cursor, "paint re-enabled caret following");
}

// -- editing ---------------------------------------------------------------------

#[test]
fn typing_replaces_the_selection_and_moves_the_caret() {
    let mut editor = Editor::new();
    assert_eq!(editor.replace_text_in_range(None, "hello"), EditorEvent::Change);
    assert_eq!(editor.selected_range, 5..5);
    editor.selected_range = 1..4;
    editor.replace_text_in_range(None, "ipp");
    assert_eq!(editor.text(), "hippo");
    assert_eq!(editor.selected_range, 4..4);
    editor.clear();
    assert_eq!(editor.text(), "");
    assert_eq!(editor.selected_range, 0..0);
}

#[test]
fn the_caret_moves_over_whole_graphemes() {
    let mut editor = Editor::new();
    // A family of three joined people, and an e with a combining accent.
    editor.set_text("a\u{1F468}\u{200D}\u{1F469}\u{200D}\u{1F467}e\u{301}".to_string());
    let family = 4 + 3 + 4 + 3 + 4;
    assert_eq!(editor.previous_boundary(1 + family + 3), 1 + family);
    assert_eq!(editor.previous_boundary(1 + family), 1);
    assert_eq!(editor.next_boundary(1), 1 + family);
    editor.move_to(1 + family);
    assert_eq!(editor.backspace(), EditorEvent::Change);
    assert_eq!(editor.text(), "ae\u{301}");
    editor.delete();
    assert_eq!(editor.text(), "a");
}

#[test]
fn left_and_right_leave_a_selection_at_its_ends() {
    let mut editor = Editor::new();
    editor.set_text("hello".to_string());
    editor.selected_range = 1..4;
    editor.left();
    assert_eq!(editor.selected_range, 1..1);
    editor.selected_range = 1..4;
    editor.right();
    assert_eq!(editor.selected_range, 4..4);
    editor.right();
    assert_eq!(editor.selected_range, 5..5);
    editor.select_left();
    editor.select_left();
    assert_eq!(editor.selected_range, 3..5);
    assert!(editor.selection_reversed);
    editor.select_right();
    assert_eq!(editor.selected_range, 4..5);
    editor.select_all();
    assert_eq!(editor.selected_range, 0..5);
}

#[test]
fn home_and_end_stay_on_the_line() {
    let mut editor = Editor::new();
    editor.set_text("one\ntwo\nthree".to_string());
    editor.move_to(5);
    editor.home();
    assert_eq!(editor.selected_range, 4..4);
    editor.end();
    assert_eq!(editor.selected_range, 7..7);
    editor.up();
    assert_eq!(editor.cursor_offset(), 3);
    editor.down();
    assert_eq!(editor.cursor_offset(), 7);
    editor.select_up();
    assert_eq!(editor.selected_range, 3..7);
    editor.select_down();
    assert_eq!(editor.selected_range, 7..7);
}

#[test]
fn a_cut_text_can_be_pasted_back() {
    let mut editor = Editor::new();
    editor.set_text("hello brave world".to_string());
    editor.selected_range = 6..12;
    let (cut, event) = editor.cut().expect("something was selected");
    assert_eq!(cut, "brave ");
    assert_eq!(event, EditorEvent::Change);
    assert_eq!(editor.text(), "hello world");
    assert_eq!(editor.paste(Some(&cut)), Some(EditorEvent::Change));
    assert_eq!(editor.text(), "hello brave world");
    assert_eq!(editor.paste(None), None);
    assert!(editor.cut().is_none(), "nothing is selected");
    assert_eq!(editor.copy(), None);
}

#[test]
fn a_single_line_field_takes_no_line_break() {
    let mut editor = Editor::single_line();
    editor.paste(Some("one\r\ntwo\n"));
    assert_eq!(editor.text(), "onetwo");
    assert_eq!(editor.insert_newline(), EditorEvent::Submit);
    assert_eq!(editor.text(), "onetwo");
    editor.replace_and_mark_text_in_range(Some(0..3), "1\n1", None);
    assert_eq!(editor.text(), "11two");
    assert_eq!(editor.marked_range, Some(0..2));
    let mut editor = Editor::new();
    assert_eq!(editor.insert_newline(), EditorEvent::Change);
    assert_eq!(editor.text(), "\n");
    assert_eq!(editor.submit(), EditorEvent::Submit);
}

#[test]
fn offsets_count_in_both_encodings() {
    let text = "a你\u{1F44B}b";
    // Bytes: 1, 3, 4, 1. Units: 1, 1, 2, 1.
    assert_eq!(byte_offset_from_utf16(text, 2), 4);
    assert_eq!(byte_offset_from_utf16(text, 3), 8);
    assert_eq!(byte_offset_from_utf16(text, 4), 8);
    assert_eq!(byte_offset_from_utf16(text, 99), 9);
    assert_eq!(utf16_offset_from_byte(text, 4), 2);
    assert_eq!(utf16_offset_from_byte(text, 8), 4);
    assert_eq!(utf16_offset_from_byte(text, 9), 5);
    for units in [0, 1, 2, 4, 5] {
        let bytes = byte_offset_from_utf16(text, units);
        assert_eq!(utf16_offset_from_byte(text, bytes), units);
    }
    for bytes in [0, 1, 4, 8, 9] {
        let units = utf16_offset_from_byte(text, bytes);
        assert_eq!(byte_offset_from_utf16(text, units), bytes);
    }
    let mut editor = Editor::new();
    editor.set_text(text.to_string());
    assert_eq!(editor.range_to_utf16(4..8), 2..4);
    assert_eq!(editor.range_from_utf16(2..4), 4..8);
    assert_eq!(editor.text_for_range(2..4), ("\u{1F44B}".to_string(), 2..4));
    assert_eq!(editor.clamp(6), 4);
    assert_eq!(editor.clamp(77), 9);
}

#[test]
fn marked_text_is_replaced_by_what_is_committed() {
    let mut editor = Editor::new();
    editor.set_text("ab".to_string());
    editor.replace_and_mark_text_in_range(None, "x你", Some(1..2));
    assert_eq!(editor.text(), "abx你");
    assert_eq!(editor.marked_range, Some(2..6));
    assert_eq!(editor.selected_range, 3..6);
    assert_eq!(editor.marked_text_range(), Some(2..4));
    assert_eq!(editor.selected_text_range(), (3..4, false));
    editor.replace_text_in_range(None, "!");
    assert_eq!(editor.text(), "ab!");
    assert_eq!(editor.marked_range, None);
}

#[test]
fn shift_click_extends_the_selection() {
    let mut editor = laid_out("hello brave world", 320);
    editor.on_mouse_down(PointerHit::Line { line: 0, closest: 6 }, false);
    editor.on_mouse_up();
    editor.on_mouse_down(PointerHit::Line { line: 0, closest: 2 }, true);
    editor.on_mouse_up();
    assert_eq!(editor.selected_range, 2..6);
    assert!(editor.selection_reversed);
    editor.on_mouse_move(PointerHit::Line { line: 0, closest: 9 });
    assert_eq!(editor.selected_range, 2..6, "the button is up");
    assert_eq!(editor.index_for_mouse_position(PointerHit::Above), 0);
    assert_eq!(editor.index_for_mouse_position(PointerHit::Below), 17);
    assert_eq!(editor.index_for_mouse_position(PointerHit::Unpainted), 0);
}

#[test]
fn scrolling_stays_inside_the_text() {
    let mut editor = laid_out(&numbered_lines(20), 320);
    assert_eq!(editor.total_rows(), 20);
    assert_eq!(editor.caret_row(), 19);
    assert_eq!(editor.scroll_row, 12);
    editor.scroll_by(-5);
    assert_eq!(editor.scroll_row, 7);
    editor.scroll_by(-50);
    assert_eq!(editor.scroll_row, 0);
    editor.scroll_by(50);
    assert_eq!(editor.scroll_row, 12);
    assert_eq!(box_rows(3), 3);
    assert_eq!(box_rows(20), 8);
    assert_eq!(box_rows(0), 1);
}

#[test]
fn rows_of_the_selection_cover_the_selection() {
    let lines = layout("hello brave world\nnext", 6);
    let rows = selection_rows(&lines, 4, 14);
    let found: Vec<(usize, usize, usize)> =
        rows.iter().map(|row| (row.row, row.start, row.end)).collect();
    assert_eq!(found, vec![(0, 4, 6), (1, 6, 12), (2, 12, 14)]);
}

#[test]
fn the_paint_plan_follows_focus_and_selection() {
    let mut editor = laid_out("hello brave world", 320);
    editor.move_to(6);
    let lines = layout("hello brave world", 320);
    let plan = editor.paint_plan(&lines, true);
    let caret = plan.caret.expect("a focused field has a caret");
    assert_eq!((caret.line, caret.rows_above, caret.offset), (0, 0, 6));
    assert!(plan.selection.is_empty());
    assert_eq!(plan.content_rows, 1);
    assert!(!plan.thumb);
    assert!(editor.paint_plan(&lines, false).caret.is_none());
    editor.select_to(11);
    let plan = editor.paint_plan(&lines, false);
    assert_eq!(plan.selection.len(), 1);
    assert_eq!((plan.selection[0].start, plan.selection[0].end), (6, 11));
    assert_eq!(editor.line_source(true, true), LineSource::Kept);
    assert_eq!(editor.line_source(false, true), LineSource::Measured);
    assert_eq!(editor.line_source(false, false), LineSource::Shaped);
    let place = editor.place_for_range(6..7).expect("the line is laid out");
    assert_eq!((place.line, place.offset), (0, 6));
}

#[test]
fn an_empty_field_shows_its_placeholder() {
    let mut editor = Editor::new();
    editor.set_placeholder("Ask".to_string());
    assert_eq!(editor.display_text(), "Ask");
    editor.set_text("hi".to_string());
    assert_eq!(editor.display_text(), "hi");
    assert!(editor.wraps());
    assert!(!Editor::single_line().wraps());
    assert!(Editor::wrapped_single_line().wraps());
}
