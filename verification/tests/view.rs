use van_goal::blocks::{
    block_style, cell_text, inline_id, table_cell, table_layout, Ink, MarkdownBlock, Weight,
};
use van_goal::chat::{
    ChatView, CopyButton, CopyHover, HoverAction, ListChange, MarkdownMemo, MenuOverlay, Menus,
    Scrollbar, SelectionHost, MEMO_LIMIT,
};
use van_goal::composer::{
    context_text, model_menu, send_label, MenuRow, SendAction, SendFill,
};
use van_goal::effects::{PermissionMode, QueuedPrompt};
use van_goal::ids::{hash_id, model_id};
use van_goal::markdown::{blocks, blocks_payload, runs, Block, Inline, InlineStyle, LinkSpan, StyleSpan};
use van_goal::menu::ModelOption;
use van_goal::models::{
    AgentSession, BackendKind, ChatMessage, ComposerAttachment, MessageRole, Stamp, ToolCall,
};
use van_goal::selection::{
    anchored_range, selected_text, selection_over, word_range_around, Drag,
};
use van_goal::sessions::CachedState;
use van_goal::settings::Settings;
use van_goal::state::{AppState, BackendCaps, ConnectionState, PendingClarify};
use van_goal::theme::{rgba_hex, AppearanceMode, Color, Theme, WindowAppearance};
use van_goal::words::trim;
use van_goal::transcript::{author_slug, message_bubble, message_ids, Bubble};

// -- ids --------------------------------------------------------------------------

#[test]
fn ids_hash_to_known_numbers() {
    assert_eq!(hash_id(""), 0xcbf29ce484222325);
    assert_eq!(hash_id("a"), 0xaf63dc4c8601ec8c);
    assert_eq!(hash_id("foobar"), 0x85944171f73967e8);
    assert_eq!(model_id("p", "m"), hash_id("p\u{1f}m"));
    assert_eq!(message_ids("a"), (0xaf63dc4c8601ec8c, 0xaf63dc4c8601ec8d));
    assert_eq!(inline_id("a", 2), 0xaf63dc4c8601ec8e);
}

// -- selecting text -----------------------------------------------------------------

/// Dragging across part of a block selects those bytes: the host receives the range and
/// the text it picks out.
#[test]
fn a_drag_within_a_block_stores_the_selection_on_the_host() {
    let text = "hello brave world";
    let mut host = SelectionHost::new();
    let mut drag = Drag::new();

    let range = drag.press(text, 6, 1);
    host.set_selection(42, range.clone(), selected_text(text, &range));
    let range = drag.drag_to(11).expect("the drag selects nothing");
    host.set_selection(42, range.clone(), selected_text(text, &range));
    assert_eq!(drag.release(11, &Vec::new()), None);

    let stored = host.selection.as_ref().expect("no selection was stored");
    assert_eq!(stored.key, 42);
    assert_eq!(stored.range, 6..11, "selection picked {:?}", stored.range);
    assert_eq!(stored.text, "brave");
    assert_eq!(host.range_in(42), Some(6..11));
    assert_eq!(host.range_in(41), None);

    // A click elsewhere clears it.
    host.press_outside(false);
    assert!(
        host.selection.is_none(),
        "selection survived a click outside the block"
    );
}

#[test]
fn a_word_is_a_run_without_white_space() {
    let text = "hello  brave 世界!";
    assert_eq!(word_range_around(text, 0), 0..5);
    assert_eq!(word_range_around(text, 3), 0..5);
    assert_eq!(word_range_around(text, 5), 0..5);
    assert_eq!(word_range_around(text, 6), 6..6);
    assert_eq!(word_range_around(text, 7), 7..12);
    assert_eq!(word_range_around(text, 16), 13..20);
    assert_eq!(word_range_around(text, 99), 13..20);
    assert_eq!(word_range_around("", 0), 0..0);
    let mut drag = Drag::new();
    assert_eq!(drag.press(text, 8, 2), 7..12);
    assert_eq!(drag.press(text, 8, 3), 8..8);
}

#[test]
fn white_space_is_what_unicode_counts_as_such() {
    let white = "\t\n\u{b}\u{c}\r \u{85}\u{a0}\u{1680}\u{2000}\u{2001}\u{2002}\u{2003}\u{2004}\u{2005}\u{2006}\u{2007}\u{2008}\u{2009}\u{200a}\u{2028}\u{2029}\u{202f}\u{205f}\u{3000}";
    assert_eq!(white.chars().count(), 25);
    for character in (0..=0x10ffff).filter_map(char::from_u32) {
        let kept = trim(&character.to_string());
        assert_eq!(kept.is_empty(), white.contains(character), "{character:?}");
    }
}

#[test]
fn a_drag_runs_either_way() {
    assert_eq!(anchored_range(2, 7), 2..7);
    assert_eq!(anchored_range(7, 2), 2..7);
    assert_eq!(anchored_range(3, 3), 3..3);
    assert_eq!(selected_text("你好", &(0..3)), "你");
    assert_eq!(selected_text("你好", &(1..3)), "");
    assert_eq!(selected_text("你好", &(0..99)), "");
}

#[test]
fn a_click_follows_a_link_and_a_drag_does_not() {
    let links = vec![0..4, 10..14];
    let mut drag = Drag::new();
    drag.press("some text to click", 11, 1);
    assert_eq!(drag.release(11, &links), Some(1));
    drag.press("some text to click", 11, 1);
    assert_eq!(drag.release(12, &links), None);
    drag.press("some text to click", 6, 1);
    assert_eq!(drag.release(6, &links), None);
    drag.press("some text to click", 11, 1);
    drag.press_elsewhere();
    assert_eq!(drag.drag_to(12), None);
    assert_eq!(drag.release(11, &links), None);
}

#[test]
fn the_selection_is_cut_against_the_styles() {
    let highlights = vec![2..6, 8..10];
    let pieces = selection_over(12, &highlights, Some(4..9));
    let found: Vec<(usize, usize, Option<usize>, bool)> = pieces
        .iter()
        .map(|piece| (piece.range.start, piece.range.end, piece.highlight, piece.selected))
        .collect();
    assert_eq!(
        found,
        vec![
            (0, 2, None, false),
            (2, 4, Some(0), false),
            (4, 6, Some(0), true),
            (6, 8, None, true),
            (8, 9, Some(1), true),
            (9, 10, Some(1), false),
            (10, 12, None, false),
        ]
    );
    let plain = selection_over(12, &highlights, None);
    assert_eq!(plain.len(), 2);
    assert_eq!(plain[1].range, 8..10);
    assert!(!plain[1].selected);
}

#[test]
fn selected_text_is_quoted_in_front_of_the_draft() {
    let mut host = SelectionHost::new();
    assert_eq!(host.quote_text_selection("draft"), None);
    host.set_selection(1, 0..5, "hello".to_string());
    assert_eq!(
        host.quote_text_selection("draft").as_deref(),
        Some("----\nhello\ndraft")
    );
    assert!(host.selection.is_none());
    host.set_selection(1, 0..5, "hello".to_string());
    assert_eq!(host.quote_text_selection("  \n").as_deref(), Some("----\nhello\n"));
    host.set_selection(1, 0..0, String::new());
    assert_eq!(host.quote_text_selection("draft"), None);
}

#[test]
fn the_context_menu_keeps_its_own_text() {
    let mut host = SelectionHost::new();
    assert!(!host.open_context_menu(1));
    host.set_selection(1, 0..5, "hello".to_string());
    assert_eq!(host.copy_text_selection().as_deref(), Some("hello"));
    assert!(!host.open_context_menu(2), "another block's selection");
    assert!(host.open_context_menu(1));
    host.press_outside(true);
    assert!(host.selection.is_some(), "the menu's items have yet to act");
    assert_eq!(host.copy_from_menu().as_deref(), Some("hello"));
    assert!(host.menu.is_none());
    assert_eq!(host.copy_from_menu(), None);
}

// -- the palette ------------------------------------------------------------------------

#[test]
fn translucent_hex_colors_are_converted_from_rgb_not_treated_as_hsl() {
    let color = rgba_hex(0x276df1, 40);
    assert!((color.red as f32 / 255.0 - 0x27 as f32 / 255.0).abs() < 0.001);
    assert!((color.green as f32 / 255.0 - 0x6d as f32 / 255.0).abs() < 0.001);
    assert!((color.blue as f32 / 255.0 - 0xf1 as f32 / 255.0).abs() < 0.001);
    assert!((color.alpha as f32 / 100.0 - 0.4).abs() < 0.001);
    assert_eq!(rgba_hex(0, 300).alpha, 100);
}

/// The lightness of a colour, from none to full.
fn lightness(color: Color) -> f32 {
    color.lightness() as f32 / 510.0
}

/// A label that does not contrast with its fill renders as a blank pill.
fn assert_contrast(theme: Theme, fill: Color) {
    let label = theme.label_on(fill);
    assert!(
        (lightness(label) - lightness(fill)).abs() > 0.3,
        "label (l={}) is too close to its fill (l={})",
        lightness(label),
        lightness(fill)
    );
}

#[test]
fn button_labels_contrast_with_every_fill_they_use() {
    for mode in [AppearanceMode::Dark, AppearanceMode::Light] {
        let theme = Theme::sync(
            mode,
            match mode {
                AppearanceMode::Light => WindowAppearance::Light,
                _ => WindowAppearance::Dark,
            },
        );
        // The fills the buttons actually use in this appearance.
        for fill in [
            theme.danger(),
            theme.accent(),
            theme.surface_hover(),
            theme.surface(),
        ] {
            assert_contrast(theme, fill);
        }
    }
}

#[test]
fn the_interface_is_dark_until_an_appearance_is_settled() {
    assert!(!Theme::new().is_light());
    assert_eq!(Theme::new().window_bg(), rgba_hex(0x141416, 100));
}

#[test]
fn the_system_decides_unless_the_user_does() {
    assert!(Theme::sync(AppearanceMode::System, WindowAppearance::VibrantLight).light);
    assert!(Theme::sync(AppearanceMode::System, WindowAppearance::Light).light);
    assert!(!Theme::sync(AppearanceMode::System, WindowAppearance::VibrantDark).light);
    assert!(Theme::sync(AppearanceMode::Light, WindowAppearance::Dark).light);
    assert!(!Theme::sync(AppearanceMode::Dark, WindowAppearance::Light).light);
    let light = Theme { light: true };
    let dark = Theme { light: false };
    assert_eq!(light.window_bg(), rgba_hex(0xf7f7f9, 100));
    assert_eq!(dark.window_bg(), rgba_hex(0x141416, 100));
    assert_eq!(dark.accent_soft(), rgba_hex(0x4f8cff, 16));
    assert_eq!(light.accent_soft(), rgba_hex(0x276df1, 12));
    assert_eq!(dark.selection_unfocused(), rgba_hex(0x9aa4b2, 24));
}

// -- markdown -----------------------------------------------------------------------------

fn inline(text: &str) -> Inline {
    Inline {
        text: text.to_string(),
        spans: Vec::new(),
        links: Vec::new(),
    }
}

#[test]
fn inline_runs_carry_their_own_text_and_nothing_is_lost() {
    // What a parser makes of "你好 👋 **粗体** 和 `代码` 还有 [链接](https://example.com)".
    let text = "你好 👋 粗体 和 代码 还有 链接";
    let range = |part: &str| {
        let start = text.find(part).unwrap();
        start..start + part.len()
    };
    let inline = Inline {
        text: text.to_string(),
        spans: vec![
            StyleSpan { range: range("粗体"), style: InlineStyle::Strong },
            StyleSpan { range: range("代码"), style: InlineStyle::Code },
        ],
        links: vec![LinkSpan {
            range: range("链接"),
            url: "https://example.com".to_string(),
        }],
    };
    let parsed = runs(&inline);
    let text: String = parsed
        .iter()
        .map(|run| run["text"].as_str().unwrap())
        .collect();
    assert!(
        text.contains("你好 👋 粗体 和 代码 还有 链接"),
        "delimiters should be gone and text intact: {text:?}"
    );
    assert!(
        parsed
            .iter()
            .any(|run| run["styles"].as_array().unwrap().iter().any(|s| s == "strong")),
        "no run was marked strong: {parsed:#?}"
    );
    assert!(
        parsed
            .iter()
            .any(|run| run["styles"].as_array().unwrap().iter().any(|s| s == "code")),
        "no run was marked code: {parsed:#?}"
    );
    assert!(
        parsed
            .iter()
            .any(|run| run["url"].as_str() == Some("https://example.com")),
        "the link was lost: {parsed:#?}"
    );
}

#[test]
fn plain_text_is_a_single_run() {
    let parsed = runs(&inline("就是一句话"));
    assert_eq!(parsed.len(), 1);
    assert_eq!(parsed[0]["text"], "就是一句话");
    assert!(parsed[0]["styles"].as_array().unwrap().is_empty());
}

#[test]
fn markdown_blocks_keep_their_shape() {
    // What a parser makes of "# 标题\n\n- 一项\n\n```\n代码\n```\n".
    let parsed = blocks(&vec![
        Block::Heading(1, inline("标题")),
        Block::Bullet(inline("一项")),
        Block::Code("代码".to_string()),
    ]);
    let kinds: Vec<&str> = parsed
        .iter()
        .map(|block| block["kind"].as_str().unwrap())
        .collect();
    assert_eq!(kinds, vec!["heading", "bullet", "code"]);
    assert_eq!(parsed[0]["level"], 1);
    assert_eq!(parsed[2]["text"], "代码");
}

#[test]
fn blocks_are_handed_back_under_their_name() {
    let payload = blocks_payload(&vec![Block::Separator, Block::Code("x".to_string())]);
    assert_eq!(payload["blocks"].as_array().unwrap().len(), 2);
    assert_eq!(payload["blocks"][0]["kind"], "separator");
    assert_eq!(payload["blocks"][1]["text"], "x");
}

#[test]
fn headings_are_larger_and_spaced() {
    let heading = block_style(&MarkdownBlock::Heading(1, "t".to_string()), false);
    assert_eq!((heading.size, heading.weight), (24, Weight::Bold));
    assert_eq!((heading.space_before, heading.space_after), (16, 4));
    let first = block_style(&MarkdownBlock::Heading(2, "t".to_string()), true);
    assert_eq!((first.size, first.weight, first.space_before), (20, Weight::Semibold, 0));
    assert_eq!(block_style(&MarkdownBlock::Heading(6, "t".to_string()), true).size, 17);
    let numbered = block_style(&MarkdownBlock::Numbered(12, "t".to_string()), false);
    assert_eq!(numbered.marker.as_deref(), Some("12."));
    let bullet = block_style(&MarkdownBlock::Bullet("t".to_string()), false);
    assert_eq!(bullet.marker.as_deref(), Some("•"));
    let quote = block_style(&MarkdownBlock::Quote("t".to_string()), false);
    assert_eq!(quote.ink, Ink::Secondary);
    let rule = block_style(&MarkdownBlock::Separator, false);
    assert_eq!((rule.space_before, rule.space_after), (8, 8));
}

fn row(cells: &[&str]) -> Vec<String> {
    cells.iter().map(|cell| cell.to_string()).collect()
}

#[test]
fn table_columns_are_weighed_by_their_widest_cell() {
    let headers = row(&["Model", "Tokens"]);
    let rows = vec![
        row(&["a-very-long-model-name", "12"]),
        row(&["short", "1", "third"]),
    ];
    let layout = table_layout(&headers, &rows);
    assert_eq!(layout.weights, vec![22, 6, 5]);
    assert_eq!(layout.total_weight, 33);
    assert_eq!(layout.shown_rows, 2);
    assert_eq!(layout.hidden_note, None);
    assert_eq!(layout.id, hash_id("Model|Tokens"));

    let many: Vec<Vec<String>> = (0..83).map(|_| row(&["x"; 12])).collect();
    let layout = table_layout(&row(&[]), &many);
    assert_eq!(layout.weights, vec![4; 8]);
    assert_eq!(layout.shown_rows, 80);
    assert_eq!(layout.hidden_note.as_deref(), Some("3 more row(s) hidden"));
    assert_eq!(table_layout(&row(&[]), &Vec::new()).weights, vec![4]);
    assert_eq!(table_layout(&row(&[&"w".repeat(40)]), &Vec::new()).weights, vec![32]);
}

#[test]
fn table_cells_know_their_place() {
    let cells = row(&[" a ", "b"]);
    let cell = table_cell(&cells, 2, 0, 3, 5);
    assert_eq!(cell.text, "a");
    assert_eq!(cell.seed, 5006);
    assert_eq!(cell.id, hash_id("2:0:a").wrapping_add(5006));
    assert_eq!((cell.weight, cell.ink), (Weight::Normal, Ink::Secondary));
    assert!(cell.line_right && cell.line_above);
    let header = table_cell(&cells, 0, 2, 3, 5);
    assert_eq!(header.text, "");
    assert_eq!((header.weight, header.ink), (Weight::Semibold, Ink::Text));
    assert!(!header.line_right && !header.line_above);
    assert_eq!(cell_text(&cells, 7), "");
}

// -- the transcript ------------------------------------------------------------------------

fn message(role: MessageRole, id: &str, content: &str) -> ChatMessage {
    ChatMessage {
        id: id.to_string(),
        role,
        content: content.to_string(),
        is_streaming: false,
        timestamp: Stamp(0),
        completed_at: None,
        tool_calls: Vec::new(),
        attachments: Vec::new(),
        stalled: false,
        empty_shell: false,
        empty_when_stopped: false,
    }
}

fn transcript_of(count: usize) -> Vec<ChatMessage> {
    (0..count)
        .map(|index| {
            let role = if index % 2 == 0 {
                MessageRole::User
            } else {
                MessageRole::Assistant
            };
            message(role, &format!("m{index}"), &format!("message {index}"))
        })
        .collect()
}

/// Sending a prompt appends the user message plus the assistant placeholder; the view has
/// to move to what was just sent instead of staying where the user had scrolled to.
#[test]
fn sending_moves_the_view_to_the_new_message() {
    let mut view: ChatView<Vec<String>> = ChatView::new();
    let mut messages = transcript_of(40);
    view.sync_list_state(None, &messages, false);
    assert_eq!(view.list.count, 40);

    messages.push(message(MessageRole::User, "new", "new prompt"));
    let mut reply = message(MessageRole::Assistant, "reply", "");
    reply.is_streaming = true;
    messages.push(reply);
    let sync = view.sync_list_state(None, &messages, false);
    assert_eq!(view.list.count, 42, "the sent messages were not appended");
    assert_eq!(
        sync.change,
        ListChange::Splice { start: 40, end: 40, count: 2 }
    );
    assert!(sync.scroll_to_latest, "view stayed where it was after sending");
}

/// A reply streaming in must not drag the view back down while the reader is further up
/// the transcript.
#[test]
fn a_streaming_reply_does_not_drag_the_reader_back() {
    let mut view: ChatView<Vec<String>> = ChatView::new();
    let mut messages = transcript_of(40);
    view.sync_list_state(None, &messages, false);
    let mut reply = message(MessageRole::Assistant, "reply", "");
    reply.is_streaming = true;
    messages.push(reply);
    let sync = view.sync_list_state(None, &messages, false);
    assert!(!sync.scroll_to_latest);
    for chunk in 0..5 {
        messages[40].content.push_str(&format!("streamed line {chunk}\n\n"));
        let sync = view.sync_list_state(None, &messages, false);
        assert!(!sync.scroll_to_latest, "chunk {chunk}: the reader was moved");
        assert_eq!(
            sync.change,
            ListChange::Splice { start: 40, end: 41, count: 1 },
            "only the growing bubble is measured again"
        );
    }
}

#[test]
fn another_session_rebuilds_the_list() {
    let mut view: ChatView<Vec<String>> = ChatView::new();
    let messages = transcript_of(4);
    let sync = view.sync_list_state(Some("a"), &messages, false);
    assert_eq!(sync.change, ListChange::Reset(4));
    assert!(sync.other_session);
    view.memo
        .remember("m1".to_string(), "message 1".to_string(), vec!["parsed".to_string()]);
    let sync = view.sync_list_state(Some("a"), &messages, false);
    assert_eq!(sync.change, ListChange::Keep);
    assert!(view.memo.blocks("m1", "message 1").is_some());
    let fewer = transcript_of(2);
    let sync = view.sync_list_state(Some("a"), &fewer, false);
    assert_eq!(sync.change, ListChange::Splice { start: 0, end: 4, count: 2 });
    view.sync_list_state(Some("b"), &fewer, false);
    assert!(view.memo.blocks("m1", "message 1").is_none());
}

#[test]
fn a_message_is_parsed_once_per_change() {
    let mut memo: MarkdownMemo<u32> = MarkdownMemo::new();
    memo.remember("m".to_string(), "one".to_string(), 1);
    assert_eq!(memo.blocks("m", "one"), Some(&1));
    assert_eq!(memo.blocks("m", "two"), None);
    memo.remember("m".to_string(), "two".to_string(), 2);
    assert_eq!(memo.blocks("m", "two"), Some(&2));
    for index in 0..(MEMO_LIMIT as u32) {
        memo.remember(format!("n{index}"), "x".to_string(), index);
    }
    assert!(memo.entries.len() <= MEMO_LIMIT);
    assert_eq!(memo.blocks("m", "two"), None, "a full memo was emptied");
    assert_eq!(memo.blocks("n511", "x"), Some(&511));
}

#[test]
fn the_copy_button_stays_hidden_until_the_message_is_hovered() {
    let mut hover = CopyHover::new();
    assert_eq!(
        hover.button("m"),
        CopyButton::Hidden,
        "the copy button is showing before anything is hovered"
    );
    assert_eq!(hover.set_message_hovered(Some("m".to_string())), HoverAction::Redraw);
    assert_eq!(
        hover.button("m"),
        CopyButton::Revealed,
        "hovering the message did not reveal its copy button"
    );
    assert_eq!(hover.set_message_hovered(Some("m".to_string())), HoverAction::Nothing);
}

/// The button sits away from the text, so hiding it the instant the pointer leaves would
/// make it unclickable.
#[test]
fn the_copy_button_lingers_after_the_pointer_leaves() {
    let mut hover = CopyHover::new();
    hover.set_message_hovered(Some("m".to_string()));
    assert_eq!(hover.set_message_hovered(None), HoverAction::HideLater);
    assert_eq!(
        hover.button("m"),
        CopyButton::Revealed,
        "the button vanished the moment the pointer left"
    );
    hover.hide_elapsed();
    assert_eq!(
        hover.button("m"),
        CopyButton::Hidden,
        "the button never went away after the grace period"
    );
    assert_eq!(hover.set_message_hovered(None), HoverAction::Nothing);
}

#[test]
fn a_copy_is_confirmed_then_the_button_returns() {
    let mut hover = CopyHover::new();
    hover.set_message_hovered(Some("m".to_string()));
    hover.copy_message("m");
    assert_eq!(hover.button("m"), CopyButton::Copied, "copying gave no visible confirmation");
    hover.confirmation_elapsed();
    assert_eq!(
        hover.button("m"),
        CopyButton::Revealed,
        "the button did not come back after confirming"
    );
}

/// Leaving and coming back must cancel the pending hide rather than let it fire while the
/// pointer is back on the message.
#[test]
fn returning_to_the_message_cancels_the_pending_hide() {
    let mut hover = CopyHover::new();
    hover.set_message_hovered(Some("m".to_string()));
    hover.set_message_hovered(None);
    hover.set_message_hovered(Some("m".to_string()));
    hover.hide_elapsed();
    assert_eq!(
        hover.button("m"),
        CopyButton::Revealed,
        "the button hid even though the pointer was back on the message"
    );
}

#[test]
fn one_menu_is_open_at_a_time() {
    let mut menus = Menus::new();
    assert_eq!(menus.overlay(), MenuOverlay::Absent);
    menus.toggle_model_menu();
    assert_eq!(menus.overlay(), MenuOverlay::Model);
    menus.toggle_permission_menu();
    assert_eq!(menus.overlay(), MenuOverlay::Permission);
    menus.permission_picked();
    assert_eq!(menus.overlay(), MenuOverlay::Absent);
    menus.toggle_model_menu();
    menus.model_picked();
    assert_eq!(menus.overlay(), MenuOverlay::Absent);
    menus.toggle_model_menu();
    menus.close();
    assert_eq!(menus.overlay(), MenuOverlay::Absent);
}

#[test]
fn the_scrollbar_fades_in_under_the_pointer() {
    let mut scrollbar = Scrollbar::new();
    assert!(!scrollbar.refresh_scrollbar_target(true));
    scrollbar.hovered = true;
    assert!(!scrollbar.refresh_scrollbar_target(false), "nothing to scroll");
    assert!(scrollbar.refresh_scrollbar_target(true));
    let fade = scrollbar.fade;
    assert!(scrollbar.is_running(fade));
    scrollbar.hovered = false;
    scrollbar.dragging = true;
    assert!(!scrollbar.refresh_scrollbar_target(true), "a drag keeps it");
    scrollbar.dragging = false;
    assert!(scrollbar.refresh_scrollbar_target(true));
    assert!(!scrollbar.is_running(fade));
}

#[test]
fn tool_calls_fold_and_unfold() {
    let mut view: ChatView<Vec<String>> = ChatView::new();
    view.toggle_expanded("m");
    assert!(view.expanded_messages.contains("m"));
    view.toggle_expanded("m");
    assert!(!view.expanded_messages.contains("m"));
}

fn call(index: usize, detail: &str) -> ToolCall {
    ToolCall {
        name: format!("tool{index}"),
        status: "ok".to_string(),
        detail: detail.to_string(),
        timestamp: Stamp(0),
    }
}

#[test]
fn a_reply_shows_its_tools_and_its_copy_button() {
    let mut reply = message(MessageRole::Assistant, "m", "done");
    reply.tool_calls = (0..14).map(|index| call(index, "d")).collect();
    reply.tool_calls[1].detail = String::new();
    reply.tool_calls[2].detail = "x".repeat(3001);
    let Bubble::Assistant { streaming, activity, shows_text, copy } =
        message_bubble(&reply, true, CopyButton::Revealed, "5s")
    else {
        panic!("not a reply")
    };
    assert!(!streaming && shows_text);
    assert_eq!(copy, Some(CopyButton::Revealed));
    let activity = activity.expect("tools were used");
    assert_eq!(activity.thinking, "Thought for 5s");
    assert_eq!(activity.pill.as_deref(), Some("Tool calls · 14 · hide"));
    assert_eq!(activity.rows.len(), 12);
    assert_eq!(activity.rows[0].title, "1. tool0 · ok");
    assert_eq!(activity.rows[0].detail, "d");
    assert_eq!(activity.rows[1].detail, "No detail");
    assert_eq!(activity.rows[2].detail, format!("{}\n...", "x".repeat(3000)));
    assert_eq!(activity.hidden_note.as_deref(), Some("2 more tool event(s) hidden"));
}

#[test]
fn a_streaming_reply_cannot_be_copied_yet() {
    let mut reply = message(MessageRole::Assistant, "m", "half");
    reply.is_streaming = true;
    let Bubble::Assistant { streaming, activity, shows_text, copy } =
        message_bubble(&reply, false, CopyButton::Revealed, "5s")
    else {
        panic!("not a reply")
    };
    assert!(streaming && shows_text);
    assert_eq!(copy, None);
    let activity = activity.expect("a turn is running");
    assert_eq!(activity.thinking, "Thinking · 5s");
    assert_eq!(activity.pill, None);
    assert!(activity.rows.is_empty());
    let blank = message(MessageRole::Assistant, "m", " \n");
    assert!(matches!(
        message_bubble(&blank, false, CopyButton::Hidden, ""),
        Bubble::Assistant { streaming: false, activity: None, shows_text: false, copy: None }
    ));
}

#[test]
fn other_messages_are_plain() {
    let mut prompt = message(MessageRole::User, "m", "hi");
    prompt.attachments.push(ComposerAttachment {
        id: "a".to_string(),
        path: "/tmp/notes.md".to_string(),
        name: "notes.md".to_string(),
    });
    assert!(matches!(
        message_bubble(&prompt, false, CopyButton::Hidden, ""),
        Bubble::User { attachments } if attachments == vec!["@notes.md".to_string()]
    ));
    let note = message(MessageRole::System, "m", "joined");
    assert!(matches!(
        message_bubble(&note, false, CopyButton::Hidden, ""),
        Bubble::Plain(text) if text == "joined"
    ));
}

// -- the composer ---------------------------------------------------------------------------

fn state() -> AppState {
    let settings = Settings {
        backend_kind: BackendKind::Hermes,
        backend_host: "127.0.0.1".to_string(),
        backend_port: 9119,
        backend_use_tls: false,
        session_token: "token".to_string(),
        workspace_path: String::new(),
        font_size: "medium".to_string(),
        show_tool_calls: true,
        last_session: None,
        enabled: Vec::new(),
        base_url: "http://127.0.0.1:9119".to_string(),
        profile: None,
        workspace: None,
        takes_password: true,
    };
    let caps = BackendCaps {
        session_history: true,
        permission_modes: true,
        model_selection: true,
    };
    let (state, _) = AppState::new(settings, caps, CachedState::new(), 258_000, PermissionMode(0));
    state
}

/// The label follows the backend that is running.
#[test]
fn the_reply_header_names_the_active_backend() {
    let mut state = state();
    assert_eq!(state.author(), "HERMES");
    assert_eq!(
        author_slug(&state.author()),
        "hermes",
        "the default backend should label its replies"
    );
    state.settings.backend_kind = BackendKind::OpenClaw;
    assert_eq!(
        author_slug(&state.author()),
        "openclaw",
        "the label did not follow the active backend"
    );
    state.settings.backend_kind = BackendKind::Codex;
    assert_eq!(author_slug(&state.author()), "codex-cli");
    assert_eq!(
        state.empty_text(),
        "Van-Goal is ready to use Codex CLI. Send a message or resume a session from the sidebar."
    );
}

#[test]
fn a_question_numbers_its_choices() {
    let mut state = state();
    assert!(state.clarify_card().is_none());
    state.pending_clarify = Some(PendingClarify {
        session_id: None,
        question: "Which?".to_string(),
        choices: vec!["left".to_string(), "right".to_string()],
        request_id: "r1".to_string(),
    });
    let card = state.clarify_card().expect("a question is open");
    assert_eq!(card.title, "Hermes needs your confirmation");
    assert_eq!(card.question, "Which?");
    assert_eq!(
        card.choices,
        vec![
            ("1".to_string(), "left".to_string()),
            ("2".to_string(), "right".to_string()),
        ]
    );
    assert_eq!(card.hint, "Or type a custom answer below and press Enter");
    state.pending_clarify.as_mut().unwrap().choices.clear();
    let card = state.clarify_card().expect("a question is open");
    assert_eq!(card.hint, "Type your answer below and press Enter");
}

#[test]
fn the_send_button_stops_answers_and_sends() {
    let mut state = state();
    let button = state.send_button("");
    assert!(!button.enabled);
    assert_eq!((button.fill, button.action), (SendFill::Neutral, SendAction::Send));
    state.connection_state = ConnectionState::Connected;
    state.composer_text = "hi".to_string();
    let button = state.send_button("hi");
    assert!(button.enabled);
    assert_eq!((button.fill, button.action), (SendFill::Accent, SendAction::Send));
    assert_eq!(send_label(&button), "↑");
    state.conversation.sending = true;
    let button = state.send_button("");
    assert!(button.enabled && button.shows_stop);
    assert_eq!((button.fill, button.action), (SendFill::Danger, SendAction::Interrupt));
    assert_eq!(send_label(&button), "■");
    state.pending_clarify = Some(PendingClarify {
        session_id: None,
        question: "Which?".to_string(),
        choices: Vec::new(),
        request_id: "r1".to_string(),
    });
    let button = state.send_button("  ");
    assert!(!button.enabled && !button.shows_stop);
    assert_eq!(button.action, SendAction::Send);
    assert!(state.send_button("left").enabled);
}

#[test]
fn the_model_button_names_what_runs() {
    let mut state = state();
    assert_eq!(state.model_label(), "Hermes");
    state.selected_session = Some(AgentSession {
        id: "a".to_string(),
        model: Some("session-model".to_string()),
        ..AgentSession::default()
    });
    assert_eq!(state.model_label(), "session-model");
    state.current_model_name = " configured ".to_string();
    assert_eq!(state.model_button().as_deref(), Some("configured ▾"));
    state.is_switching_model = true;
    assert_eq!(state.model_button().as_deref(), Some("Switching…"));
    state.backend_caps.model_selection = false;
    assert_eq!(state.model_button(), None);
    assert_eq!(state.permission_button("Ask").as_deref(), Some("Ask"));
    state.is_changing_permission_mode = true;
    assert_eq!(state.permission_button("Ask").as_deref(), Some("Ask…"));
    state.backend_caps.permission_modes = false;
    assert_eq!(state.permission_button("Ask"), None);
}

#[test]
fn queued_prompts_are_previewed() {
    let mut state = state();
    assert_eq!(state.queue_title(), None);
    let file = |name: &str| ComposerAttachment {
        id: name.to_string(),
        path: format!("/tmp/{name}"),
        name: name.to_string(),
    };
    state.pending_queue = vec![
        QueuedPrompt { id: "a".to_string(), text: "plain".to_string(), attachments: Vec::new() },
        QueuedPrompt {
            id: "b".to_string(),
            text: String::new(),
            attachments: vec![file("x"), file("y")],
        },
        QueuedPrompt {
            id: "c".to_string(),
            text: "with".to_string(),
            attachments: vec![file("x")],
        },
    ];
    assert_eq!(state.queue_title().as_deref(), Some("Queued (3)"));
    let rows = state.queue_rows();
    let previews: Vec<&str> = rows.iter().map(|row| row.preview.as_str()).collect();
    assert_eq!(previews, vec!["plain", "Attached files\n[@x @y]", "with\n[@x]"]);
    assert_eq!(rows[0].id, hash_id("a"));
}

#[test]
fn an_estimate_is_marked_as_one() {
    assert_eq!(context_text(true, "36.4k", "1M"), "36.4k / 1M");
    assert_eq!(context_text(false, "17.4k", "258k"), "≈17.4k / 258k");
}

#[test]
fn the_model_menu_marks_the_current_model() {
    let option = |provider: &str, model: &str| ModelOption {
        provider: provider.to_string(),
        model: model.to_string(),
    };
    let groups = vec![
        ("p".to_string(), vec![option("p", "one"), option("p", "two")]),
        ("q".to_string(), vec![option("q", "one")]),
    ];
    let drawn: Vec<String> = model_menu(&groups, "p", "one")
        .iter()
        .map(|row| match row {
            MenuRow::Provider(name) => format!("[{name}]"),
            MenuRow::Model { option, current, .. } => {
                format!("{}{}", option.model, if *current { " ✓" } else { "" })
            }
        })
        .collect();
    assert_eq!(drawn, vec!["[p]", "one ✓", "two", "[q]", "one"]);
}
