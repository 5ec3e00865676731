use std::cmp::Ordering;
use van_goal::effects::{Effect, PermissionMode};
use van_goal::events::{label_fetched, shown_from_cache, BackendEvent, FoldChange};
use van_goal::management::WorkspaceMove;
use van_goal::menu::{model_order, provider_groups, provider_order, ModelOption};
use van_goal::models::{
    AgentSession, BackendKind, ChatMessage, ComposerAttachment, ContextUsage, Conversation,
    MessageRole, SessionIds, Stamp,
};
use van_goal::prompts::{
    estimated_context_tokens, reported_context_usage, submitted_prompt, FIXED_PROMPT_TOKENS,
};
use van_goal::sessions::{cache_key, looks_like_tool_payload, visible_messages, CachedState};
use van_goal::settings::Settings;
use van_goal::state::{
    accepts_turn_events, refresh_needs_reconnect, session_view_is_current, AppState, BackendCaps,
    ConnectionState, PendingClarify, StoredCredential,
};

// -- rules -----------------------------------------------------------------------

#[test]
fn a_subscribed_session_takes_its_own_traffic() {
    assert!(accepts_turn_events(Some("live-1"), Some("stored-1")));
}

#[test]
fn a_session_being_opened_holds_traffic_off() {
    assert!(!accepts_turn_events(None, Some("stored-2")));
}

#[test]
fn a_chat_with_no_session_yet_takes_its_first_turn() {
    assert!(accepts_turn_events(None, None));
}

#[test]
fn a_live_session_without_a_stored_key_still_takes_its_traffic() {
    assert!(accepts_turn_events(Some("live-1"), None));
}

#[test]
fn an_async_session_result_only_mutates_the_view_that_started_it() {
    assert!(session_view_is_current(7, 7, Some("a"), Some("a")));
    assert!(!session_view_is_current(7, 8, Some("b"), Some("a")));
    assert!(!session_view_is_current(7, 7, None, Some("a")));
    assert!(session_view_is_current(9, 9, None, None));
}

#[test]
fn an_explicit_refresh_restores_a_dead_transport() {
    assert!(refresh_needs_reconnect(true, false));
    assert!(!refresh_needs_reconnect(true, true));
}

#[test]
fn a_quiet_refresh_never_starts_a_reconnect() {
    assert!(!refresh_needs_reconnect(false, false));
}

fn session_row(id: &str, used: Option<i64>, window: Option<i64>) -> AgentSession {
    AgentSession {
        id: id.to_string(),
        used_tokens: used,
        context_tokens: window,
        ..AgentSession::default()
    }
}

#[test]
fn a_reported_reading_is_used_as_it_stands() {
    let selected = session_row("a", None, None);
    let rows = vec![session_row("a", Some(36_393), Some(1_048_576))];
    let usage = reported_context_usage(Some(&selected), &rows).expect("reported");
    assert!(usage.measured);
    assert_eq!(usage.used_tokens, 36_393);
    assert_eq!(usage.max_tokens, 1_048_576);
}

#[test]
fn the_listed_row_wins_over_the_copy_the_session_was_opened_with() {
    let selected = session_row("a", Some(1), Some(100));
    let rows = vec![session_row("a", Some(9_000), Some(1_048_576))];
    let usage = reported_context_usage(Some(&selected), &rows).expect("reported");
    assert_eq!(usage.used_tokens, 9_000);
    assert_eq!(usage.max_tokens, 1_048_576);
}

#[test]
fn a_backend_that_reports_nothing_leaves_the_estimate_to_say_so() {
    let selected = session_row("a", None, None);
    assert!(reported_context_usage(Some(&selected), &Vec::new()).is_none());

    // Half a reading is not a reading: a measured "used" over a guessed window would put
    // two different claims in one line.
    let half = vec![session_row("a", Some(500), None)];
    assert!(reported_context_usage(Some(&selected), &half).is_none());

    let zero_window = vec![session_row("a", Some(500), Some(0))];
    assert!(
        reported_context_usage(Some(&selected), &zero_window).is_none(),
        "a window of zero is not a window"
    );
}

#[test]
fn nothing_on_screen_has_no_reading() {
    assert!(reported_context_usage(None, &vec![session_row("a", Some(1), Some(2))]).is_none());
}

#[test]
fn an_estimate_is_never_drawn_as_a_reading() {
    let estimated = ContextUsage::estimated(17_400, 258_000);
    assert!(!estimated.measured);
    let measured = ContextUsage::measured(36_393, 1_048_576);
    assert!(measured.measured);
    // Same bar either way: how full it looks is the numbers' business, and whether they
    // were measured is the label's.
    let ratio = measured.used_tokens as f64 / measured.max_tokens as f64;
    assert!((ratio - 36_393.0 / 1_048_576.0).abs() < 0.0001);
    assert_eq!(measured.used_tokens * 100 / measured.max_tokens, 3);
}

// -- prompts ------------------------------------------------------------------------

fn attachment(id: &str) -> ComposerAttachment {
    ComposerAttachment {
        id: id.to_string(),
        path: format!("/tmp/{id}"),
        name: id.to_string(),
    }
}

fn message(role: MessageRole, id: &str, content: &str) -> ChatMessage {
    ChatMessage {
        id: id.to_string(),
        role,
        content: content.to_string(),
        is_streaming: false,
        timestamp: Stamp(0),
        completed_at: None,
        tool_calls: Vec::new(),
        attachments: Vec::new(),
        stalled: false,
        empty_shell: false,
        empty_when_stopped: false,
    }
}

#[test]
fn attached_files_follow_the_prompt() {
    assert_eq!(submitted_prompt("look", &Vec::new()), "look");
    assert_eq!(
        submitted_prompt("look", &vec![attachment("a"), attachment("b")]),
        "look\n\nAttached files:\n- @/tmp/a\n- @/tmp/b"
    );
    assert_eq!(
        submitted_prompt("", &vec![attachment("a")]),
        "Attached files:\n- @/tmp/a"
    );
}

#[test]
fn an_estimate_counts_four_bytes_to_a_token() {
    let none: Vec<ChatMessage> = Vec::new();
    assert_eq!(estimated_context_tokens(&none, "", &Vec::new()), FIXED_PROMPT_TOKENS);
    let one = vec![message(MessageRole::User, "m", "0123456789")];
    assert_eq!(
        estimated_context_tokens(&one, "01", &Vec::new()),
        FIXED_PROMPT_TOKENS + 3
    );
}

// -- menus -----------------------------------------------------------------------------

#[test]
fn the_current_model_comes_first() {
    assert_eq!(provider_order("zeta", "alpha", "zeta"), Ordering::Less);
    assert_eq!(provider_order("alpha", "zeta", "zeta"), Ordering::Greater);
    assert_eq!(provider_order("Alpha", "beta", ""), Ordering::Less);
    assert_eq!(model_order("b", "B", ""), Ordering::Equal);
    let option = |provider: &str, model: &str| ModelOption {
        provider: provider.to_string(),
        model: model.to_string(),
    };
    let options = vec![
        option("zeta", "one"),
        option("alpha", "two"),
        option("zeta", "Three"),
        option("zeta", "four"),
    ];
    let menu = provider_groups(&options, "zeta", "one");
    let names: Vec<&str> = menu.iter().map(|group| group.0.as_str()).collect();
    assert_eq!(names, vec!["zeta", "alpha"]);
    let models: Vec<&str> = menu[0].1.iter().map(|option| option.model.as_str()).collect();
    assert_eq!(models, vec!["one", "four", "Three"]);
}

#[test]
fn a_menu_loses_no_option() {
    let options: Vec<ModelOption> = ["b/x", "a/y", "b/x", "c/z", "a/w"]
        .iter()
        .map(|pair| {
            let (provider, model) = pair.split_once('/').unwrap();
            ModelOption {
                provider: provider.to_string(),
                model: model.to_string(),
            }
        })
        .collect();
    let menu = provider_groups(&options, "c", "w");
    let mut held: Vec<String> = menu
        .iter()
        .flat_map(|(name, group)| {
            group.iter().map(move |option| {
                assert_eq!(&option.provider, name);
                format!("{}/{}", option.provider, option.model)
            })
        })
        .collect();
    assert_eq!(held, vec!["c/z", "a/w", "a/y", "b/x", "b/x"]);
    held.sort();
    assert_eq!(held, vec!["a/w", "a/y", "b/x", "b/x", "c/z"]);
}

// -- the cache ----------------------------------------------------------------------------

fn session_of(id: &str, backend: Option<&str>) -> AgentSession {
    AgentSession {
        id: id.to_string(),
        backend_id: backend.map(|id| id.to_string()),
        ..AgentSession::default()
    }
}

#[test]
fn a_hidden_session_is_not_listed() {
    let mut cache = CachedState::new();
    let listed = vec![session_of("a", Some("hermes")), session_of("b", Some("hermes"))];
    cache.sync_sessions(&listed, "hermes", Stamp(1));
    assert_eq!(cache.visible_sessions("hermes").len(), 2);
    assert_eq!(cache.visible_sessions("openclaw").len(), 0);
    let key = cache_key(&listed[0], "hermes");
    assert_eq!(key, "hermes::a");
    cache.hide_session(key, true);
    let visible = cache.visible_sessions("hermes");
    assert_eq!(visible.len(), 1);
    assert_eq!(visible[0].id, "b");
    cache.sync_sessions(&listed, "hermes", Stamp(2));
    assert_eq!(cache.visible_sessions("hermes").len(), 1, "a fetch brings nothing back");
}

#[test]
fn the_summary_counts_what_is_cached() {
    let mut cache = CachedState::new();
    assert_eq!(cache.summary(), "0 cached session(s), 0 cached transcript(s)");
    cache.sync_sessions(&vec![session_of("a", Some("pi"))], "pi", Stamp(1));
    cache.add_transcript("pi::a".to_string());
    cache.add_transcript("pi::a".to_string());
    assert_eq!(cache.summary(), "1 cached session(s), 1 cached transcript(s)");
    cache.remove_transcript("pi::a");
    assert_eq!(cache.summary(), "1 cached session(s), 0 cached transcript(s)");
}

#[test]
fn raw_tool_output_is_not_drawn_as_a_reply() {
    assert!(looks_like_tool_payload("  {\"output\": 1}"));
    assert!(looks_like_tool_payload("{\"error\":\"x\"}"));
    assert!(looks_like_tool_payload("{\"exit_code\":0}"));
    assert!(!looks_like_tool_payload("{\"answer\":0}"));
    assert!(!looks_like_tool_payload("output"));
    let messages = vec![
        message(MessageRole::User, "a", "hi"),
        message(MessageRole::Assistant, "b", "{\"output\": 1}"),
        message(MessageRole::Assistant, "c", "hello"),
        message(MessageRole::Tool, "d", "raw"),
    ];
    let visible = visible_messages(&messages);
    let ids: Vec<&str> = visible.iter().map(|message| message.id.as_str()).collect();
    assert_eq!(ids, vec!["a", "c"]);
}

#[test]
fn a_reply_that_stalled_is_shown_as_finished() {
    let mut stalled = message(MessageRole::Assistant, "a", "half a rep");
    stalled.is_streaming = true;
    stalled.stalled = true;
    let visible = visible_messages(&vec![stalled]);
    assert_eq!(visible.len(), 1);
    assert!(!visible[0].is_streaming);
}

// -- the state ---------------------------------------------------------------------------------

fn settings(kind: BackendKind) -> Settings {
    Settings {
        backend_kind: kind,
        backend_host: "127.0.0.1".to_string(),
        backend_port: 9119,
        backend_use_tls: false,
        session_token: "token".to_string(),
        workspace_path: String::new(),
        font_size: "medium".to_string(),
        show_tool_calls: true,
        last_session: None,
        enabled: vec![kind],
        base_url: "http://127.0.0.1:9119".to_string(),
        profile: None,
        workspace: None,
        takes_password: true,
    }
}

const CAPS: BackendCaps = BackendCaps {
    session_history: true,
    permission_modes: true,
    model_selection: true,
};

fn state() -> AppState {
    let (state, _) = AppState::new(
        settings(BackendKind::Hermes),
        CAPS,
        CachedState::new(),
        258_000,
        PermissionMode(0),
    );
    state
}

fn connected() -> AppState {
    let mut state = state();
    state.connection_state = ConnectionState::Connected;
    state.transport_ready = true;
    state
}

fn on_screen(id: &str) -> AppState {
    let mut state = connected();
    state.selected_session = Some(session_of(id, Some("hermes")));
    state.stored_session_id = Some(id.to_string());
    state.live_session_id = Some(format!("live-{id}"));
    state
}

fn ids(live: &str, stored: &str) -> SessionIds {
    SessionIds {
        live_id: live.to_string(),
        stored_id: Some(stored.to_string()),
    }
}

fn submits(effects: &[Effect]) -> Vec<(String, String)> {
    effects
        .iter()
        .filter_map(|effect| match effect {
            Effect::Submit { session_id, prompt } => Some((session_id.clone(), prompt.clone())),
            _ => None,
        })
        .collect()
}

#[test]
fn connecting_probes_then_opens_the_stream() {
    let mut state = state();
    let effects = state.connect();
    assert!(effects.iter().any(|effect| matches!(effect, Effect::Probe { .. })));
    assert!(matches!(state.connection_state, ConnectionState::Connecting));
    let effects = state.probed(Err("refused".to_string()));
    assert!(matches!(state.connection_state, ConnectionState::Failed(_)));
    assert!(!effects.iter().any(|effect| matches!(effect, Effect::OpenStream(_))));
    let mut state = self::state();
    state.connect();
    let effects = state.probed(Ok(None));
    assert!(effects.iter().any(|effect| matches!(effect, Effect::OpenStream(_))));
    assert!(effects.iter().any(|effect| matches!(effect, Effect::ListSessions { .. })));
    assert!(effects.iter().any(|effect| matches!(effect, Effect::Create { .. })));
    state.stream_opened(Ok(()));
    assert!(!state.gateway_connecting);
}

#[test]
fn a_second_stream_is_not_opened_while_one_is() {
    let mut state = connected();
    state.transport_ready = false;
    let first = state.connect_gateway();
    assert!(first.iter().any(|effect| matches!(effect, Effect::OpenStream(_))));
    assert!(state.connect_gateway().is_empty());
}

#[test]
fn a_prompt_goes_to_the_session_on_screen() {
    let mut state = on_screen("a");
    state.composer_text = "  hello  ".to_string();
    assert!(state.can_send());
    let effects = state.send_composer("q1".to_string());
    assert_eq!(submits(&effects), vec![("live-a".to_string(), "hello".to_string())]);
    assert_eq!(state.composer_text, "");
}

#[test]
fn a_prompt_without_a_live_session_resumes_the_one_on_screen() {
    let mut state = on_screen("a");
    state.live_session_id = None;
    state.composer_text = "hello".to_string();
    let effects = state.send_composer("q1".to_string());
    assert!(submits(&effects).is_empty());
    assert!(!effects.iter().any(|effect| matches!(effect, Effect::Create { .. })));
    assert!(
        effects
            .iter()
            .any(|effect| matches!(effect, Effect::Resume { session_id, .. } if session_id == "a"))
    );
    let held = state.pending_after_start.as_ref().expect("the prompt is held");
    assert_eq!(held.session.as_deref(), Some("a"));
    let generation = state.session_view_generation;
    let effects = state.session_resumed(generation, "a", Ok(ids("live-a", "a")));
    assert_eq!(submits(&effects), vec![("live-a".to_string(), "hello".to_string())]);
    assert!(state.pending_after_start.is_none());
}

#[test]
fn a_prompt_that_could_not_be_sent_comes_back() {
    let mut state = on_screen("a");
    state.live_session_id = None;
    state.composer_text = "hello".to_string();
    state.send_composer("q1".to_string());
    let generation = state.session_view_generation;
    let effects = state.session_resumed(generation, "a", Err("gone".to_string()));
    assert!(submits(&effects).is_empty());
    assert_eq!(state.composer_text, "hello");
    assert!(state.pending_after_start.is_none());
    assert!(state.last_error.is_some());
}

#[test]
fn a_new_chat_creates_its_session() {
    let mut state = connected();
    state.composer_text = "hello".to_string();
    let effects = state.send_composer("q1".to_string());
    assert!(effects.iter().any(|effect| matches!(effect, Effect::Create { .. })));
    let generation = state.session_view_generation;
    let effects = state.chat_created(
        generation,
        None,
        BackendKind::Hermes,
        Ok(ids("live-1", "stored-1")),
        Stamp(5),
    );
    assert_eq!(submits(&effects), vec![("live-1".to_string(), "hello".to_string())]);
    assert_eq!(state.stored_session_id.as_deref(), Some("stored-1"));
    assert_eq!(state.selected_session.as_ref().unwrap().id, "stored-1");
}

#[test]
fn a_stale_result_leaves_the_view_alone() {
    let mut state = on_screen("a");
    state.resume_session(session_of("b", Some("hermes")));
    let generation = state.session_view_generation;
    state.resume_session(session_of("c", Some("hermes")));
    let effects = state.session_resumed(generation, "b", Ok(ids("live-b", "b")));
    assert!(effects.is_empty());
    assert_eq!(state.live_session_id, None);
    assert_eq!(state.selected_session.as_ref().unwrap().id, "c");
}

#[test]
fn a_prompt_during_a_turn_waits_in_the_queue() {
    let mut state = on_screen("a");
    state.conversation.sending = true;
    state.composer_text = "next".to_string();
    let effects = state.send_composer("q1".to_string());
    assert!(submits(&effects).is_empty());
    assert_eq!(state.pending_queue.len(), 1);
    assert_eq!(state.pending_queue[0].id, "q1");
    assert_eq!(state.pending_queue[0].text, "next");
    state.edit_queued("q1");
    assert_eq!(state.composer_text, "next");
    assert!(state.pending_queue.is_empty());
    state.send_composer("q2".to_string());
    state.cancel_queued("q2");
    assert!(state.pending_queue.is_empty());
    state.composer_text = "later".to_string();
    state.send_composer("q3".to_string());
    let effects = state.send_queued_now("q3");
    assert!(
        effects.iter().any(
            |effect| matches!(effect, Effect::Interrupt { queued: Some(item), .. } if item.id == "q3")
        )
    );
}

#[test]
fn a_question_is_answered_from_the_composer() {
    let mut state = on_screen("a");
    state.conversation.sending = true;
    state.pending_clarify = Some(PendingClarify {
        session_id: None,
        question: "Which?".to_string(),
        choices: vec!["left".to_string()],
        request_id: "r1".to_string(),
    });
    state.composer_text = "right".to_string();
    let effects = state.send_composer("q1".to_string());
    assert!(
        effects.iter().any(|effect| matches!(
            effect,
            Effect::Respond { request_id, answer } if request_id == "r1" && answer == "right"
        ))
    );
    assert!(state.pending_queue.is_empty());
}

#[test]
fn a_question_can_be_skipped() {
    let mut state = on_screen("a");
    state.pending_clarify = Some(PendingClarify {
        session_id: None,
        question: "Which?".to_string(),
        choices: Vec::new(),
        request_id: "r1".to_string(),
    });
    let effects = state.dismiss_clarify();
    assert!(state.pending_clarify.is_none());
    assert!(
        effects
            .iter()
            .any(|effect| matches!(effect, Effect::Dismiss { request_id } if request_id == "r1"))
    );
}

#[test]
fn attachments_are_added_once_and_removed() {
    let mut state = connected();
    state.add_attachments(vec![attachment("a")]);
    let paths = vec!["/tmp/a".to_string(), "/tmp/b".to_string()];
    assert_eq!(state.paths_to_attach(&paths), vec!["/tmp/b".to_string()]);
    assert!(state.can_send(), "an attachment alone can be sent");
    state.remove_attachment("a");
    assert!(state.composer_attachments.is_empty());
    assert!(!state.can_send());
}

#[test]
fn streamed_text_asks_for_one_repaint() {
    let mut state = on_screen("a");
    state.conversation.sending = true;
    let effects = state.handle_event(BackendEvent::Turn);
    assert!(effects.iter().any(|effect| matches!(effect, Effect::Fold)));
    let effects = state.event_folded(FoldChange::Streaming, true, Stamp(1));
    assert!(effects.iter().any(|effect| matches!(effect, Effect::ScheduleRepaint)));
    let effects = state.event_folded(FoldChange::Streaming, true, Stamp(1));
    assert!(!effects.iter().any(|effect| matches!(effect, Effect::ScheduleRepaint)));
    state.repainted();
    let effects = state.event_folded(FoldChange::Streaming, true, Stamp(1));
    assert!(effects.iter().any(|effect| matches!(effect, Effect::ScheduleRepaint)));
}

#[test]
fn traffic_of_the_session_just_left_is_not_folded() {
    let mut state = on_screen("a");
    state.resume_session(session_of("b", Some("hermes")));
    let effects = state.handle_event(BackendEvent::Turn);
    assert!(!effects.iter().any(|effect| matches!(effect, Effect::Fold)));
}

#[test]
fn a_lost_connection_ends_the_turn_and_the_question() {
    let mut state = on_screen("a");
    state.pending_clarify = Some(PendingClarify {
        session_id: None,
        question: "Which?".to_string(),
        choices: Vec::new(),
        request_id: "r1".to_string(),
    });
    state.handle_event(BackendEvent::Disconnected);
    assert!(state.pending_clarify.is_none());
    assert!(!state.transport_ready);
}

#[test]
fn a_removed_session_leaves_the_list() {
    let mut state = connected();
    let listed = vec![session_of("a", None), session_of("b", None)];
    let marked = label_fetched(listed, "hermes");
    assert_eq!(marked[0].backend_id.as_deref(), Some("hermes"));
    state.sessions_listed(true, true, "hermes", Ok(marked), Stamp(1));
    assert_eq!(state.sessions.len(), 2);
    let first = session_of("a", Some("hermes"));
    state.archive_session(&first, Stamp(2));
    assert_eq!(state.sessions.len(), 1);
    state.sessions_listed(
        true,
        true,
        "hermes",
        Ok(vec![session_of("a", Some("hermes")), session_of("b", Some("hermes"))]),
        Stamp(3),
    );
    assert_eq!(state.sessions.len(), 1, "an archived session does not come back");
    state.delete_all(Stamp(4));
    assert!(state.sessions.is_empty());
}

#[test]
fn removing_the_session_on_screen_outdates_what_is_under_way() {
    let mut state = on_screen("a");
    state.sessions = vec![session_of("a", Some("hermes"))];
    let generation = state.session_view_generation;
    let first = session_of("a", Some("hermes"));
    let effects = state.delete_session(&first, Stamp(2));
    assert!(
        effects
            .iter()
            .any(|effect| matches!(effect, Effect::DropTranscript(key) if key == "hermes::a"))
    );
    assert!(state.selected_session.is_none());
    assert_eq!(state.live_session_id, None);
    assert_ne!(state.session_view_generation, generation);
    let effects = state.session_resumed(generation, "a", Ok(ids("live-a", "a")));
    assert!(effects.is_empty());
}

/// The conversation of a turn that goes on, or that has ended.
fn said(sending: bool) -> Conversation {
    let mut reply = message(MessageRole::Assistant, "m", "done");
    reply.is_streaming = sending;
    Conversation {
        messages: vec![reply],
        sending,
    }
}

#[test]
fn a_completed_turn_sends_the_next_prompt() {
    let mut state = on_screen("a");
    state.conversation_changed(said(true));
    for (id, text) in [("q1", "next"), ("q2", "later")] {
        state.composer_text = text.to_string();
        state.send_composer(id.to_string());
    }
    state.handle_event(BackendEvent::Clarify(PendingClarify {
        session_id: None,
        question: "Which?".to_string(),
        choices: Vec::new(),
        request_id: "r1".to_string(),
    }));

    // A word of the reply: the turn goes on, and everything waits.
    let was_sending = state.is_sending();
    let effects = state.handle_event(BackendEvent::Turn);
    assert!(effects.iter().any(|effect| matches!(effect, Effect::Fold)));
    state.conversation_changed(said(true));
    let effects = state.event_folded(FoldChange::Streaming, was_sending, Stamp(3));
    assert!(submits(&effects).is_empty());
    assert_eq!(state.pending_queue.len(), 2);
    assert!(state.pending_clarify.is_some());

    // The reply is complete.
    let was_sending = state.is_sending();
    state.handle_event(BackendEvent::Turn);
    state.conversation_changed(said(false));
    let effects = state.event_folded(FoldChange::Structure, was_sending, Stamp(4));
    assert_eq!(submits(&effects), vec![("live-a".to_string(), "next".to_string())]);
    assert!(
        effects
            .iter()
            .any(|effect| matches!(effect, Effect::StoreTranscript(key) if key == "hermes::a"))
    );
    assert!(effects.iter().any(|effect| matches!(effect, Effect::ListSessions { .. })));
    assert!(state.pending_clarify.is_none());
    let waiting: Vec<&str> = state.pending_queue.iter().map(|item| item.id.as_str()).collect();
    assert_eq!(waiting, vec!["q2"]);

    // Nothing was running: an event that changes no turn ends none.
    let effects = state.event_folded(FoldChange::Structure, false, Stamp(5));
    assert!(submits(&effects).is_empty());
    assert_eq!(state.pending_queue.len(), 1);
}

#[test]
fn a_failed_turn_sends_the_next_prompt() {
    let mut state = on_screen("a");
    state.conversation.sending = true;
    state.composer_text = "next".to_string();
    state.send_composer("q1".to_string());
    let effects = state.handle_event(BackendEvent::TurnFailed("broken".to_string()));
    assert!(
        effects
            .iter()
            .any(|effect| matches!(effect, Effect::CompleteMessage(text) if text == "Error: broken"))
    );
    assert!(effects.iter().any(|effect| matches!(effect, Effect::AfterTurn)));
    let effects = state.after_turn_finished(Stamp(3));
    assert_eq!(submits(&effects), vec![("live-a".to_string(), "next".to_string())]);
    assert!(state.pending_queue.is_empty());
}

#[test]
fn a_cached_transcript_is_shown_unless_it_is_empty() {
    assert!(shown_from_cache(&Vec::new()).is_none());
    let cached = vec![message(MessageRole::User, "a", "hi")];
    assert_eq!(shown_from_cache(&cached).map(|shown| shown.len()), Some(1));
}

#[test]
fn switching_the_backend_starts_over() {
    let mut state = on_screen("a");
    let effects = state.switch_backend(BackendKind::OpenClaw, settings(BackendKind::OpenClaw), CAPS);
    assert!(effects.iter().any(|effect| matches!(effect, Effect::Build(BackendKind::OpenClaw))));
    assert_eq!(state.backend_id(), "openclaw");
    assert_eq!(state.backend_display_name(), "OpenClaw");
    assert!(state.selected_session.is_none());
    assert_eq!(state.live_session_id, None);
}

#[test]
fn disconnecting_outdates_what_is_under_way() {
    let mut state = on_screen("a");
    let generation = state.session_view_generation;
    let effects = state.disconnect();
    assert!(effects.iter().any(|effect| matches!(effect, Effect::Disconnect)));
    assert!(matches!(state.connection_state, ConnectionState::Disconnected));
    assert!(!state.transport_ready);
    assert_ne!(state.session_view_generation, generation);
}

#[test]
fn a_stored_credential_is_counted_by_where_it_lives() {
    let state = state();
    let stored: StoredCredential = state.stored_credential(5, 0);
    assert!(stored.is_stored());
    let config = state.backend_config();
    assert_eq!(config.credential, "token");
    assert_eq!(config.base_url, "http://127.0.0.1:9119");
    assert!(!StoredCredential { saved_characters: 0, device_token_characters: 0 }.is_stored());
    assert!(StoredCredential { saved_characters: 0, device_token_characters: 3 }.is_stored());
}

#[test]
fn the_workspace_of_a_managed_server_needs_a_restart() {
    let mut state = state();
    state.settings.workspace = Some("/work".to_string());
    assert!(matches!(
        state.apply_workspace(true, "Hermes", Some("/other")),
        WorkspaceMove::Restart
    ));
    assert!(matches!(
        state.apply_workspace(true, "Hermes", Some("/work")),
        WorkspaceMove::Stay
    ));
}

#[test]
fn a_model_is_selected_and_reported() {
    let mut state = connected();
    let option = ModelOption {
        provider: "p".to_string(),
        model: "m".to_string(),
    };
    let effects = state.select_hermes_model(option.clone());
    assert!(effects.iter().any(|effect| matches!(effect, Effect::SelectModel(_))));
    assert!(state.is_switching_model);
    state.model_selected(option, Ok(()));
    assert!(!state.is_switching_model);
    assert_eq!(state.current_model_name, "m");
    let effects = state.set_permission_mode(PermissionMode(2));
    assert!(
        effects.iter().any(|effect| matches!(effect, Effect::SetPermissionMode(PermissionMode(2))))
    );
    state.permission_mode_set(PermissionMode(2), Ok(()));
    assert_eq!(state.permission_mode, PermissionMode(2));
    assert!(!state.is_changing_permission_mode);
}

#[test]
fn a_transcript_is_filed_under_its_session() {
    let mut state = on_screen("a");
    state.conversation_changed(Conversation {
        messages: vec![message(MessageRole::User, "m", "hi")],
        sending: false,
    });
    assert_eq!(state.transcript_key().as_deref(), Some("hermes::a"));
    let effects = state.save_current_messages_to_cache(Stamp(9));
    assert!(
        effects
            .iter()
            .any(|effect| matches!(effect, Effect::StoreTranscript(key) if key == "hermes::a"))
    );
    assert_eq!(state.cache_summary, "0 cached session(s), 1 cached transcript(s)");
    let usage = state.context_usage();
    assert!(!usage.measured);
    assert_eq!(usage.max_tokens, 258_000);
}
