use serde_json::Value;
use van_goal::client::{
    retry_seconds, send_target, AgentEvent, Applied, Client, ConversationChange, Pump, PumpStep,
    Request, SendTarget,
};
use van_goal::command::{
    accepted, decode, document, parse_kind, read_command, refused, required, settled, Command,
    CommandError,
};
use van_goal::models::{BackendKind, ChatMessage, MessageRole, SessionIds, Stamp, ToolCall};
use van_goal::open_session::{OpenSession, PARKED_LIMIT};
use van_goal::queue::{push, SessionRow, MAX_QUEUED_EVENTS};
use van_goal::settings::{SavedSession, Settings};

fn object(fields: Vec<(&str, Value)>) -> Value {
    fields
        .into_iter()
        .map(|(key, value)| (key.to_string(), value))
        .collect()
}

fn assistant(id: &str, text: &str, done: bool) -> Value {
    object(vec![
        ("event", Value::from("assistant")),
        ("id", Value::from(id)),
        ("text", Value::from(text)),
        ("done", Value::from(done)),
    ])
}

fn names(events: &[Value]) -> Vec<String> {
    events
        .iter()
        .map(|event| event["event"].as_str().unwrap_or("?").to_string())
        .collect()
}

fn settings(kind: BackendKind) -> Settings {
    Settings {
        backend_kind: kind,
        backend_host: "127.0.0.1".to_string(),
        backend_port: 9119,
        backend_use_tls: false,
        session_token: String::new(),
        workspace_path: String::new(),
        font_size: "medium".to_string(),
        show_tool_calls: true,
        last_session: None,
        enabled: Vec::new(),
        base_url: "http://127.0.0.1:9119".to_string(),
        profile: None,
        workspace: None,
        takes_password: true,
    }
}

fn message(role: MessageRole, id: &str, content: &str) -> ChatMessage {
    ChatMessage {
        id: id.to_string(),
        role,
        content: content.to_string(),
        is_streaming: false,
        timestamp: Stamp(0),
        completed_at: None,
        tool_calls: Vec::new(),
        attachments: Vec::new(),
        stalled: false,
        empty_shell: false,
        empty_when_stopped: false,
    }
}

fn client() -> Client<Vec<String>> {
    Client::new(settings(BackendKind::OpenClaw), Vec::new())
}

fn ids(live: &str, stored: &str) -> SessionIds {
    SessionIds {
        live_id: live.to_string(),
        stored_id: Some(stored.to_string()),
    }
}

// -- commands ----------------------------------------------------------------------

#[test]
fn only_the_network_backends_are_offered_on_mobile() {
    for id in ["hermes", "opencode", "mimocode", "openclaw"] {
        assert!(parse_kind(id).is_ok(), "{id} should be available");
    }
    for id in ["codex", "claudecode", "pi"] {
        let error = match parse_kind(id) {
            Ok(_) => panic!("{id} was offered"),
            Err(error) => error.message(),
        };
        assert!(error.contains("local process"), "{id}: {error}");
    }
    assert!(parse_kind("nonsense").is_err());
}

#[test]
fn a_command_without_its_argument_is_rejected() {
    assert!(required(&object(vec![("cmd", Value::from("send"))]), "text").is_err());
    assert_eq!(
        required(&object(vec![("text", Value::from("hi"))]), "text").ok(),
        Some("hi".to_string())
    );
}

#[test]
fn every_command_is_read() {
    assert!(matches!(read_command(r#"{"cmd":"settings"}"#), Ok(Command::Settings)));
    assert!(matches!(read_command(r#"{"cmd":"connect"}"#), Ok(Command::Connect { force: false })));
    assert!(matches!(
        read_command(r#"{"cmd":"ensure_connected","force":true}"#),
        Ok(Command::Connect { force: true })
    ));
    assert!(matches!(
        read_command(r#"{"cmd":"ensure_connected"}"#),
        Ok(Command::Connect { force: false })
    ));
    assert!(matches!(read_command(r#"{"cmd":"disconnect"}"#), Ok(Command::Disconnect)));
    assert!(matches!(read_command(r#"{"cmd":"list_sessions"}"#), Ok(Command::ListSessions)));
    assert!(matches!(
        read_command(r#"{"cmd":"open_session","id":"a"}"#),
        Ok(Command::OpenSession { id }) if id == "a"
    ));
    assert!(matches!(read_command(r#"{"cmd":"new_session"}"#), Ok(Command::NewSession)));
    assert!(matches!(
        read_command(r#"{"cmd":"send","text":"hi"}"#),
        Ok(Command::Send { text }) if text == "hi"
    ));
    assert!(matches!(read_command(r#"{"cmd":"interrupt"}"#), Ok(Command::Interrupt)));
    assert!(matches!(
        read_command(r#"{"cmd":"markdown","text":"*a*"}"#),
        Ok(Command::Markdown { text }) if text == "*a*"
    ));
}

#[test]
fn each_refusal_says_why() {
    let refusal = |document: &str| match read_command(document) {
        Ok(_) => panic!("{document} was accepted"),
        Err(error) => error.message(),
    };
    assert!(refusal("{").starts_with("command was not JSON: "), "{}", refusal("{"));
    assert_eq!(refusal("{}"), "unknown command None");
    assert_eq!(refusal(r#"{"cmd":"dance"}"#), "unknown command Some(\"dance\")");
    assert_eq!(refusal(r#"{"cmd":"send"}"#), "command needs a text");
    assert_eq!(refusal(r#"{"cmd":"configure"}"#), "configure needs a backend");
    assert_eq!(
        refusal(r#"{"cmd":"configure","backend":"pi"}"#),
        "pi runs as a local process and is not available on mobile"
    );
    assert_eq!(
        CommandError::UnknownFontSize("huge".to_string()).message(),
        "unknown font size \"huge\""
    );
    assert!(decode(&Value::from(3)).is_err());
}

#[test]
fn replies_are_documents() {
    assert_eq!(document(&refused("no")), r#"{"error":"no","ok":false}"#);
    assert_eq!(document(&accepted(None)), r#"{"ok":true}"#);
    assert_eq!(document(&settled(true)), r#"{"ok":true}"#);
    assert_eq!(document(&settled(false)), r#"{"ok":false}"#);
    let payload = object(vec![("event", Value::from("settings"))]);
    let reply: Value = accepted(Some(payload));
    assert_eq!(reply["ok"], Value::from(true));
    assert_eq!(reply["event"], Value::from("settings"));
}

#[test]
fn a_configuration_is_put_in_place() {
    let mut client = client();
    let command = read_command(
        r#"{"cmd":"configure","backend":"hermes","host":" box ","port":1234,"use_tls":true,"credential":" secret "}"#,
    );
    let Ok(Command::Configure(configuration)) = command else {
        panic!("not a configuration")
    };
    client.configure(configuration);
    assert_eq!(client.settings.backend_kind.id(), "hermes");
    assert_eq!(client.settings.backend_port, 1234);
    assert!(client.settings.backend_use_tls);
    assert_eq!(client.settings.workspace_path, "", "what was not named stays");
    let payload = client.settings.payload();
    assert_eq!(payload["event"], Value::from("settings"));
    assert_eq!(payload["backend"], Value::from("hermes"));
    assert_eq!(payload["port"], Value::from(1234));
}

#[test]
fn an_unknown_text_size_changes_nothing() {
    let mut client = client();
    let refused = client.set_ui(Some("huge".to_string()), false, Some(false));
    assert!(refused.is_err());
    assert!(client.settings.show_tool_calls);
    assert!(client.poll().is_empty());
    let payload = match client.set_ui(Some("large".to_string()), true, Some(false)) {
        Ok(payload) => payload,
        Err(error) => panic!("{}", error.message()),
    };
    assert_eq!(payload["font_size"], Value::from("large"));
    assert_eq!(payload["show_tool_calls"], Value::from(false));
    assert_eq!(names(&client.poll()), vec!["settings"]);
}

// -- the queue ------------------------------------------------------------------------

#[test]
fn streaming_deltas_do_not_pile_up_in_the_queue() {
    let mut events: Vec<Value> = Vec::new();
    for text in ["科", "科研", "科研模式", "科研模式已进入"] {
        push(&mut events, assistant("m1", text, false));
    }
    assert_eq!(names(&events), vec!["assistant"]);
    assert_eq!(events[0]["text"], "科研模式已进入");
}

#[test]
fn a_delta_for_another_message_is_a_separate_event() {
    let mut events: Vec<Value> = Vec::new();
    push(&mut events, assistant("m1", "第一段", false));
    push(&mut events, assistant("m2", "第二段", false));
    assert_eq!(names(&events), vec!["assistant", "assistant"]);
}

#[test]
fn an_event_between_two_deltas_is_kept() {
    let mut events: Vec<Value> = Vec::new();
    push(&mut events, assistant("m1", "一", false));
    push(
        &mut events,
        object(vec![
            ("event", Value::from("tool")),
            ("name", Value::from("read")),
            ("status", Value::from("ok")),
            ("detail", Value::from("")),
        ]),
    );
    push(&mut events, assistant("m1", "一二", false));
    assert_eq!(names(&events), vec!["assistant", "tool", "assistant"]);
}

#[test]
fn the_finished_reply_is_kept_next_to_the_last_delta() {
    let mut events: Vec<Value> = Vec::new();
    push(&mut events, assistant("m1", "一", false));
    push(&mut events, assistant("m1", "一二", true));
    assert_eq!(names(&events), vec!["assistant", "assistant"]);
}

#[test]
fn the_queue_is_capped() {
    let mut events: Vec<Value> = Vec::new();
    for index in 0..(MAX_QUEUED_EVENTS + 50) {
        push(
            &mut events,
            object(vec![
                ("event", Value::from("tool")),
                ("name", Value::from(index.to_string())),
            ]),
        );
    }
    assert_eq!(events.len(), MAX_QUEUED_EVENTS);
    // What is dropped is the oldest.
    assert_eq!(events[0]["name"], Value::from("50"));
}

#[test]
fn a_poll_takes_everything_once() {
    let mut client = client();
    client.push_error("broken");
    let taken = client.poll();
    assert_eq!(names(&taken), vec!["error"]);
    assert_eq!(taken[0]["message"], Value::from("broken"));
    assert!(client.poll().is_empty());
}

#[test]
fn a_poll_is_one_document() {
    let mut client = client();
    assert_eq!(client.poll_document(), "[]");
    client.push_error("first");
    client.push_error("second");
    assert_eq!(
        client.poll_document(),
        r#"[{"event":"error","message":"first"},{"event":"error","message":"second"}]"#
    );
    assert_eq!(client.poll_document(), "[]");
}

#[test]
fn a_transcript_carries_every_message() {
    let mut client = client();
    let mut reply = message(MessageRole::Assistant, "m2", "hello");
    reply.tool_calls.push(ToolCall {
        name: "read".to_string(),
        status: "ok".to_string(),
        detail: "a file".to_string(),
        timestamp: Stamp(1),
    });
    let messages = vec![message(MessageRole::User, "m1", "hi"), reply];
    client.push_transcript(&messages);
    let taken = client.poll();
    assert_eq!(names(&taken), vec!["transcript"]);
    let text = taken[0].to_string();
    assert!(text.contains("\"user\"") && text.contains("\"assistant\""), "{text}");
    assert!(text.contains("hello") && text.contains("a file"), "{text}");
}

// -- sessions ----------------------------------------------------------------------------

#[test]
fn turn_events_are_dropped_while_a_session_is_being_opened() {
    let mut open: OpenSession<Vec<String>> = OpenSession::new(Vec::new());
    assert!(open.accepts_turn_events(), "a brand new chat accepts events");

    open.stored_id = Some("b".into());
    assert!(
        !open.accepts_turn_events(),
        "events arriving while a session is opening belong to the old one"
    );

    open.live_id = Some("b".into());
    assert!(open.accepts_turn_events(), "a resumed session accepts them");
}

#[test]
fn switching_sessions_keeps_each_conversation() {
    let mut open: OpenSession<Vec<String>> = OpenSession::new(Vec::new());
    open.stored_id = Some("a".into());
    open.live_id = Some("a".into());
    open.conversation.push("在 A 里说的话".to_string());

    open.switch_to(Some("b"), Vec::new());
    open.stored_id = Some("b".into());
    open.live_id = None;
    assert!(open.conversation.is_empty(), "B starts empty");

    open.conversation.push("在 B 里说的话".to_string());
    open.live_id = Some("b".into());
    open.switch_to(Some("a"), Vec::new());
    assert_eq!(open.conversation.len(), 1);
    assert_eq!(open.conversation[0], "在 A 里说的话");
}

#[test]
fn a_session_left_before_it_was_live_gives_way_to_the_one_before() {
    let mut open: OpenSession<Vec<String>> = OpenSession::new(Vec::new());
    open.stored_id = Some("a".into());
    open.conversation.push("said in a".to_string());
    open.switch_to(Some("b"), Vec::new());
    open.stored_id = Some("b".into());
    open.live_id = None;
    open.switch_to(Some("a"), Vec::new());
    assert_eq!(open.conversation, vec!["said in a".to_string()]);
}

#[test]
fn the_parked_conversations_are_capped() {
    let mut open: OpenSession<Vec<String>> = OpenSession::new(Vec::new());
    for index in 0..(PARKED_LIMIT + 4) {
        open.stored_id = Some(format!("s{index}"));
        open.switch_to(Some(&format!("next{index}")), Vec::new());
    }
    assert!(
        open.parked.len() <= PARKED_LIMIT,
        "{} conversations were kept",
        open.parked.len()
    );
}

#[test]
fn the_conversation_just_left_is_never_the_one_dropped() {
    let mut open: OpenSession<Vec<String>> = OpenSession::new(Vec::new());
    for index in (0..(PARKED_LIMIT + 4)).rev() {
        open.stored_id = Some(format!("s{index:02}"));
        open.conversation = vec![format!("said in {index}")];
        open.switch_to(Some("elsewhere"), Vec::new());
        open.stored_id = Some("elsewhere".to_string());
        open.switch_to(Some(&format!("s{index:02}")), vec!["lost".to_string()]);
        assert_eq!(open.conversation, vec![format!("said in {index}")]);
    }
}

#[test]
fn a_prompt_goes_to_the_session_on_screen_not_to_a_new_one() {
    assert_eq!(
        send_target(None, Some("agent:main:van-goal:mine")),
        SendTarget::Resume("agent:main:van-goal:mine".into()),
        "a session that exists on the backend must be resumed, never replaced"
    );
    assert_eq!(
        send_target(Some("live-9"), Some("stored-9")),
        SendTarget::Live("live-9".into())
    );
    assert_eq!(
        send_target(None, None),
        SendTarget::Create,
        "only a chat with nothing on screen needs a session created"
    );
}

#[test]
fn the_open_session_is_remembered_and_forgotten() {
    let mut settings = settings(BackendKind::OpenClaw);
    assert_eq!(settings.saved_session(), None, "nothing is open yet");

    settings.remember_session("agent:main:van-goal:a");
    assert_eq!(settings.saved_session().as_deref(), Some("agent:main:van-goal:a"));

    settings.remember_session("agent:main:van-goal:b");
    assert_eq!(settings.saved_session().as_deref(), Some("agent:main:van-goal:b"));

    settings.forget_session();
    assert_eq!(settings.saved_session(), None, "a new chat forgets the old one");
}

#[test]
fn a_saved_session_from_another_backend_is_not_reopened() {
    let mut settings = settings(BackendKind::OpenClaw);
    settings.last_session = Some(SavedSession {
        backend: "hermes".into(),
        id: "live-7".into(),
    });
    assert_eq!(settings.saved_session(), None);
}

#[test]
fn one_backend_is_switched_on_at_a_time() {
    let mut settings = settings(BackendKind::OpenClaw);
    settings.set_backend_enabled(BackendKind::OpenClaw, true);
    settings.set_backend_enabled(BackendKind::Hermes, true);
    assert!(settings.is_backend_enabled(BackendKind::Hermes));
    assert!(!settings.is_backend_enabled(BackendKind::OpenClaw));
    settings.set_backend_enabled(BackendKind::Hermes, false);
    assert!(!settings.is_backend_enabled(BackendKind::Hermes));
}

#[test]
fn a_session_is_opened_and_left_for_a_new_chat() {
    let mut client = client();
    client.remember_session("stored-1");
    client.show_session("stored-1", Vec::new());
    assert_eq!(client.open.stored_id.as_deref(), Some("stored-1"));
    assert_eq!(client.open.live_id, None);
    assert_eq!(client.send_target(), SendTarget::Resume("stored-1".to_string()));
    client.session_opened("stored-1", Ok(ids("live-1", "stored-1")));
    assert_eq!(client.send_target(), SendTarget::Live("live-1".to_string()));
    client.poll();
    client.new_session(Vec::new());
    assert_eq!(client.send_target(), SendTarget::Create);
    assert_eq!(client.settings.saved_session(), None);
}

#[test]
fn a_session_that_cannot_be_opened_is_reported() {
    let mut client = client();
    client.show_session("stored-1", Vec::new());
    client.poll();
    client.session_opened("stored-1", Err("gone".to_string()));
    let taken = client.poll();
    assert_eq!(names(&taken), vec!["error"]);
    assert!(taken[0]["message"].as_str().unwrap().ends_with("gone"));
}

#[test]
fn a_prompt_resumes_or_creates_the_session_it_goes_to() {
    let mut client = client();
    let live = client.created_to_send(Ok(ids("live-2", "stored-2")));
    assert_eq!(live.as_deref(), Some("live-2"));
    assert_eq!(client.open.stored_id.as_deref(), Some("stored-2"));
    client.open.live_id = None;
    let live = client.resumed_to_send("stored-2", Ok(ids("live-3", "stored-2")));
    assert_eq!(live.as_deref(), Some("live-3"));
    assert_eq!(client.resumed_to_send("stored-2", Err("down".to_string())), None);
    client.poll();
    client.request_failed(Request::Interrupt, "busy");
    assert_eq!(
        client.poll()[0]["message"],
        Value::from("could not interrupt: busy")
    );
    client.request_failed(Request::Answer, "busy");
    assert_eq!(client.poll()[0]["message"], Value::from("could not answer: busy"));
}

#[test]
fn listed_sessions_reach_the_frontend() {
    let mut client = client();
    client.sessions_listed(Ok(vec![SessionRow {
        id: "a".to_string(),
        title: "First".to_string(),
        model: Some("m".to_string()),
        cwd: None,
        last_active: Value::from(12),
        messages: Some(3),
    }]));
    let taken = client.poll();
    assert_eq!(names(&taken), vec!["sessions"]);
    let row = &taken[0]["items"][0];
    assert_eq!(row["id"], Value::from("a"));
    assert_eq!(row["title"], Value::from("First"));
    assert_eq!(row["model"], Value::from("m"));
    assert_eq!(row["cwd"], Value::Null);
    assert_eq!(row["last_active"], Value::from(12));
    assert_eq!(row["messages"], Value::from(3));
    client.sessions_listed(Err("down".to_string()));
    assert_eq!(
        client.poll()[0]["message"],
        Value::from("could not list sessions: down")
    );
}

// -- events --------------------------------------------------------------------------------

#[test]
fn backend_events_are_told_or_folded() {
    let mut client = client();
    assert_eq!(client.apply(&AgentEvent::Connected, false), Applied::Done);
    assert_eq!(
        client.apply(&AgentEvent::SessionInfo("live-1".to_string()), false),
        Applied::Done
    );
    assert_eq!(client.open.live_id.as_deref(), Some("live-1"));
    assert_eq!(client.apply(&AgentEvent::SessionsChanged, false), Applied::Done);
    let clarify = AgentEvent::Clarify {
        question: "Which?".to_string(),
        choices: vec!["a".to_string(), "b".to_string()],
        request_id: "r1".to_string(),
    };
    assert_eq!(client.apply(&clarify, true), Applied::Done);
    assert_eq!(client.apply(&AgentEvent::Disconnected, false), Applied::Done);
    assert_eq!(client.apply(&AgentEvent::Failed("x".to_string()), false), Applied::Done);
    assert_eq!(client.apply(&AgentEvent::Failed("x".to_string()), true), Applied::FinishTurn);
    assert_eq!(client.apply(&AgentEvent::Turn, true), Applied::Fold);
    let taken = client.poll();
    assert_eq!(
        names(&taken),
        vec!["connection", "session", "sessions_changed", "clarify", "connection", "error"]
    );
    assert_eq!(taken[3]["question"], Value::from("Which?"));
    assert_eq!(taken[3]["choices"][1], Value::from("b"));
    client.open.live_id = None;
    client.open.stored_id = Some("other".to_string());
    assert_eq!(client.apply(&AgentEvent::Turn, true), Applied::Dropped);
}

#[test]
fn a_fold_is_told_as_a_delta_or_as_the_whole_list() {
    let mut client = client();
    let messages = vec![message(MessageRole::Assistant, "m1", "hello")];
    client.folded(&ConversationChange::Unchanged, &messages);
    assert!(client.poll().is_empty());
    let change = ConversationChange::Streaming {
        id: "m1".to_string(),
        text: "hel".to_string(),
    };
    client.folded(&change, &messages);
    let taken = client.poll();
    assert_eq!(taken, vec![assistant("m1", "hel", false)]);
    client.folded(&ConversationChange::Structure, &messages);
    assert_eq!(names(&client.poll()), vec!["transcript"]);
    client.turn_failed(&messages, "died");
    assert_eq!(names(&client.poll()), vec!["transcript", "error"]);
}

// -- the connection ---------------------------------------------------------------------------

#[test]
fn waits_grow_between_attempts() {
    let waits: Vec<u64> = (0..8).map(retry_seconds).collect();
    assert!(waits.windows(2).all(|pair| pair[0] <= pair[1]), "{waits:?}");
    assert_eq!(waits[7], 30);
}

#[test]
fn a_running_turn_is_not_cut_off_by_a_reconnect() {
    let mut client = client();
    let first = client.connect(false, false);
    assert_eq!(first, Some(1));
    client.live = true;
    assert_eq!(client.connect(false, false), None, "already connected");
    assert_eq!(client.connect(true, true), None, "a turn is running");
    assert_eq!(client.connect(true, false), Some(2));
}

#[test]
fn a_pump_goes_through_its_steps() {
    let mut client = client();
    client.settings.remember_session("stored-1");
    let generation = client.connect(false, false).expect("a fresh attempt");
    let mut pump = Pump::new(&client, generation);
    assert!(matches!(pump.begin(&mut client), PumpStep::Attempt));
    assert!(matches!(
        pump.attempted(&mut client, Err("refused".to_string())),
        PumpStep::Retry
    ));
    assert!(matches!(pump.retry(&client), PumpStep::Sleep(seconds) if seconds == retry_seconds(0)));
    assert!(matches!(pump.retry(&client), PumpStep::Sleep(seconds) if seconds == retry_seconds(1)));
    assert!(
        matches!(pump.attempted(&mut client, Ok(())), PumpStep::Open(id) if id == "stored-1")
    );
    assert!(client.live);
    client.open.stored_id = Some("stored-2".to_string());
    assert!(
        matches!(pump.attempted(&mut client, Ok(())), PumpStep::Resume(id) if id == "stored-2")
    );
    assert!(matches!(
        pump.resubscribed(&mut client, Ok(ids("live-2", "stored-2"))),
        PumpStep::Drain
    ));
    assert_eq!(client.open.live_id.as_deref(), Some("live-2"));
    assert!(matches!(pump.stream_ended(&mut client, true), PumpStep::FinishTurn));
    assert!(!client.live);
    assert!(matches!(pump.stream_ended(&mut client, false), PumpStep::Retry));
}

#[test]
fn an_older_pump_gives_way_to_a_newer_one() {
    let mut client = client();
    let generation = client.connect(false, false).expect("a fresh attempt");
    let mut pump = Pump::new(&client, generation);
    client.connect(true, false);
    client.poll();
    assert!(matches!(pump.begin(&mut client), PumpStep::Stop));
    assert!(matches!(
        pump.attempted(&mut client, Err("late".to_string())),
        PumpStep::Stop
    ));
    assert!(matches!(pump.stream_ended(&mut client, true), PumpStep::Stop));
    assert!(matches!(pump.retry(&client), PumpStep::Stop));
    assert!(client.poll().is_empty(), "an outdated pump says nothing");
}

#[test]
fn a_closed_connection_is_not_opened_at_the_next_launch() {
    let mut client = client();
    client.settings.set_backend_enabled(BackendKind::OpenClaw, true);
    assert!(client.wants_connection());
    client.connect(false, false);
    client.disconnect();
    assert!(!client.wants_connection());
    assert!(!client.wanted);
    client.disconnected();
    let taken = client.poll();
    assert_eq!(taken.last().unwrap()["state"], Value::from("disconnected"));
    let saved = settings(BackendKind::OpenClaw);
    let (_, attempt) = client.report_settings(saved, false);
    assert_eq!(attempt, None);
    let mut saved = settings(BackendKind::OpenClaw);
    saved.set_backend_enabled(BackendKind::OpenClaw, true);
    let (payload, attempt) = client.report_settings(saved, false);
    assert_eq!(payload["backend"], Value::from("openclaw"));
    assert!(attempt.is_some());
}

#[test]
fn a_backend_is_built_once_per_kind() {
    let mut client = client();
    assert!(client.needs_backend());
    assert!(!client.needs_backend());
    client.settings.backend_kind = BackendKind::Hermes;
    assert!(client.needs_backend());
}
