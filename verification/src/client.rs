//! The headless client behind a frontend: which session is on screen, what the frontend
//! is told, and when to connect.
//!
//! Talking to a backend takes time, so every answer comes in as a call of its own. The
//! client decides what to do with it; the caller does it and comes back with the next
//! answer.

use crate::command::{configure, set_ui, CommandError, CommandErrorView, Configuration};
use crate::json::{json_items, json_list, json_view, render_json, rendered_json, JsonView};
use crate::models::{BackendKind, ChatMessage, SessionIds};
use crate::open_session::{OpenSession, OpenView};
use crate::queue::{
    clarify_event, clarify_view, connection_event, connection_view, delta_event, delta_view,
    error_event, error_view, poll, push, queued, session_event, session_view,
    sessions_changed_event, sessions_changed_view, sessions_event, sessions_list_view,
    transcript_event, transcript_view, SessionRow,
};
use crate::settings::{Settings, SettingsView};
use crate::words::{join, maybe_str, maybe_text};
use serde_json::Value;
use vstd::prelude::*;

verus! {

/// How long to wait before the next attempt, in seconds, from the first failure onwards.
/// The last value is used for every later attempt.
pub open spec fn retry_seconds_of(attempt: int) -> u64 {
    if attempt <= 0 {
        1
    } else if attempt == 1 {
        2
    } else if attempt == 2 {
        4
    } else if attempt == 3 {
        8
    } else if attempt == 4 {
        15
    } else {
        30
    }
}

/// How long one attempt may take before it is abandoned and tried again, in seconds. It
/// has to outlast the handshake that the backends bound themselves.
pub const ATTEMPT_TIMEOUT_SECONDS: u64 = 45;

/// How long to wait before the next attempt, in seconds.
pub fn retry_seconds(attempt: usize) -> (seconds: u64)
    ensures
        seconds == retry_seconds_of(attempt as int),
{
    if attempt == 0 {
        1
    } else if attempt == 1 {
        2
    } else if attempt == 2 {
        4
    } else if attempt == 3 {
        8
    } else if attempt == 4 {
        15
    } else {
        30
    }
}

/// Waiting never gets shorter from one failure to the next, and never longer than half
/// a minute.
pub proof fn waiting_grows_to_a_bound(earlier: int, later: int)
    requires
        earlier <= later,
    ensures
        1 <= retry_seconds_of(earlier) <= retry_seconds_of(later) <= 30,
{
}

/// Where a prompt is about to be sent.
#[derive(Debug, PartialEq, Eq)]
pub enum SendTarget {
    /// The connection already has a live session.
    Live(String),
    /// The session on screen has no live connection, but it exists on the backend under
    /// this key: attach to it again.
    Resume(String),
    /// No session on screen at all, so this really is a new chat.
    Create,
}

pub enum TargetView {
    Live(Seq<char>),
    Resume(Seq<char>),
    Create,
}

impl View for SendTarget {
    type V = TargetView;

    open spec fn view(&self) -> TargetView {
        match self {
            SendTarget::Live(id) => TargetView::Live(id@),
            SendTarget::Resume(id) => TargetView::Resume(id@),
            SendTarget::Create => TargetView::Create,
        }
    }
}

/// Where a prompt goes, from the two ids that the client holds.
pub open spec fn target_of(live: Option<Seq<char>>, stored: Option<Seq<char>>) -> TargetView {
    match live {
        Some(live) => TargetView::Live(live),
        None => match stored {
            Some(stored) => TargetView::Resume(stored),
            None => TargetView::Create,
        },
    }
}

/// Decide where a prompt goes. A session whose live connection is missing is attached to
/// again, never replaced: only a chat with no session on screen needs one created.
pub fn send_target(live: Option<&str>, stored: Option<&str>) -> (target: SendTarget)
    ensures
        target@ == target_of(maybe_str(live), maybe_str(stored)),
{
    match live {
        Some(live) => SendTarget::Live(live.to_owned()),
        None => match stored {
            Some(stored) => SendTarget::Resume(stored.to_owned()),
            None => SendTarget::Create,
        },
    }
}

/// What a backend reports. What belongs to a turn is folded into the conversation by its
/// owner.
pub enum AgentEvent {
    Connected,
    SessionInfo(String),
    SessionsChanged,
    Clarify { question: String, choices: Vec<String>, request_id: String },
    Disconnected,
    Failed(String),
    Turn,
}

/// What is left to do about a backend's event.
#[derive(Clone, Copy, Debug, PartialEq, Eq, Structural)]
pub enum Applied {
    /// Nothing.
    Done,
    /// Nothing: the event belongs to a session that was left.
    Dropped,
    /// Stop the turn in the conversation, then report the failure.
    FinishTurn,
    /// Fold the event into the conversation.
    Fold,
}

/// What folding an event changed in the conversation.
pub enum ConversationChange {
    Unchanged,
    Streaming { id: String, text: String },
    Structure,
}

/// The client of one frontend, with conversations of type `C`.
pub struct Client<C> {
    pub settings: Settings,
    pub events: Vec<Value>,
    pub open: OpenSession<C>,
    /// The event stream is up and being drained.
    pub live: bool,
    /// The user wants to be connected.
    pub wanted: bool,
    /// Which attempt to connect is the current one.
    pub generation: u64,
    /// The kind of backend that was built last.
    pub built_for: Option<BackendKind>,
}

pub struct ClientView<C> {
    pub settings: SettingsView,
    pub events: Seq<JsonView>,
    pub open: OpenView<C>,
    pub live: bool,
    pub wanted: bool,
    pub generation: u64,
    pub built_for: Option<BackendKind>,
}

impl<C> View for Client<C> {
    type V = ClientView<C>;

    open spec fn view(&self) -> ClientView<C> {
        ClientView {
            settings: self.settings@,
            events: json_items(self.events@),
            open: self.open@,
            live: self.live,
            wanted: self.wanted,
            generation: self.generation,
            built_for: self.built_for,
        }
    }
}

/// The attempt after `generation`.
pub open spec fn next_generation(generation: u64) -> u64 {
    if generation == u64::MAX {
        0
    } else {
        (generation + 1) as u64
    }
}

impl<C> ClientView<C> {
    /// The client with one more event for the frontend.
    pub open spec fn told(self, event: JsonView) -> ClientView<C> {
        ClientView { events: queued(self.events, event), ..self }
    }

    /// The client once everything queued has been handed over.
    pub open spec fn polled(self) -> ClientView<C> {
        ClientView { events: seq![], ..self }
    }

    /// The client with an error for the frontend.
    pub open spec fn told_error(self, message: Seq<char>) -> ClientView<C> {
        self.told(error_view(message))
    }

    /// Whether an open connection is left alone: it is not to be forced, or a turn is
    /// running on it.
    pub open spec fn keeps_connection(self, force: bool, sending: bool) -> bool {
        self.live && (!force || sending)
    }

    /// The client once a fresh attempt to connect is under way.
    pub open spec fn connecting(self) -> ClientView<C> {
        ClientView {
            wanted: true,
            live: false,
            generation: next_generation(self.generation),
            ..self
        }
    }

    /// The client once the user has closed the connection.
    pub open spec fn closed(self) -> ClientView<C> {
        ClientView {
            wanted: false,
            live: false,
            generation: next_generation(self.generation),
            settings: self.settings.with_backend(self.settings.backend_kind, false),
            ..self
        }
    }

    /// Whether attempt `generation` is still the one to go on with.
    pub open spec fn goes_on(self, generation: u64) -> bool {
        self.wanted && self.generation == generation
    }

    /// The client with other ids for the session on screen.
    pub open spec fn with_ids(
        self,
        live_id: Option<Seq<char>>,
        stored_id: Option<Seq<char>>,
    ) -> ClientView<C> {
        ClientView { open: OpenView { live_id, stored_id, ..self.open }, ..self }
    }
}

impl<C> Client<C> {
    pub open spec fn wf(&self) -> bool {
        self.open.wf()
    }

    /// A client that is not connected and shows nothing.
    pub fn new(settings: Settings, conversation: C) -> (client: Client<C>)
        ensures
            client@ == (ClientView {
                settings: settings@,
                events: seq![],
                open: OpenView {
                    live_id: None,
                    stored_id: None,
                    conversation,
                    parked: Map::empty(),
                },
                live: false,
                wanted: false,
                generation: 0,
                built_for: None,
            }),
            client.wf(),
    {
        let client: Client<C> = Client {
            settings,
            events: Vec::new(),
            open: OpenSession::new(conversation),
            live: false,
            wanted: false,
            generation: 0,
            built_for: None,
        };
        assert(client@.events =~= seq![]);
        client
    }

    // -- the queue ----------------------------------------------------------------

    /// Tell the frontend.
    pub fn push(&mut self, event: Value)
        requires
            old(self).wf(),
        ensures
            final(self)@ == old(self)@.told(json_view(event)),
            final(self).wf(),
    {
        push(&mut self.events, event);
    }

    pub fn push_error(&mut self, message: &str)
        requires
            old(self).wf(),
        ensures
            final(self)@ == old(self)@.told_error(message@),
            final(self).wf(),
    {
        self.push(error_event(message));
    }

    /// Hand the whole message list over.
    pub fn push_transcript(&mut self, messages: &Vec<ChatMessage>)
        requires
            old(self).wf(),
        ensures
            final(self)@ == old(self)@.told(transcript_view(messages@)),
            final(self).wf(),
    {
        self.push(transcript_event(messages));
    }

    /// Take everything queued since the last call.
    pub fn poll(&mut self) -> (taken: Vec<Value>)
        requires
            old(self).wf(),
        ensures
            json_items(taken@) == old(self)@.events,
            final(self)@ == old(self)@.polled(),
            final(self).wf(),
    {
        let taken: Vec<Value> = poll(&mut self.events);
        assert(self@.events =~= seq![]);
        taken
    }

    /// Take everything queued since the last call, as the JSON array that the frontend
    /// reads. Where nothing has happened it is empty.
    pub fn poll_document(&mut self) -> (document: String)
        requires
            old(self).wf(),
        ensures
            document@ == rendered_json(JsonView::List(old(self)@.events)),
            old(self)@.events.len() == 0 ==> document@ == "[]"@,
            final(self)@ == old(self)@.polled(),
            final(self).wf(),
    {
        proof {
            if self@.events.len() == 0 {
                assert(self@.events =~= seq![]);
            }
        }
        let taken: Vec<Value> = self.poll();
        render_json(&json_list(taken))
    }

    // -- set-up -------------------------------------------------------------------

    /// Take over what was saved last time and tell the frontend. A backend that was left
    /// switched on is connected again: the attempt to make is returned.
    pub fn report_settings(&mut self, settings: Settings, sending: bool) -> (reported: (
        Value,
        Option<u64>,
    ))
        requires
            old(self).wf(),
        ensures
            json_view(reported.0) == settings@.payload(),
            ({
                let loaded = (ClientView { settings: settings@, ..old(self)@ }).told(
                    settings@.payload(),
                );
                if settings@.enabled.contains(settings@.backend_kind) && !loaded.keeps_connection(
                    false,
                    sending,
                ) {
                    final(self)@ == loaded.connecting() && reported.1 == Some(
                        loaded.connecting().generation,
                    )
                } else {
                    final(self)@ == loaded && reported.1 is None
                }
            }),
            final(self).wf(),
    {
        self.settings = settings;
        self.push(self.settings.payload());
        let attempt: Option<u64> = if self.wants_connection() {
            self.connect(false, sending)
        } else {
            None
        };
        (self.settings.payload(), attempt)
    }

    /// Set a backend up.
    pub fn configure(&mut self, configuration: Configuration)
        requires
            old(self).wf(),
        ensures
            final(self)@ == (ClientView {
                settings: configuration@.applied_to(old(self)@.settings),
                ..old(self)@
            }),
            final(self).wf(),
    {
        configure(&mut self.settings, configuration);
    }

    /// Put an interface preference in place and hand the whole set back. Whether there
    /// is such a text size, `known` says.
    pub fn set_ui(
        &mut self,
        font_size: Option<String>,
        known: bool,
        show_tool_calls: Option<bool>,
    ) -> (outcome: Result<Value, CommandError>)
        requires
            old(self).wf(),
        ensures
            match outcome {
                Ok(payload) => (font_size is None || known) && ({
                    let settings = SettingsView {
                        font_size: match font_size {
                            Some(id) => id@,
                            None => old(self)@.settings.font_size,
                        },
                        show_tool_calls: match show_tool_calls {
                            Some(show) => show,
                            None => old(self)@.settings.show_tool_calls,
                        },
                        ..old(self)@.settings
                    };
                    &&& json_view(payload) == settings.payload()
                    &&& final(self)@ == (ClientView { settings, ..old(self)@ }).told(
                        settings.payload(),
                    )
                }),
                Err(error) => font_size is Some && !known && error@
                    == CommandErrorView::UnknownFontSize(font_size->0@) && final(self)@ == old(
                    self,
                )@,
            },
            final(self).wf(),
    {
        match set_ui(&mut self.settings, font_size, known, show_tool_calls) {
            Ok(_) => {
                self.push(self.settings.payload());
                Ok(self.settings.payload())
            },
            Err(error) => Err(error),
        }
    }

    /// Whether the saved settings say that the client should be connected.
    pub fn wants_connection(&self) -> (wants: bool)
        ensures
            wants == self@.settings.enabled.contains(self@.settings.backend_kind),
    {
        self.settings.is_backend_enabled(self.settings.backend_kind)
    }

    /// Whether a backend has to be built, because none was built for the kind that is
    /// set up.
    pub fn needs_backend(&mut self) -> (needs: bool)
        requires
            old(self).wf(),
        ensures
            needs == (old(self)@.built_for != Some(old(self)@.settings.backend_kind)),
            final(self)@ == (ClientView {
                built_for: Some(old(self)@.settings.backend_kind),
                ..old(self)@
            }),
            final(self).wf(),
    {
        let kind: BackendKind = self.settings.backend_kind;
        let needs: bool = match self.built_for {
            Some(built_for) => built_for != kind,
            None => true,
        };
        self.built_for = Some(kind);
        needs
    }

    // -- lifecycle ----------------------------------------------------------------

    /// Open the connection, or leave the running one alone. A connection that looks
    /// alive is started over only where that is forced, and never while a turn is in
    /// flight. The attempt to make is returned.
    pub fn connect(&mut self, force: bool, sending: bool) -> (attempt: Option<u64>)
        requires
            old(self).wf(),
        ensures
            if old(self)@.keeps_connection(force, sending) {
                final(self)@ == old(self)@ && attempt is None
            } else {
                final(self)@ == old(self)@.connecting() && attempt == Some(
                    old(self)@.connecting().generation,
                )
            },
            final(self).wf(),
    {
        if self.live && !force {
            return None;
        }
        if self.live && sending {
            return None;
        }
        self.wanted = true;
        self.live = false;
        self.advance();
        Some(self.generation)
    }

    fn advance(&mut self)
        requires
            old(self).wf(),
        ensures
            final(self)@ == (ClientView {
                generation: next_generation(old(self)@.generation),
                ..old(self)@
            }),
            final(self).wf(),
    {
        self.generation = if self.generation == u64::MAX {
            0
        } else {
            self.generation + 1
        };
    }

    /// Close the connection and keep it closed, after a restart too.
    pub fn disconnect(&mut self)
        requires
            old(self).wf(),
        ensures
            final(self)@ == old(self)@.closed(),
            final(self).wf(),
    {
        self.wanted = false;
        self.advance();
        let kind: BackendKind = self.settings.backend_kind;
        self.settings.set_backend_enabled(kind, false);
        self.live = false;
    }

    /// The backend has been disconnected on the user's behalf.
    pub fn disconnected(&mut self)
        requires
            old(self).wf(),
        ensures
            final(self)@ == old(self)@.told(connection_view("disconnected"@)),
            final(self).wf(),
    {
        self.push(connection_event("disconnected"));
    }

    // -- sessions -----------------------------------------------------------------

    /// The session list has arrived, or has not.
    pub fn sessions_listed(&mut self, listed: Result<Vec<SessionRow>, String>)
        requires
            old(self).wf(),
        ensures
            final(self)@ == (match listed {
                Ok(rows) => old(self)@.told(sessions_list_view(rows@)),
                Err(error) => old(self)@.told_error("could not list sessions: "@ + error@),
            }),
            final(self).wf(),
    {
        match listed {
            Ok(rows) => {
                self.push(sessions_event(rows));
            },
            Err(error) => {
                let message: String = join("could not list sessions: ", error.as_str());
                self.push_error(message.as_str());
            },
        }
    }

    /// Remember the session on screen for the next launch. Says whether there is
    /// anything new to save.
    pub fn remember_session(&mut self, id: &str) -> (changed: bool)
        requires
            old(self).wf(),
        ensures
            final(self)@ == (ClientView {
                settings: old(self)@.settings.remembering(id@),
                ..old(self)@
            }),
            changed == (old(self)@.settings.last_session != old(self)@.settings.remembering(
                id@,
            ).last_session),
            final(self).wf(),
    {
        self.settings.remember_session(id)
    }

    /// Show a session: bring its conversation on screen, with the connection not
    /// attached to it yet. `fresh` is the conversation of a session that was never seen.
    pub fn show_session(&mut self, id: &str, fresh: C)
        requires
            old(self).wf(),
        ensures
            exists|shown: OpenView<C>|
                {
                    &&& #[trigger] old(self)@.open.switched(Some(id@), fresh, shown)
                    &&& final(self)@ == (ClientView { open: shown, ..old(self)@ }).with_ids(
                        None,
                        Some(id@),
                    )
                },
            final(self).wf(),
    {
        self.open.switch_to(Some(id), fresh);
        let ghost shown = self.open@;
        self.open.live_id = None;
        self.open.stored_id = Some(id.to_owned());
        assert(old(self)@.open.switched(Some(id@), fresh, shown));
    }

    /// The session `id` has been attached to, or has not.
    pub fn session_opened(&mut self, id: &str, resumed: Result<SessionIds, String>)
        requires
            old(self).wf(),
        ensures
            final(self)@ == (match resumed {
                Ok(ids) => old(self)@.with_ids(
                    Some(ids@.live_id),
                    if ids@.stored_id is Some {
                        ids@.stored_id
                    } else {
                        Some(id@)
                    },
                ).told(session_view(ids@.live_id)),
                Err(error) => old(self)@.told_error(
                    "could not resume the session: "@ + error@,
                ),
            }),
            final(self).wf(),
    {
        match resumed {
            Ok(ids) => {
                let SessionIds { live_id, stored_id } = ids;
                let event: Value = session_event(live_id.as_str());
                self.open.live_id = Some(live_id);
                self.open.stored_id = match stored_id {
                    Some(stored) => Some(stored),
                    None => Some(id.to_owned()),
                };
                self.push(event);
            },
            Err(error) => {
                let message: String = join("could not resume the session: ", error.as_str());
                self.push_error(message.as_str());
            },
        }
    }

    /// Start a chat that has no session on the backend yet, and stop coming back to the
    /// one that was open. Says whether there is anything new to save.
    pub fn new_session(&mut self, fresh: C) -> (changed: bool)
        requires
            old(self).wf(),
        ensures
            exists|left: OpenView<C>|
                {
                    &&& #[trigger] old(self)@.open.switched(None, fresh, left)
                    &&& final(self)@ == (ClientView {
                        open: left,
                        settings: SettingsView { last_session: None, ..old(self)@.settings },
                        ..old(self)@
                    }).with_ids(None, None)
                },
            changed == (old(self)@.settings.last_session is Some),
            final(self).wf(),
    {
        self.open.switch_to(None, fresh);
        let ghost left = self.open@;
        self.open.live_id = None;
        self.open.stored_id = None;
        assert(old(self)@.open.switched(None, fresh, left));
        self.settings.forget_session()
    }

    // -- turns --------------------------------------------------------------------

    /// Where the next prompt goes.
    pub fn send_target(&self) -> (target: SendTarget)
        ensures
            target@ == target_of(self@.open.live_id, self@.open.stored_id),
    {
        send_target(
            crate::words::borrow_text(&self.open.live_id),
            crate::words::borrow_text(&self.open.stored_id),
        )
    }

    /// The session that a prompt waits for has been attached to, or has not. The session
    /// to send the prompt to is returned; where there is none the turn is over.
    pub fn resumed_to_send(&mut self, stored: &str, resumed: Result<SessionIds, String>) -> (live:
        Option<String>)
        requires
            old(self).wf(),
        ensures
            match resumed {
                Ok(ids) => maybe_text(live) == Some(ids@.live_id) && final(self)@ == old(
                    self,
                )@.with_ids(
                    Some(ids@.live_id),
                    if ids@.stored_id is Some {
                        ids@.stored_id
                    } else {
                        Some(stored@)
                    },
                ),
                Err(error) => live is None && final(self)@ == old(self)@.told_error(
                    "could not resume the session: "@ + error@,
                ),
            },
            final(self).wf(),
    {
        match resumed {
            Ok(ids) => {
                let SessionIds { live_id, stored_id } = ids;
                self.open.live_id = Some(live_id.clone());
                self.open.stored_id = match stored_id {
                    Some(stored) => Some(stored),
                    None => Some(stored.to_owned()),
                };
                Some(live_id)
            },
            Err(error) => {
                let message: String = join("could not resume the session: ", error.as_str());
                self.push_error(message.as_str());
                None
            },
        }
    }

    /// A session has been created for a prompt, or has not. The session to send the
    /// prompt to is returned; where there is none the turn is over.
    pub fn created_to_send(&mut self, created: Result<SessionIds, String>) -> (live: Option<String>)
        requires
            old(self).wf(),
        ensures
            match created {
                Ok(ids) => maybe_text(live) == Some(ids@.live_id) && final(self)@ == old(
                    self,
                )@.with_ids(
                    Some(ids@.live_id),
                    if ids@.stored_id is Some {
                        ids@.stored_id
                    } else {
                        old(self)@.open.stored_id
                    },
                ),
                Err(error) => live is None && final(self)@ == old(self)@.told_error(
                    "could not start a session: "@ + error@,
                ),
            },
            final(self).wf(),
    {
        match created {
            Ok(ids) => {
                let SessionIds { live_id, stored_id } = ids;
                self.open.live_id = Some(live_id.clone());
                if stored_id.is_some() {
                    self.open.stored_id = stored_id;
                }
                Some(live_id)
            },
            Err(error) => {
                let message: String = join("could not start a session: ", error.as_str());
                self.push_error(message.as_str());
                None
            },
        }
    }

    /// A prompt, an interruption or an answer did not reach the backend.
    pub fn request_failed(&mut self, request: Request, error: &str)
        requires
            old(self).wf(),
        ensures
            final(self)@ == old(self)@.told_error(request.failure() + error@),
            final(self).wf(),
    {
        let message: String = match request {
            Request::Prompt => join("could not send the prompt: ", error),
            Request::Interrupt => join("could not interrupt: ", error),
            Request::Answer => join("could not answer: ", error),
        };
        self.push_error(message.as_str());
    }

    // -- what the backend reports -----------------------------------------------------

    /// Take in one event of the backend. `sending` says whether a turn is running.
    pub fn apply(&mut self, event: &AgentEvent, sending: bool) -> (applied: Applied)
        requires
            old(self).wf(),
        ensures
            (final(self)@, applied) == old(self)@.applied(*event, sending),
            final(self).wf(),
    {
        match event {
            AgentEvent::Connected => {
                self.push(connection_event("connected"));
                Applied::Done
            },
            AgentEvent::SessionInfo(id) => {
                self.open.live_id = Some(id.clone());
                self.push(session_event(id.as_str()));
                Applied::Done
            },
            AgentEvent::SessionsChanged => {
                self.push(sessions_changed_event());
                Applied::Done
            },
            AgentEvent::Clarify { question, choices, request_id } => {
                self.push(clarify_event(request_id.as_str(), question.as_str(), choices));
                Applied::Done
            },
            AgentEvent::Disconnected => {
                self.push(connection_event("disconnected"));
                Applied::Done
            },
            AgentEvent::Failed(message) => if sending {
                Applied::FinishTurn
            } else {
                self.push_error(message.as_str());
                Applied::Done
            },
            AgentEvent::Turn => if self.open.accepts_turn_events() {
                Applied::Fold
            } else {
                Applied::Dropped
            },
        }
    }

    /// A transport failure ended the running turn: show the transcript as it is now,
    /// then say what went wrong.
    pub fn turn_failed(&mut self, messages: &Vec<ChatMessage>, message: &str)
        requires
            old(self).wf(),
        ensures
            final(self)@ == old(self)@.told(transcript_view(messages@)).told_error(message@),
            final(self).wf(),
    {
        self.push_transcript(messages);
        self.push_error(message);
    }

    /// An event has been folded into the conversation. Text that merely streamed further
    /// is sent as a delta, anything else as the whole transcript.
    pub fn folded(&mut self, change: &ConversationChange, messages: &Vec<ChatMessage>)
        requires
            old(self).wf(),
        ensures
            final(self)@ == (match *change {
                ConversationChange::Unchanged => old(self)@,
                ConversationChange::Streaming { id, text } => old(self)@.told(
                    delta_view(id@, text@),
                ),
                ConversationChange::Structure => old(self)@.told(transcript_view(messages@)),
            }),
            final(self).wf(),
    {
        match change {
            ConversationChange::Unchanged => {},
            ConversationChange::Streaming { id, text } => {
                self.push(delta_event(id.as_str(), text.as_str()));
            },
            ConversationChange::Structure => {
                self.push_transcript(messages);
            },
        }
    }
}

impl<C> ClientView<C> {
    /// What one event of the backend comes to.
    pub open spec fn applied(self, event: AgentEvent, sending: bool) -> (ClientView<C>, Applied) {
        match event {
            AgentEvent::Connected => (self.told(connection_view("connected"@)), Applied::Done),
            AgentEvent::SessionInfo(id) => (
                self.with_ids(Some(id@), self.open.stored_id).told(session_view(id@)),
                Applied::Done,
            ),
            AgentEvent::SessionsChanged => (self.told(sessions_changed_view()), Applied::Done),
            AgentEvent::Clarify { question, choices, request_id } => (
                self.told(
                    clarify_view(
                        request_id@,
                        question@,
                        choices@.map_values(|choice: String| choice@),
                    ),
                ),
                Applied::Done,
            ),
            AgentEvent::Disconnected => (
                self.told(connection_view("disconnected"@)),
                Applied::Done,
            ),
            AgentEvent::Failed(message) => if sending {
                (self, Applied::FinishTurn)
            } else {
                (self.told_error(message@), Applied::Done)
            },
            AgentEvent::Turn => if self.open.accepts_turn_events() {
                (self, Applied::Fold)
            } else {
                (self, Applied::Dropped)
            },
        }
    }
}

/// What is asked of a backend in a turn.
#[derive(Clone, Copy, Debug, PartialEq, Eq, Structural)]
pub enum Request {
    Prompt,
    Interrupt,
    Answer,
}

impl Request {
    /// How the report of a failure begins.
    pub open spec fn failure(self) -> Seq<char> {
        match self {
            Request::Prompt => "could not send the prompt: "@,
            Request::Interrupt => "could not interrupt: "@,
            Request::Answer => "could not answer: "@,
        }
    }
}

// -- staying connected ---------------------------------------------------------------

/// One loop that keeps a client connected.
pub struct Pump {
    /// The attempt that the loop was started for.
    pub generation: u64,
    /// How many attempts have failed in a row.
    pub attempt: usize,
    /// The session that was open at the last launch.
    pub saved: Option<String>,
}

/// What a pump does next.
pub enum PumpStep {
    /// End: the loop is no longer wanted, or another one has taken over.
    Stop,
    /// Probe the backend and open its event stream, from a clean slate.
    Attempt,
    /// Put the subscription of the session on screen back.
    Resume(String),
    /// Open the session that was on screen at the last launch.
    Open(String),
    /// Drain the event stream until it ends.
    Drain,
    /// Stop the turn in the conversation and show the transcript, then wait.
    FinishTurn,
    /// Decide how long to wait.
    Retry,
    /// Wait this many seconds, then begin again.
    Sleep(u64),
}

pub enum StepView {
    Stop,
    Attempt,
    Resume(Seq<char>),
    Open(Seq<char>),
    Drain,
    FinishTurn,
    Retry,
    Sleep(u64),
}

impl View for PumpStep {
    type V = StepView;

    open spec fn view(&self) -> StepView {
        match self {
            PumpStep::Stop => StepView::Stop,
            PumpStep::Attempt => StepView::Attempt,
            PumpStep::Resume(id) => StepView::Resume(id@),
            PumpStep::Open(id) => StepView::Open(id@),
            PumpStep::Drain => StepView::Drain,
            PumpStep::FinishTurn => StepView::FinishTurn,
            PumpStep::Retry => StepView::Retry,
            PumpStep::Sleep(seconds) => StepView::Sleep(*seconds),
        }
    }
}

impl Pump {
    /// A pump for attempt `generation`.
    pub fn new<C>(client: &Client<C>, generation: u64) -> (pump: Pump)
        ensures
            pump.generation == generation,
            pump.attempt == 0,
            maybe_text(pump.saved) == client@.settings.saved_session(),
    {
        Pump { generation, attempt: 0, saved: client.settings.saved_session() }
    }

    /// Begin an attempt, and say so: a client that is retrying looks frozen otherwise.
    pub fn begin<C>(&self, client: &mut Client<C>) -> (step: PumpStep)
        requires
            old(client).wf(),
        ensures
            if old(client)@.goes_on(self.generation) {
                step@ == StepView::Attempt && final(client)@ == old(client)@.told(
                    connection_view("connecting"@),
                )
            } else {
                step@ == StepView::Stop && final(client)@ == old(client)@
            },
            final(client).wf(),
    {
        if !client.wanted || client.generation != self.generation {
            return PumpStep::Stop;
        }
        client.push(connection_event("connecting"));
        PumpStep::Attempt
    }

    /// An attempt has ended. Where it succeeded, the session on screen is subscribed to
    /// again, or the one of the last launch is brought back.
    pub fn attempted<C>(&mut self, client: &mut Client<C>, opened: Result<(), String>) -> (step:
        PumpStep)
        requires
            old(client).wf(),
        ensures
            match opened {
                Ok(_) => final(client)@ == (ClientView { live: true, ..old(client)@ })
                    && final(self).attempt == 0 && step@ == (match old(client)@.open.stored_id {
                    Some(id) => StepView::Resume(id),
                    None => match maybe_text(old(self).saved) {
                        Some(id) => StepView::Open(id),
                        None => StepView::Drain,
                    },
                }),
                Err(error) => final(self).attempt == old(self).attempt && if old(
                    client,
                )@.generation != old(self).generation {
                    step@ == StepView::Stop && final(client)@ == old(client)@
                } else {
                    step@ == StepView::Retry && final(client)@ == old(client)@.told_error(
                        "could not reach the backend: "@ + error@,
                    )
                },
            },
            final(self).generation == old(self).generation,
            final(self).saved == old(self).saved,
            final(client).wf(),
    {
        match opened {
            Ok(_) => {
                client.live = true;
                self.attempt = 0;
                match &client.open.stored_id {
                    Some(id) => PumpStep::Resume(id.clone()),
                    None => match &self.saved {
                        Some(id) => PumpStep::Open(id.clone()),
                        None => PumpStep::Drain,
                    },
                }
            },
            Err(error) => {
                if client.generation != self.generation {
                    return PumpStep::Stop;
                }
                let message: String = join("could not reach the backend: ", error.as_str());
                client.push_error(message.as_str());
                PumpStep::Retry
            },
        }
    }

    /// The subscription of the session on screen is back, or is not.
    pub fn resubscribed<C>(&self, client: &mut Client<C>, resumed: Result<SessionIds, String>) -> (step:
        PumpStep)
        requires
            old(client).wf(),
        ensures
            step@ == StepView::Drain,
            final(client)@ == (match resumed {
                Ok(ids) => old(client)@.with_ids(
                    Some(ids@.live_id),
                    old(client)@.open.stored_id,
                ).told(session_view(ids@.live_id)),
                Err(error) => old(client)@.told_error(
                    "could not resume the session: "@ + error@,
                ),
            }),
            final(client).wf(),
    {
        match resumed {
            Ok(ids) => {
                let event: Value = session_event(ids.live_id.as_str());
                client.open.live_id = Some(ids.live_id);
                client.push(event);
            },
            Err(error) => {
                let message: String = join("could not resume the session: ", error.as_str());
                client.push_error(message.as_str());
            },
        }
        PumpStep::Drain
    }

    /// The event stream has ended. That is only worth reporting where this is still the
    /// connection that the client is on.
    pub fn stream_ended<C>(&self, client: &mut Client<C>, sending: bool) -> (step: PumpStep)
        requires
            old(client).wf(),
        ensures
            if old(client)@.generation != self.generation {
                step@ == StepView::Stop && final(client)@ == old(client)@
            } else {
                step@ == (if sending {
                    StepView::FinishTurn
                } else {
                    StepView::Retry
                }) && final(client)@ == (ClientView { live: false, ..old(client)@ }).told(
                    connection_view("disconnected"@),
                )
            },
            final(client).wf(),
    {
        if client.generation != self.generation {
            return PumpStep::Stop;
        }
        client.live = false;
        client.push(connection_event("disconnected"));
        if sending {
            PumpStep::FinishTurn
        } else {
            PumpStep::Retry
        }
    }

    /// Wait before the next attempt, longer after every failure.
    pub fn retry<C>(&mut self, client: &Client<C>) -> (step: PumpStep)
        ensures
            if client@.goes_on(old(self).generation) {
                step@ == StepView::Sleep(retry_seconds_of(old(self).attempt as int))
                    && final(self).attempt == if old(self).attempt == usize::MAX {
                    usize::MAX as int
                } else {
                    old(self).attempt + 1
                }
            } else {
                step@ == StepView::Stop && final(self).attempt == old(self).attempt
            },
            final(self).generation == old(self).generation,
            final(self).saved == old(self).saved,
    {
        if !client.wanted || client.generation != self.generation {
            return PumpStep::Stop;
        }
        let seconds: u64 = retry_seconds(self.attempt);
        if self.attempt < usize::MAX {
            self.attempt += 1;
        }
        PumpStep::Sleep(seconds)
    }
}

// -- laws ------------------------------------------------------------------------------

/// A prompt never goes to a new session while a session is on screen, and goes to the
/// one on screen.
pub proof fn a_prompt_goes_to_the_session_on_screen<C>(client: ClientView<C>)
    ensures
        target_of(client.open.live_id, client.open.stored_id) == TargetView::Create
            <==> client.open.key() is None,
        client.open.live_id is None && client.open.stored_id is Some ==> target_of(
            client.open.live_id,
            client.open.stored_id,
        ) == TargetView::Resume(client.open.stored_id->0),
        client.open.live_id is Some ==> target_of(client.open.live_id, client.open.stored_id)
            == TargetView::Live(client.open.live_id->0),
{
}

/// A connection that the user closed stays closed: no loop that was running goes on, and
/// the next launch does not connect.
pub proof fn a_closed_connection_stays_closed<C>(client: ClientView<C>, generation: u64)
    ensures
        !client.closed().goes_on(generation),
        !client.closed().settings.enabled.contains(client.closed().settings.backend_kind),
{
}

/// A loop that was replaced by a newer attempt does not go on.
pub proof fn a_newer_attempt_replaces_the_older<C>(client: ClientView<C>)
    ensures
        !client.connecting().goes_on(client.generation),
        client.connecting().goes_on(client.connecting().generation),
{
}

/// A turn in flight keeps its connection, forced or not.
pub proof fn a_running_turn_keeps_its_connection<C>(client: ClientView<C>, force: bool)
    requires
        client.live,
    ensures
        client.keeps_connection(force, true),
{
}

/// No event is handed over twice: a second call with nothing queued in between hands over
/// nothing, and one after a further event hands over that event alone.
pub proof fn an_event_is_polled_once<C>(client: ClientView<C>, event: JsonView)
    ensures
        client.polled().events.len() == 0,
        client.polled().polled() == client.polled(),
        client.polled().told(event).events == seq![event],
{
    assert(client.polled().told(event).events =~= seq![event]);
}

} // verus!
