//! The single source of truth for sessions, messages, streaming and sending.
//!
//! Every operation says what becomes of the state and what is to be done about it, in
//! order. Answers come back as operations of their own; an answer that belongs to a
//! conversation no longer on screen changes nothing.

use crate::effects::{EffectView, PermissionMode, QueuedPrompt, QueuedView};
use crate::menu::{menu_view, models_view, ModelOption, ModelView};
use crate::models::{
    attachments_view, sessions_view, AgentSession, AttachmentView, BackendConfig, BackendKind,
    ComposerAttachment, ConfigView, ContextUsage, Conversation, ConversationView, SessionView,
};
use crate::prompts::{
    counted_bytes, estimated_context_tokens, reported_context_usage, reported_usage,
    FIXED_PROMPT_TOKENS,
};
use crate::sessions::{CacheView, CachedState};
use crate::settings::{Settings, SettingsView};
use crate::words::{copy_text, maybe_str, maybe_text, same_maybe, trim, trimmed};
use vstd::prelude::*;

verus! {

/// How the connection stands.
pub enum ConnectionState {
    Disconnected,
    Connecting,
    Connected,
    Degraded(String),
    Failed(String),
}

pub enum LinkView {
    Disconnected,
    Connecting,
    Connected,
    Degraded(Seq<char>),
    Failed(Seq<char>),
}

impl View for ConnectionState {
    type V = LinkView;

    open spec fn view(&self) -> LinkView {
        match self {
            ConnectionState::Disconnected => LinkView::Disconnected,
            ConnectionState::Connecting => LinkView::Connecting,
            ConnectionState::Connected => LinkView::Connected,
            ConnectionState::Degraded(reason) => LinkView::Degraded(reason@),
            ConnectionState::Failed(reason) => LinkView::Failed(reason@),
        }
    }
}

/// What a backend can do.
#[derive(Clone, Copy, Debug, PartialEq, Eq, Structural)]
pub struct BackendCaps {
    pub session_history: bool,
    pub permission_modes: bool,
    pub model_selection: bool,
}

/// A question that the agent is waiting on.
pub struct PendingClarify {
    pub session_id: Option<String>,
    pub question: String,
    pub choices: Vec<String>,
    pub request_id: String,
}

pub struct ClarifyView {
    pub session_id: Option<Seq<char>>,
    pub question: Seq<char>,
    pub choices: Seq<Seq<char>>,
    pub request_id: Seq<char>,
}

impl View for PendingClarify {
    type V = ClarifyView;

    open spec fn view(&self) -> ClarifyView {
        ClarifyView {
            session_id: maybe_text(self.session_id),
            question: self.question@,
            choices: self.choices@.map_values(|choice: String| choice@),
            request_id: self.request_id@,
        }
    }
}

/// A prompt typed before there was a live session to send it to.
///
/// `session` is the session it has to go to. `Some` means that the user was looking at an
/// existing conversation, which has to be resumed; `None` means a new chat, the only case
/// that needs a session created.
pub struct HeldPrompt {
    pub session: Option<String>,
    pub text: String,
    pub attachments: Vec<ComposerAttachment>,
}

pub struct HeldView {
    pub session: Option<Seq<char>>,
    pub text: Seq<char>,
    pub attachments: Seq<AttachmentView>,
}

impl View for HeldPrompt {
    type V = HeldView;

    open spec fn view(&self) -> HeldView {
        HeldView {
            session: maybe_text(self.session),
            text: self.text@,
            attachments: attachments_view(self.attachments@),
        }
    }
}

/// What is stored for the active backend, split by where it lives.
#[derive(Clone, Copy, Debug, PartialEq, Eq, Structural)]
pub struct StoredCredential {
    /// Characters of gateway token or server password held in settings.
    pub saved_characters: usize,
    /// Characters of the paired-device token held for this gateway.
    pub device_token_characters: usize,
}

impl StoredCredential {
    pub fn is_stored(self) -> (stored: bool)
        ensures
            stored == (self.saved_characters > 0 || self.device_token_characters > 0),
    {
        self.saved_characters > 0 || self.device_token_characters > 0
    }
}

/// The application's state.
pub struct AppState {
    pub settings: Settings,
    pub connection_state: ConnectionState,
    pub sessions: Vec<AgentSession>,
    pub selected_session: Option<AgentSession>,
    /// The conversation on screen, as the fold left it.
    pub conversation: Conversation,
    pub composer_text: String,
    pub composer_attachments: Vec<ComposerAttachment>,
    pub is_refreshing_sessions: bool,
    pub transport_ready: bool,
    pub gateway_connecting: bool,
    pub pending_queue: Vec<QueuedPrompt>,
    pub pending_clarify: Option<PendingClarify>,
    pub last_error: Option<String>,
    pub cache_summary: String,
    pub available_models: Vec<ModelOption>,
    pub model_provider_groups: Vec<(String, Vec<ModelOption>)>,
    pub current_model_provider: String,
    pub current_model_name: String,
    pub is_switching_model: bool,
    pub context_window_tokens: i64,
    pub permission_mode: PermissionMode,
    pub is_changing_permission_mode: bool,
    pub pending_after_start: Option<HeldPrompt>,
    pub sessions_refresh_inflight: bool,
    /// A repaint for streamed text is scheduled.
    pub repaint_scheduled: bool,
    pub backend_caps: BackendCaps,
    pub cached_state: CachedState,
    /// Identifies the most recent operation that changed which conversation is on
    /// screen. Results captured under an older value must not change the new one.
    pub session_view_generation: u64,
    pub live_session_id: Option<String>,
    pub stored_session_id: Option<String>,
}

pub struct AppView {
    pub settings: SettingsView,
    pub connection: LinkView,
    pub sessions: Seq<SessionView>,
    pub selected: Option<SessionView>,
    pub conversation: ConversationView,
    pub composer_text: Seq<char>,
    pub composer_attachments: Seq<AttachmentView>,
    pub is_refreshing: bool,
    pub transport_ready: bool,
    pub gateway_connecting: bool,
    pub queue: Seq<QueuedView>,
    pub clarify: Option<ClarifyView>,
    pub last_error: Option<Seq<char>>,
    pub cache_summary: Seq<char>,
    pub models: Seq<ModelView>,
    pub model_groups: Seq<(Seq<char>, Seq<ModelView>)>,
    pub model_provider: Seq<char>,
    pub model_name: Seq<char>,
    pub is_switching_model: bool,
    pub context_window: i64,
    pub permission_mode: PermissionMode,
    pub is_changing_permission: bool,
    pub held: Option<HeldView>,
    pub refresh_inflight: bool,
    pub repaint_scheduled: bool,
    pub caps: BackendCaps,
    pub cache: CacheView,
    pub generation: u64,
    pub live: Option<Seq<char>>,
    pub stored: Option<Seq<char>>,
}

/// What a session on screen holds.
pub open spec fn maybe_session(session: Option<AgentSession>) -> Option<SessionView> {
    match session {
        Some(session) => Some(session@),
        None => None,
    }
}

/// What queued prompts hold, in order.
pub open spec fn queue_view(queue: Seq<QueuedPrompt>) -> Seq<QueuedView> {
    queue.map_values(|queued: QueuedPrompt| queued@)
}

impl View for AppState {
    type V = AppView;

    open spec fn view(&self) -> AppView {
        AppView {
            settings: self.settings@,
            connection: self.connection_state@,
            sessions: sessions_view(self.sessions@),
            selected: maybe_session(self.selected_session),
            conversation: self.conversation@,
            composer_text: self.composer_text@,
            composer_attachments: attachments_view(self.composer_attachments@),
            is_refreshing: self.is_refreshing_sessions,
            transport_ready: self.transport_ready,
            gateway_connecting: self.gateway_connecting,
            queue: queue_view(self.pending_queue@),
            clarify: match self.pending_clarify {
                Some(clarify) => Some(clarify@),
                None => None,
            },
            last_error: maybe_text(self.last_error),
            cache_summary: self.cache_summary@,
            models: models_view(self.available_models@),
            model_groups: menu_view(self.model_provider_groups@),
            model_provider: self.current_model_provider@,
            model_name: self.current_model_name@,
            is_switching_model: self.is_switching_model,
            context_window: self.context_window_tokens,
            permission_mode: self.permission_mode,
            is_changing_permission: self.is_changing_permission_mode,
            held: match self.pending_after_start {
                Some(held) => Some(held@),
                None => None,
            },
            refresh_inflight: self.sessions_refresh_inflight,
            repaint_scheduled: self.repaint_scheduled,
            caps: self.backend_caps,
            cache: self.cached_state@,
            generation: self.session_view_generation,
            live: maybe_text(self.live_session_id),
            stored: maybe_text(self.stored_session_id),
        }
    }
}

/// What an operation leads to: the state after it, and what is to be done, in order.
pub struct Step {
    pub state: AppView,
    pub effects: Seq<EffectView>,
}

impl Step {
    /// The same, and one more thing to do.
    pub open spec fn and(self, effect: EffectView) -> Step {
        Step { state: self.state, effects: self.effects.push(effect) }
    }

    /// One operation after another.
    pub open spec fn followed_by(self, next: Step) -> Step {
        Step { state: next.state, effects: self.effects + next.effects }
    }
}

// -- rules -------------------------------------------------------------------------------

/// Whether the result of an operation still concerns what is on screen.
pub fn session_view_is_current(
    operation_generation: u64,
    current_generation: u64,
    selected_session: Option<&str>,
    expected_session: Option<&str>,
) -> (current: bool)
    ensures
        current == (operation_generation == current_generation && maybe_str(selected_session)
            == maybe_str(expected_session)),
{
    operation_generation == current_generation && same_maybe(selected_session, expected_session)
}

/// Whether an event that belongs to a turn may be folded into the messages on screen.
///
/// * A live session: yes, the events are its own.
/// * No session at all: a chat that has not been created yet has nothing to mismatch.
/// * A session being opened: the stored id is known but the subscription is not
///   confirmed, which is when the previous session's traffic arrives.
pub fn accepts_turn_events(live: Option<&str>, stored: Option<&str>) -> (accepts: bool)
    ensures
        accepts == (live is Some || stored is None),
{
    live.is_some() || stored.is_none()
}

/// A user's refresh restores a dead transport; a quiet one only updates the list.
pub fn refresh_needs_reconnect(show_progress: bool, transport_ready: bool) -> (reconnect: bool)
    ensures
        reconnect == (show_progress && !transport_ready),
{
    show_progress && !transport_ready
}

// -- derived values ------------------------------------------------------------------------

impl AppView {
    pub open spec fn done(self) -> Step {
        Step { state: self, effects: seq![] }
    }

    pub open spec fn doing(self, effect: EffectView) -> Step {
        Step { state: self, effects: seq![effect] }
    }

    /// What the backend is reached with.
    pub open spec fn config(self) -> ConfigView {
        ConfigView {
            base_url: self.settings.base_url,
            credential: trimmed(self.settings.session_token),
            profile: self.settings.profile,
            workspace: self.settings.workspace,
        }
    }

    pub open spec fn can_send(self) -> bool {
        self.connection is Connected && (trimmed(self.composer_text).len() > 0
            || self.composer_attachments.len() > 0)
    }

    /// Whether the token that Hermes cannot do without is missing.
    pub open spec fn lacks_token(self) -> bool {
        self.settings.backend_kind == BackendKind::Hermes && trimmed(
            self.settings.session_token,
        ).len() == 0
    }

    /// Whether the result of an operation still concerns what is on screen.
    pub open spec fn is_current(self, generation: u64, expected: Option<Seq<char>>) -> bool {
        &&& generation == self.generation
        &&& expected == (match self.selected {
            Some(session) => Some(session.id),
            None => None,
        })
    }

    pub open spec fn accepts_turn_events(self) -> bool {
        self.live is Some || self.stored is None
    }

    /// The state after another conversation has come on screen: results that belong to
    /// the one before it no longer count.
    pub open spec fn advanced(self) -> AppView {
        AppView {
            generation: if self.generation == u64::MAX {
                0
            } else {
                (self.generation + 1) as u64
            },
            ..self
        }
    }

    /// The state with the summary of the cache brought up to date.
    pub open spec fn summarized(self) -> AppView {
        AppView { cache_summary: self.cache.summary(), ..self }
    }

    /// The state with a failure to report.
    pub open spec fn with_error(self, error: Seq<char>) -> AppView {
        AppView { last_error: Some(error), ..self }
    }
}

impl AppState {
    /// The cache's collections are in order, and the summary says what is in it.
    pub open spec fn wf(&self) -> bool {
        &&& self.cached_state.wf()
        &&& self.cache_summary@ == self.cached_state@.summary()
    }

    /// Whether there is anything to send and a connection to send it on.
    pub fn can_send(&self) -> (can: bool)
        ensures
            can == self@.can_send(),
    {
        let connected: bool = match self.connection_state {
            ConnectionState::Connected => true,
            _ => false,
        };
        connected && (!trim(self.composer_text.as_str()).as_str().is_empty()
            || self.composer_attachments.len() > 0)
    }

    pub fn is_sending(&self) -> (sending: bool)
        ensures
            sending == self@.conversation.sending,
    {
        self.conversation.sending
    }

    pub fn backend_display_name(&self) -> (name: &'static str)
        ensures
            name@ == self@.settings.backend_kind.name_of(),
    {
        self.settings.backend_kind.name()
    }

    pub fn backend_id(&self) -> (id: &'static str)
        ensures
            id@ == self@.settings.backend_kind.id_of(),
    {
        self.settings.backend_kind.id()
    }

    /// How full the context of the session on screen is: what the backend reported, or
    /// an estimate that is marked as one.
    pub fn context_usage(&self) -> (usage: ContextUsage)
        requires
            counted_bytes(
                self@.conversation.messages,
                self@.composer_text,
                self@.composer_attachments,
            ) <= usize::MAX,
        ensures
            match reported_usage(self@.selected, self@.sessions) {
                Some(reported) => usage == reported,
                None => !usage.measured && usage.max_tokens == self@.context_window
                    && usage.used_tokens == FIXED_PROMPT_TOKENS + counted_bytes(
                    self@.conversation.messages,
                    self@.composer_text,
                    self@.composer_attachments,
                ) / 4,
            },
    {
        match reported_context_usage(self.selected_session.as_ref(), &self.sessions) {
            Some(reported) => reported,
            None => {
                let tokens: i64 = estimated_context_tokens(
                    &self.conversation.messages,
                    self.composer_text.as_str(),
                    &self.composer_attachments,
                );
                ContextUsage::estimated(tokens, self.context_window_tokens)
            },
        }
    }

    /// The credential that backs the active backend, given how many characters the
    /// settings and the paired device hold. Only OpenClaw is reached with a paired
    /// device.
    pub fn stored_credential(&self, saved_characters: usize, device_token_characters: usize) -> (stored:
        StoredCredential)
        ensures
            stored.saved_characters == saved_characters,
            stored.device_token_characters == if self@.settings.backend_kind
                == BackendKind::OpenClaw {
                device_token_characters
            } else {
                0
            },
    {
        StoredCredential {
            saved_characters,
            device_token_characters: if self.settings.backend_kind == BackendKind::OpenClaw {
                device_token_characters
            } else {
                0
            },
        }
    }

    /// What the backend is reached with.
    pub fn backend_config(&self) -> (config: BackendConfig)
        ensures
            config@ == self@.config(),
    {
        BackendConfig {
            base_url: self.settings.base_url.clone(),
            credential: trim(self.settings.session_token.as_str()),
            profile: copy_text(&self.settings.profile),
            workspace: copy_text(&self.settings.workspace),
        }
    }

    /// Whether the token that Hermes cannot do without is missing.
    pub(crate) fn lacks_token(&self) -> (lacks: bool)
        ensures
            lacks == self@.lacks_token(),
    {
        self.settings.backend_kind == BackendKind::Hermes && trim(
            self.settings.session_token.as_str(),
        ).as_str().is_empty()
    }

    /// The id of the session on screen.
    pub(crate) fn selected_id(&self) -> (id: Option<&str>)
        ensures
            maybe_str(id) == (match self@.selected {
                Some(session) => Some(session.id),
                None => None,
            }),
    {
        match &self.selected_session {
            Some(session) => Some(session.id.as_str()),
            None => None,
        }
    }

    pub(crate) fn update_cache_summary(&mut self)
        requires
            old(self).cached_state.wf(),
        ensures
            final(self)@ == old(self)@.summarized(),
            final(self).wf(),
    {
        self.cache_summary = self.cached_state.summary();
    }

    /// Invalidate every result that belongs to the conversation on screen, and return
    /// the token for the next one.
    pub(crate) fn advance_session_view(&mut self) -> (generation: u64)
        ensures
            final(self)@ == old(self)@.advanced(),
            generation == final(self)@.generation,
            final(self).cached_state == old(self).cached_state,
            final(self).cache_summary == old(self).cache_summary,
    {
        self.session_view_generation = if self.session_view_generation == u64::MAX {
            0
        } else {
            self.session_view_generation + 1
        };
        self.session_view_generation
    }
}

} // verus!
