//! Connecting, opening a session and starting a chat.

use crate::effects::{add_effect, add_effects, effects_view, nothing, only, Effect, EffectView};
use crate::models::{
    attachments_view, sessions_view, AgentSession, AttachmentView, BackendConfig, BackendKind,
    ComposerAttachment, Conversation, ConversationView, SessionIds, SessionIdsView, SessionView,
    Stamp,
};
use crate::prompts::{submitted, submitted_prompt};
use crate::sessions::{cache_key, find_session, key_of, session_key, session_under, CacheView};
use crate::settings::SettingsView;
use crate::state::{
    maybe_session, refresh_needs_reconnect, session_view_is_current, AppState, AppView,
    ConnectionState, HeldPrompt, LinkView, Step,
};
use crate::words::{borrow_text, copy_text, maybe_str, maybe_text, same_maybe, trim, trimmed};
use vstd::prelude::*;

verus! {

impl AppView {
    /// Ask for the connection, unless that is already under way.
    #[verifier::opaque]
    pub open spec fn connect(self) -> Step {
        if self.connection is Connecting || self.gateway_connecting {
            self.done()
        } else {
            (AppView { connection: LinkView::Connecting, transport_ready: false, ..self }).doing(
                EffectView::Probe {
                    credential: if self.settings.takes_password {
                        trimmed(self.settings.session_token)
                    } else {
                        seq![]
                    },
                    discover: self.lacks_token(),
                },
            )
        }
    }

    /// Open the event stream, unless it is open or being opened.
    #[verifier::opaque]
    pub open spec fn connect_gateway(self) -> Step {
        if self.transport_ready || self.gateway_connecting {
            self.done()
        } else if self.lacks_token() {
            (AppView { connection: LinkView::Failed("Missing Hermes session token"@), ..self }).done()
        } else {
            (AppView { gateway_connecting: true, ..self }).doing(
                EffectView::OpenStream(self.config()),
            )
        }
    }

    /// Re-read the session list. A user's refresh of a dead transport connects instead.
    #[verifier::opaque]
    pub open spec fn refresh_sessions(self, show_progress: bool) -> Step {
        if show_progress && !self.transport_ready {
            self.connect()
        } else {
            (AppView {
                is_refreshing: if show_progress {
                    true
                } else {
                    self.is_refreshing
                },
                refresh_inflight: true,
                ..self
            }).doing(
                EffectView::ListSessions {
                    config: self.config(),
                    show_progress,
                    expects_history: self.caps.session_history,
                },
            )
        }
    }

    /// Re-read the session list without the user asking, one reading at a time.
    #[verifier::opaque]
    pub open spec fn refresh_quietly(self) -> Step {
        if self.refresh_inflight {
            self.done()
        } else {
            self.refresh_sessions(false)
        }
    }

    /// A session on screen that the connection is not attached to yet: there is no live
    /// session.
    pub open spec fn opened(self, session: SessionView) -> AppView {
        AppView {
            selected: Some(session),
            clarify: None,
            live: None,
            stored: Some(session.id),
            cache: CacheView {
                selected_session_id: Some(
                    key_of(self.settings.backend_kind.id_of(), session.id),
                ),
                ..self.cache
            },
            ..self.advanced()
        }
    }

    /// Bring a session on screen and attach the connection to it.
    #[verifier::opaque]
    pub open spec fn resume_session(self, session: SessionView) -> Step {
        let opened = self.opened(session);
        opened.doing(
            EffectView::ShowCached(key_of(self.settings.backend_kind.id_of(), session.id)),
        ).and(
            EffectView::LoadMessages {
                config: opened.config(),
                session_id: session.id,
                backend: self.settings.backend_kind,
                generation: opened.generation,
            },
        ).followed_by(opened.connect_gateway()).and(
            EffectView::Resume {
                config: opened.config(),
                session_id: session.id,
                generation: opened.generation,
            },
        )
    }

    /// Nothing on screen.
    pub open spec fn blanked(self) -> AppView {
        AppView {
            selected: None,
            conversation: ConversationView::fresh(),
            clarify: None,
            live: None,
            stored: None,
            ..self.advanced()
        }
    }

    /// Start a chat: nothing on screen, and a session asked for.
    #[verifier::opaque]
    pub open spec fn start_fresh_chat(self) -> Step {
        let blank = self.blanked();
        blank.doing(EffectView::Reset).followed_by(blank.connect_gateway()).and(
            EffectView::Create {
                config: blank.config(),
                profile: self.settings.profile,
                backend: self.settings.backend_kind,
                generation: blank.generation,
            },
        )
    }

    /// Send a prompt to a session that is live.
    #[verifier::opaque]
    pub open spec fn perform_send(
        self,
        text: Seq<char>,
        attachments: Seq<AttachmentView>,
        session_id: Seq<char>,
    ) -> Step {
        self.doing(EffectView::BeginTurn(text)).and(EffectView::ScheduleSave).and(
            EffectView::Submit { session_id, prompt: submitted(text, attachments) },
        )
    }

    /// The application starts. Only a backend whose own switch is on connects.
    pub open spec fn bootstrap(self) -> Step {
        let read = self.doing(EffectView::ReadModelConfig).and(EffectView::ReadPermissionMode);
        if self.settings.enabled.contains(self.settings.backend_kind) {
            read.followed_by(self.connect())
        } else {
            read
        }
    }

    /// The held prompt is sent to a session that is live.
    pub open spec fn sent_held(self, session_id: Seq<char>) -> Step {
        (AppView { held: None, ..self }).perform_send(
            self.held->0.text,
            self.held->0.attachments,
            session_id,
        )
    }

    /// The connection has failed.
    pub open spec fn failed(self, error: Seq<char>) -> AppView {
        AppView { connection: LinkView::Failed(error), last_error: Some(error), ..self }
    }

    /// A credential that the backend gave out is kept.
    pub open spec fn with_token(self, token: Option<Seq<char>>) -> Step {
        match token {
            Some(token) => (AppView {
                settings: SettingsView { session_token: token, ..self.settings },
                ..self
            }).doing(EffectView::SaveSettings),
            None => self.done(),
        }
    }

    /// The connection is attached to the session on screen.
    pub open spec fn attached(self, ids: SessionIdsView) -> AppView {
        AppView {
            live: Some(ids.live_id),
            stored: Some(
                match ids.stored_id {
                    Some(stored) => stored,
                    None => ids.live_id,
                },
            ),
            transport_ready: true,
            ..self
        }
    }

    /// The backend answered a probe, or did not.
    pub open spec fn probed(self, outcome: Result<Option<Seq<char>>, Seq<char>>) -> Step {
        match outcome {
            Err(error) => self.failed(error).done(),
            Ok(token) => {
                let known = self.with_token(token);
                let stream = known.followed_by(known.state.connect_gateway());
                let listing = stream.followed_by(stream.state.refresh_sessions(false));
                listing.followed_by(
                    match listing.state.selected {
                        Some(session) => listing.state.resume_session(session),
                        None => listing.state.start_fresh_chat(),
                    },
                )
            },
        }
    }

    /// The event stream is open, or is not.
    pub open spec fn stream_opened(self, outcome: Result<(), Seq<char>>) -> AppView {
        match outcome {
            Ok(_) => AppView { gateway_connecting: false, ..self },
            Err(error) => AppView {
                gateway_connecting: false,
                transport_ready: false,
                connection: LinkView::Failed(error),
                last_error: Some(error),
                ..self
            },
        }
    }

    /// The state with an empty composer.
    pub open spec fn composer_cleared(self) -> AppView {
        AppView { composer_text: seq![], composer_attachments: seq![], ..self }
    }

    /// Whether a prompt is held for session `session`.
    pub open spec fn holds_for(self, session: Option<Seq<char>>) -> bool {
        self.held is Some && self.held->0.session == session
    }

    /// Whether a prompt is held for a session, under any of the names it goes by: the one it
    /// was resumed under, and those the backend gave for it.
    pub open spec fn holds_for_resumed(self, session_id: Seq<char>, ids: SessionIdsView) -> bool {
        ||| self.holds_for(Some(session_id))
        ||| self.holds_for(Some(ids.live_id))
        ||| ids.stored_id is Some && self.holds_for(ids.stored_id)
    }

    /// The state with the held prompt back in the composer.
    pub open spec fn held_back(self) -> AppView {
        AppView {
            composer_text: self.held->0.text,
            composer_attachments: self.held->0.attachments,
            held: None,
            ..self
        }
    }

    /// The session on screen has been attached to, or has not. A prompt held for it goes
    /// now, or goes back to the composer.
    pub open spec fn session_resumed(
        self,
        generation: u64,
        session_id: Seq<char>,
        outcome: Result<SessionIdsView, Seq<char>>,
    ) -> Step {
        if !self.is_current(generation, Some(session_id)) {
            self.done()
        } else {
            match outcome {
                Ok(ids) => {
                    let attached = self.attached(ids);
                    if attached.holds_for_resumed(session_id, ids) {
                        attached.doing(EffectView::SaveCache).followed_by(
                            attached.sent_held(ids.live_id),
                        )
                    } else {
                        attached.doing(EffectView::SaveCache)
                    }
                },
                Err(error) => if self.holds_for(Some(session_id)) {
                    self.with_error(error).held_back().done()
                } else {
                    self.with_error(error).done()
                },
            }
        }
    }

    /// The row that a new chat gets in the list.
    pub open spec fn local_session(
        self,
        ids: SessionIdsView,
        profile: Option<Seq<char>>,
        backend: BackendKind,
        now: Stamp,
    ) -> SessionView {
        SessionView {
            id: match ids.stored_id {
                Some(stored) => stored,
                None => ids.live_id,
            },
            title: Some("New Chat"@),
            cwd: None,
            model: None,
            provider: None,
            started_at: Some(now),
            last_active: Some(now),
            message_count: Some(0),
            is_active: Some(true),
            archived: Some(false),
            profile,
            backend_id: Some(backend.id_of()),
            used_tokens: None,
            context_tokens: None,
        }
    }

    /// The list with a row in it.
    pub open spec fn listing(self, row: SessionView) -> Seq<SessionView> {
        if session_under(self.sessions, row.id) is Some {
            self.sessions
        } else {
            self.sessions.insert(0, row)
        }
    }

    /// The state with a new chat in the list and on screen.
    pub open spec fn with_new_chat(
        self,
        ids: SessionIdsView,
        profile: Option<Seq<char>>,
        backend: BackendKind,
        now: Stamp,
    ) -> AppView {
        let row = self.local_session(ids, profile, backend, now);
        let sessions = self.listing(row);
        let synced = self.cache.synced(sessions, backend.id_of(), now);
        (AppView {
            live: Some(ids.live_id),
            stored: ids.stored_id,
            transport_ready: true,
            selected: Some(row),
            sessions,
            cache: CacheView {
                selected_session_id: Some(
                    key_of(self.settings.backend_kind.id_of(), row.id),
                ),
                ..synced
            },
            ..self
        }).summarized()
    }

    /// A chat has been created, or has not. A prompt held for a new chat goes now, or
    /// goes back to the composer; one held for another conversation stays held.
    pub open spec fn chat_created(
        self,
        generation: u64,
        profile: Option<Seq<char>>,
        backend: BackendKind,
        outcome: Result<SessionIdsView, Seq<char>>,
        now: Stamp,
    ) -> Step {
        if !self.is_current(generation, None) {
            self.done()
        } else {
            match outcome {
                Ok(ids) => {
                    let created = self.with_new_chat(ids, profile, backend, now);
                    let listing = created.doing(EffectView::SaveCache).followed_by(
                        created.refresh_quietly(),
                    );
                    if listing.state.holds_for(None) {
                        listing.followed_by(
                            listing.state.composer_cleared().sent_held(ids.live_id),
                        )
                    } else {
                        listing
                    }
                },
                Err(error) => {
                    let failed = AppView { transport_ready: false, ..self.failed(error) };
                    if failed.holds_for(None) {
                        failed.held_back().done()
                    } else {
                        failed.done()
                    }
                },
            }
        }
    }
}

impl AppView {
    proof fn lemma_gateway_keeps(self)
        ensures
            self.connect_gateway().state.settings == self.settings,
            self.connect_gateway().state.generation == self.generation,
    {
        reveal(AppView::connect_gateway);
    }
}

/// What an answer of a backend says.
pub open spec fn ids_outcome(outcome: Result<SessionIds, String>) -> Result<
    SessionIdsView,
    Seq<char>,
> {
    match outcome {
        Ok(ids) => Ok(ids@),
        Err(error) => Err(error@),
    }
}

/// What a probe says.
pub open spec fn probe_outcome(outcome: Result<Option<String>, String>) -> Result<
    Option<Seq<char>>,
    Seq<char>,
> {
    match outcome {
        Ok(token) => Ok(maybe_text(token)),
        Err(error) => Err(error@),
    }
}

/// What an answer without a value says.
pub open spec fn plain_outcome(outcome: Result<(), String>) -> Result<(), Seq<char>> {
    match outcome {
        Ok(_) => Ok(()),
        Err(error) => Err(error@),
    }
}

impl AppState {
    /// Ask for the connection, unless that is already under way.
    pub fn connect(&mut self) -> (effects: Vec<Effect>)
        requires
            old(self).wf(),
        ensures
            final(self)@ == old(self)@.connect().state,
            effects_view(effects@) == old(self)@.connect().effects,
            final(self).wf(),
    {
        proof {
            reveal(AppView::connect);
        }
        let connecting: bool = match self.connection_state {
            ConnectionState::Connecting => true,
            _ => false,
        };
        if connecting || self.gateway_connecting {
            return nothing();
        }
        let discover: bool = self.lacks_token();
        self.connection_state = ConnectionState::Connecting;
        self.transport_ready = false;
        let credential: String = if self.settings.takes_password {
            trim(self.settings.session_token.as_str())
        } else {
            String::new()
        };
        only(Effect::Probe { credential, discover })
    }

    /// Open the event stream, unless it is open or being opened.
    pub fn connect_gateway(&mut self) -> (effects: Vec<Effect>)
        requires
            old(self).wf(),
        ensures
            final(self)@ == old(self)@.connect_gateway().state,
            effects_view(effects@) == old(self)@.connect_gateway().effects,
            final(self).wf(),
    {
        proof {
            reveal(AppView::connect_gateway);
        }
        if self.transport_ready || self.gateway_connecting {
            return nothing();
        }
        if self.lacks_token() {
            self.connection_state = ConnectionState::Failed(
                "Missing Hermes session token".to_owned(),
            );
            return nothing();
        }
        self.gateway_connecting = true;
        only(Effect::OpenStream(self.backend_config()))
    }

    /// Re-read the session list on the user's behalf, or quietly.
    pub fn refresh_sessions(&mut self, show_progress: bool) -> (effects: Vec<Effect>)
        requires
            old(self).wf(),
        ensures
            final(self)@ == old(self)@.refresh_sessions(show_progress).state,
            effects_view(effects@) == old(self)@.refresh_sessions(show_progress).effects,
            final(self).wf(),
    {
        proof {
            reveal(AppView::refresh_sessions);
        }
        if refresh_needs_reconnect(show_progress, self.transport_ready) {
            return self.connect();
        }
        if show_progress {
            self.is_refreshing_sessions = true;
        }
        self.sessions_refresh_inflight = true;
        let config: BackendConfig = self.backend_config();
        only(
            Effect::ListSessions {
                config,
                show_progress,
                expects_history: self.backend_caps.session_history,
            },
        )
    }

    /// Re-read the session list without the user asking, one reading at a time.
    pub fn refresh_sessions_quietly(&mut self) -> (effects: Vec<Effect>)
        requires
            old(self).wf(),
        ensures
            final(self)@ == old(self)@.refresh_quietly().state,
            effects_view(effects@) == old(self)@.refresh_quietly().effects,
            final(self).wf(),
    {
        proof {
            reveal(AppView::refresh_quietly);
        }
        if self.sessions_refresh_inflight {
            return nothing();
        }
        self.refresh_sessions(false)
    }

    /// Bring a session on screen and attach the connection to it.
    pub fn resume_session(&mut self, session: AgentSession) -> (effects: Vec<Effect>)
        requires
            old(self).wf(),
        ensures
            final(self)@ == old(self)@.resume_session(session@).state,
            effects_view(effects@) == old(self)@.resume_session(session@).effects,
            final(self).wf(),
    {
        let key: String = cache_key(&session, self.settings.backend_kind.id());
        let id: String = session.id.clone();
        let generation: u64 = self.open_session(session);
        proof {
            reveal(AppView::resume_session);
            self@.lemma_gateway_keeps();
        }
        let mut effects: Vec<Effect> = only(Effect::ShowCached(key));
        add_effect(
            &mut effects,
            Effect::LoadMessages {
                config: self.backend_config(),
                session_id: id.clone(),
                backend: self.settings.backend_kind,
                generation,
            },
        );
        let stream: Vec<Effect> = self.connect_gateway();
        add_effects(&mut effects, stream);
        add_effect(
            &mut effects,
            Effect::Resume { config: self.backend_config(), session_id: id, generation },
        );
        effects
    }

    /// Put a session on screen, with the connection not attached to it yet.
    fn open_session(&mut self, session: AgentSession) -> (generation: u64)
        requires
            old(self).wf(),
        ensures
            final(self)@ == old(self)@.opened(session@),
            generation == final(self)@.generation,
            final(self).wf(),
    {
        let generation: u64 = self.advance_session_view();
        let key: String = cache_key(&session, self.settings.backend_kind.id());
        self.pending_clarify = None;
        self.live_session_id = None;
        self.stored_session_id = Some(session.id.clone());
        self.cached_state.select(key);
        self.selected_session = Some(session);
        generation
    }

    /// Take everything off the screen.
    fn blank_screen(&mut self) -> (generation: u64)
        requires
            old(self).wf(),
        ensures
            final(self)@ == old(self)@.blanked(),
            generation == final(self)@.generation,
            final(self).wf(),
    {
        let generation: u64 = self.advance_session_view();
        self.selected_session = None;
        self.conversation = Conversation::new();
        self.pending_clarify = None;
        self.live_session_id = None;
        self.stored_session_id = None;
        generation
    }

    /// Start a chat.
    pub fn start_fresh_chat(&mut self) -> (effects: Vec<Effect>)
        requires
            old(self).wf(),
        ensures
            final(self)@ == old(self)@.start_fresh_chat().state,
            effects_view(effects@) == old(self)@.start_fresh_chat().effects,
            final(self).wf(),
    {
        let generation: u64 = self.blank_screen();
        proof {
            reveal(AppView::start_fresh_chat);
            self@.lemma_gateway_keeps();
        }
        let mut effects: Vec<Effect> = only(Effect::Reset);
        let stream: Vec<Effect> = self.connect_gateway();
        add_effects(&mut effects, stream);
        add_effect(
            &mut effects,
            Effect::Create {
                config: self.backend_config(),
                profile: copy_text(&self.settings.profile),
                backend: self.settings.backend_kind,
                generation,
            },
        );
        effects
    }

    /// Send a prompt to a session that is live.
    pub fn perform_send(
        &self,
        text: String,
        attachments: &Vec<ComposerAttachment>,
        session_id: String,
    ) -> (effects: Vec<Effect>)
        ensures
            self@ == self@.perform_send(
                text@,
                attachments_view(attachments@),
                session_id@,
            ).state,
            effects_view(effects@) == self@.perform_send(
                text@,
                attachments_view(attachments@),
                session_id@,
            ).effects,
    {
        proof {
            reveal(AppView::perform_send);
        }
        let prompt: String = submitted_prompt(text.as_str(), attachments);
        let mut effects: Vec<Effect> = only(Effect::BeginTurn(text));
        add_effect(&mut effects, Effect::ScheduleSave);
        add_effect(&mut effects, Effect::Submit { session_id, prompt });
        effects
    }

    /// The application starts. Only a backend whose own switch is on connects.
    pub fn bootstrap(&mut self) -> (effects: Vec<Effect>)
        requires
            old(self).wf(),
        ensures
            final(self)@ == old(self)@.bootstrap().state,
            effects_view(effects@) == old(self)@.bootstrap().effects,
            final(self).wf(),
    {
        let mut effects: Vec<Effect> = only(Effect::ReadModelConfig);
        add_effect(&mut effects, Effect::ReadPermissionMode);
        if self.settings.is_backend_enabled(self.settings.backend_kind) {
            let more: Vec<Effect> = self.connect();
            add_effects(&mut effects, more);
        }
        effects
    }

    /// The connection has failed.
    pub(crate) fn fail_connection(&mut self, error: String)
        requires
            old(self).wf(),
        ensures
            final(self)@ == old(self)@.failed(error@),
            final(self).wf(),
    {
        self.connection_state = ConnectionState::Failed(error.clone());
        self.last_error = Some(error);
    }

    /// Report an error.
    pub(crate) fn report(&mut self, error: String)
        requires
            old(self).wf(),
        ensures
            final(self)@ == old(self)@.with_error(error@),
            final(self).wf(),
    {
        self.last_error = Some(error);
    }

    /// Take over a credential that the backend gave out.
    fn adopt_token(&mut self, token: Option<String>) -> (effects: Vec<Effect>)
        requires
            old(self).wf(),
        ensures
            final(self)@ == old(self)@.with_token(maybe_text(token)).state,
            effects_view(effects@) == old(self)@.with_token(maybe_text(token)).effects,
            final(self).wf(),
    {
        match token {
            Some(token) => {
                self.settings.session_token = token;
                only(Effect::SaveSettings)
            },
            None => nothing(),
        }
    }

    /// The backend answered a probe, perhaps with a credential it was asked for, or did
    /// not.
    pub fn probed(&mut self, outcome: Result<Option<String>, String>) -> (effects: Vec<Effect>)
        requires
            old(self).wf(),
        ensures
            final(self)@ == old(self)@.probed(probe_outcome(outcome)).state,
            effects_view(effects@) == old(self)@.probed(probe_outcome(outcome)).effects,
            final(self).wf(),
    {
        match outcome {
            Err(error) => {
                self.fail_connection(error);
                nothing()
            },
            Ok(token) => {
                let mut effects: Vec<Effect> = self.adopt_token(token);
                let stream: Vec<Effect> = self.connect_gateway();
                add_effects(&mut effects, stream);
                let listing: Vec<Effect> = self.refresh_sessions(false);
                add_effects(&mut effects, listing);
                let selected: Option<AgentSession> = self.copy_selected();
                let last: Vec<Effect> = match selected {
                    Some(session) => self.resume_session(session),
                    None => self.start_fresh_chat(),
                };
                add_effects(&mut effects, last);
                effects
            },
        }
    }

    /// A copy of the session on screen.
    pub(crate) fn copy_selected(&self) -> (selected: Option<AgentSession>)
        ensures
            maybe_session(selected) == self@.selected,
    {
        match &self.selected_session {
            Some(session) => Some(session.clone()),
            None => None,
        }
    }

    /// The event stream is open, or is not.
    pub fn stream_opened(&mut self, outcome: Result<(), String>)
        requires
            old(self).wf(),
        ensures
            final(self)@ == old(self)@.stream_opened(plain_outcome(outcome)),
            final(self).wf(),
    {
        self.gateway_connecting = false;
        if let Err(error) = outcome {
            self.transport_ready = false;
            self.connection_state = ConnectionState::Failed(error.clone());
            self.last_error = Some(error);
        }
    }

    /// Whether a prompt is held for session `session`.
    fn holds_for(&self, session: Option<&str>) -> (holds: bool)
        ensures
            holds == self@.holds_for(maybe_str(session)),
    {
        match &self.pending_after_start {
            Some(held) => same_maybe(borrow_text(&held.session), session),
            None => false,
        }
    }

    /// Whether a prompt is held for a session, under any of the names it goes by.
    fn holds_for_resumed(&self, session_id: &str, ids: &SessionIds) -> (holds: bool)
        ensures
            holds == self@.holds_for_resumed(session_id@, ids@),
    {
        self.holds_for(Some(session_id)) || self.holds_for(Some(ids.live_id.as_str())) || (
        ids.stored_id.is_some() && self.holds_for(borrow_text(&ids.stored_id)))
    }

    /// Put the held prompt back into the composer.
    fn give_held_back(&mut self)
        requires
            old(self).wf(),
            old(self)@.held is Some,
        ensures
            final(self)@ == old(self)@.held_back(),
            final(self).wf(),
    {
        if let Some(held) = self.pending_after_start.take() {
            let HeldPrompt { session: _, text, attachments } = held;
            self.composer_text = text;
            self.composer_attachments = attachments;
        }
    }

    /// Send the held prompt to a session that is live.
    fn send_held(&mut self, session_id: String) -> (effects: Vec<Effect>)
        requires
            old(self).wf(),
            old(self)@.held is Some,
        ensures
            final(self)@ == old(self)@.sent_held(session_id@).state,
            effects_view(effects@) == old(self)@.sent_held(session_id@).effects,
            final(self).wf(),
    {
        match self.pending_after_start.take() {
            Some(held) => {
                let HeldPrompt { session: _, text, attachments } = held;
                self.perform_send(text, &attachments, session_id)
            },
            None => nothing(),
        }
    }

    /// Attach the connection to the session on screen.
    fn attach(&mut self, ids: SessionIds)
        requires
            old(self).wf(),
        ensures
            final(self)@ == old(self)@.attached(ids@),
            final(self).wf(),
    {
        let SessionIds { live_id, stored_id } = ids;
        self.stored_session_id = match stored_id {
            Some(stored) => Some(stored),
            None => Some(live_id.clone()),
        };
        self.live_session_id = Some(live_id);
        self.transport_ready = true;
    }

    /// Empty the composer.
    pub(crate) fn clear_composer(&mut self)
        requires
            old(self).wf(),
        ensures
            final(self)@ == old(self)@.composer_cleared(),
            final(self).wf(),
    {
        self.composer_text = String::new();
        self.composer_attachments = Vec::new();
        assert(self@.composer_attachments =~= seq![]);
    }

    /// The session on screen has been attached to, or has not.
    pub fn session_resumed(
        &mut self,
        generation: u64,
        session_id: &str,
        outcome: Result<SessionIds, String>,
    ) -> (effects: Vec<Effect>)
        requires
            old(self).wf(),
        ensures
            final(self)@ == old(self)@.session_resumed(
                generation,
                session_id@,
                ids_outcome(outcome),
            ).state,
            effects_view(effects@) == old(self)@.session_resumed(
                generation,
                session_id@,
                ids_outcome(outcome),
            ).effects,
            final(self).wf(),
    {
        if !session_view_is_current(
            generation,
            self.session_view_generation,
            self.selected_id(),
            Some(session_id),
        ) {
            return nothing();
        }
        match outcome {
            Ok(ids) => {
                let live_id: String = ids.live_id.clone();
                let held_here: bool = self.holds_for_resumed(session_id, &ids);
                self.attach(ids);
                let mut effects: Vec<Effect> = only(Effect::SaveCache);
                if held_here {
                    let more: Vec<Effect> = self.send_held(live_id);
                    add_effects(&mut effects, more);
                }
                effects
            },
            Err(error) => {
                self.report(error);
                if self.holds_for(Some(session_id)) {
                    self.give_held_back();
                }
                nothing()
            },
        }
    }

    /// List a new chat, unless it is listed already.
    fn list_chat(&mut self, row: AgentSession)
        requires
            old(self).wf(),
        ensures
            final(self)@ == (AppView {
                selected: Some(row@),
                sessions: old(self)@.listing(row@),
                ..old(self)@
            }),
            final(self).wf(),
    {
        if find_session(&self.sessions, row.id.as_str()).is_none() {
            let ghost listed = self.sessions@;
            let copy: AgentSession = row.clone();
            self.sessions.insert(0, copy);
            assert(sessions_view(self.sessions@) =~= sessions_view(listed).insert(0, row@));
        }
        self.selected_session = Some(row);
    }

    /// Put a new chat into the list and on screen.
    fn adopt_new_chat(
        &mut self,
        ids: &SessionIds,
        profile: Option<String>,
        backend: BackendKind,
        now: Stamp,
    )
        requires
            old(self).wf(),
        ensures
            final(self)@ == old(self)@.with_new_chat(ids@, maybe_text(profile), backend, now),
            final(self).wf(),
    {
        let local_id: String = match &ids.stored_id {
            Some(stored) => stored.clone(),
            None => ids.live_id.clone(),
        };
        let key: String = session_key(self.settings.backend_kind.id(), local_id.as_str());
        let row = AgentSession {
            id: local_id,
            title: Some("New Chat".to_owned()),
            cwd: None,
            model: None,
            provider: None,
            started_at: Some(now),
            last_active: Some(now),
            message_count: Some(0),
            is_active: Some(true),
            archived: Some(false),
            profile,
            backend_id: Some(backend.id().to_owned()),
            used_tokens: None,
            context_tokens: None,
        };
        self.list_chat(row);
        self.live_session_id = Some(ids.live_id.clone());
        self.stored_session_id = copy_text(&ids.stored_id);
        self.transport_ready = true;
        self.cached_state.sync_sessions(&self.sessions, backend.id(), now);
        self.cached_state.select(key);
        self.update_cache_summary();
    }

    /// A chat has been created, or has not.
    pub fn chat_created(
        &mut self,
        generation: u64,
        profile: Option<String>,
        backend: BackendKind,
        outcome: Result<SessionIds, String>,
        now: Stamp,
    ) -> (effects: Vec<Effect>)
        requires
            old(self).wf(),
        ensures
            final(self)@ == old(self)@.chat_created(
                generation,
                maybe_text(profile),
                backend,
                ids_outcome(outcome),
                now,
            ).state,
            effects_view(effects@) == old(self)@.chat_created(
                generation,
                maybe_text(profile),
                backend,
                ids_outcome(outcome),
                now,
            ).effects,
            final(self).wf(),
    {
        if !session_view_is_current(
            generation,
            self.session_view_generation,
            self.selected_id(),
            None,
        ) {
            return nothing();
        }
        match outcome {
            Ok(ids) => {
                self.adopt_new_chat(&ids, profile, backend, now);
                let mut effects: Vec<Effect> = only(Effect::SaveCache);
                let listing: Vec<Effect> = self.refresh_sessions_quietly();
                add_effects(&mut effects, listing);
                if self.holds_for(None) {
                    self.clear_composer();
                    let more: Vec<Effect> = self.send_held(ids.live_id);
                    add_effects(&mut effects, more);
                }
                effects
            },
            Err(error) => {
                self.fail_connection(error);
                self.transport_ready = false;
                if self.holds_for(None) {
                    self.give_held_back();
                }
                nothing()
            },
        }
    }
}

} // verus!
