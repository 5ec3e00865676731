//! Managing sessions, backends, models and permissions.

use crate::connecting::plain_outcome;
use crate::effects::{
    add_effect, add_effects, effects_view, nothing, only, Effect, EffectView, PermissionMode,
};
use crate::menu::{menu_of, models_view, provider_groups, ModelOption, ModelView};
use crate::models::{
    sessions_view, AgentSession, BackendKind, Conversation, ConversationView, SessionView, Stamp,
};
use crate::sessions::{
    cache_key, find_session, key_of, remove_session, session_key, session_under, without_session,
    CacheView, CachedState,
};
use crate::settings::{Settings, SettingsView};
use crate::state::{maybe_session, AppState, AppView, BackendCaps, ConnectionState, LinkView, Step};
use crate::words::{join, join3, maybe_str, same_maybe, same_text};
use vstd::prelude::*;

verus! {

/// The first of `sessions` whose key is `key`.
pub open spec fn session_with_key(
    sessions: Seq<SessionView>,
    backend_id: Seq<char>,
    key: Seq<char>,
) -> Option<SessionView>
    decreases sessions.len(),
{
    if sessions.len() == 0 {
        None
    } else if key_of(backend_id, sessions[0].id) == key {
        Some(sessions[0])
    } else {
        session_with_key(sessions.drop_first(), backend_id, key)
    }
}

impl AppView {
    /// The state that the application starts with.
    pub open spec fn initial(
        settings: SettingsView,
        caps: BackendCaps,
        cache: CacheView,
        context_window: i64,
        permission_mode: PermissionMode,
    ) -> AppView {
        let backend_id = settings.backend_kind.id_of();
        let sessions = cache.visible(cache.sessions, backend_id);
        AppView {
            settings,
            connection: LinkView::Disconnected,
            sessions,
            selected: match cache.selected_session_id {
                Some(key) => session_with_key(sessions, backend_id, key),
                None => None,
            },
            conversation: ConversationView::fresh(),
            composer_text: seq![],
            composer_attachments: seq![],
            is_refreshing: false,
            transport_ready: false,
            gateway_connecting: false,
            queue: seq![],
            clarify: None,
            last_error: None,
            cache_summary: cache.summary(),
            models: seq![],
            model_groups: seq![],
            model_provider: seq![],
            model_name: seq![],
            is_switching_model: false,
            context_window,
            permission_mode,
            is_changing_permission: false,
            held: None,
            refresh_inflight: false,
            repaint_scheduled: false,
            caps,
            cache,
            generation: 0,
            live: None,
            stored: None,
        }
    }

    /// What there is to do when the application starts: show what was on screen, and
    /// read the backend's own configuration.
    pub open spec fn initial_effects(self) -> Seq<EffectView> {
        let read = seq![EffectView::ReadModelConfig, EffectView::ReadPermissionMode];
        match self.selected {
            Some(session) => seq![
                EffectView::ShowCached(
                    key_of(self.settings.backend_kind.id_of(), session.id),
                ),
            ] + read,
            None => Seq::<EffectView>::empty() + read,
        }
    }

    // -- sessions ---------------------------------------------------------------------

    /// Nothing on screen, and no connection to a session.
    pub open spec fn emptied(self) -> AppView {
        AppView {
            selected: None,
            conversation: ConversationView::fresh(),
            live: None,
            stored: None,
            transport_ready: false,
            ..self
        }
    }

    /// A session is taken off the list. Where it is the one on screen the screen is emptied,
    /// and what is in flight for it no longer counts.
    #[verifier::opaque]
    pub open spec fn remove_visible_session(
        self,
        id: Seq<char>,
        delete_messages: bool,
        now: Stamp,
    ) -> Step {
        let key = key_of(self.settings.backend_kind.id_of(), id);
        let synced = AppView {
            sessions: without_session(self.sessions, id),
            cache: self.cache.synced(
                without_session(self.sessions, id),
                self.settings.backend_kind.id_of(),
                now,
            ),
            ..self
        };
        let dropped = if delete_messages {
            (AppView {
                cache: CacheView { transcripts: synced.cache.transcripts.remove(key), ..synced.cache },
                ..synced
            }).doing(EffectView::DropTranscript(key))
        } else {
            synced.done()
        };
        let left = if self.selected is Some && self.selected->0.id == id {
            dropped.followed_by(dropped.state.advanced().emptied().doing(EffectView::Reset))
        } else {
            dropped
        };
        left.followed_by(left.state.saving())
    }

    /// A session is archived, or deleted with its messages.
    pub open spec fn hide_session(self, session: SessionView, deleted: bool, now: Stamp) -> Step {
        let key = key_of(self.settings.backend_kind.id_of(), session.id);
        (AppView { cache: self.cache.hiding(key, deleted), ..self }).remove_visible_session(
            session.id,
            deleted,
            now,
        )
    }

    /// The cache with every one of `sessions` kept out of the list.
    pub open spec fn hiding_all(self, sessions: Seq<SessionView>, deleted: bool) -> CacheView
        decreases sessions.len(),
    {
        if sessions.len() == 0 {
            self.cache
        } else {
            self.hiding_all(sessions.drop_last(), deleted).hiding(
                key_of(self.settings.backend_kind.id_of(), sessions.last().id),
                deleted,
            )
        }
    }

    /// The transcripts of `sessions` are dropped.
    pub open spec fn dropping_all(self, sessions: Seq<SessionView>) -> Step
        decreases sessions.len(),
    {
        if sessions.len() == 0 {
            self.done()
        } else {
            let earlier = self.dropping_all(sessions.drop_last());
            let key = key_of(self.settings.backend_kind.id_of(), sessions.last().id);
            Step {
                state: AppView {
                    cache: CacheView {
                        transcripts: earlier.state.cache.transcripts.remove(key),
                        ..earlier.state.cache
                    },
                    ..earlier.state
                },
                effects: earlier.effects.push(EffectView::DropTranscript(key)),
            }
        }
    }

    /// The list is empty, and so is the backend's part of the cache.
    pub open spec fn unlisted(self, now: Stamp) -> AppView {
        AppView {
            sessions: seq![],
            cache: self.cache.synced(seq![], self.settings.backend_kind.id_of(), now),
            ..self
        }
    }

    /// Whether the session on screen is one of `sessions`.
    pub open spec fn shows_one_of(self, sessions: Seq<SessionView>) -> bool {
        self.selected is Some && session_under(sessions, self.selected->0.id) is Some
    }

    /// The screen is emptied where it shows one of `sessions`, and what is in flight for
    /// it no longer counts.
    pub open spec fn leaving(self, sessions: Seq<SessionView>) -> Step {
        if self.shows_one_of(sessions) {
            self.advanced().emptied().doing(EffectView::Reset)
        } else {
            self.done()
        }
    }

    /// The cache is summed up and saved.
    pub open spec fn saving(self) -> Step {
        self.summarized().doing(EffectView::SaveCache)
    }

    /// Every listed session is archived, or deleted with its messages.
    pub open spec fn hide_all(self, deleted: bool, now: Stamp) -> Step {
        if self.sessions.len() == 0 {
            self.done()
        } else {
            let hidden = AppView { cache: self.hiding_all(self.sessions, deleted), ..self };
            let dropped = if deleted {
                hidden.unlisted(now).dropping_all(self.sessions)
            } else {
                hidden.unlisted(now).done()
            };
            let left = dropped.followed_by(dropped.state.leaving(self.sessions));
            left.followed_by(left.state.saving())
        }
    }

    /// Everything that was cached is forgotten.
    pub open spec fn clear_cache(self) -> Step {
        (AppView {
            cache: CacheView::empty(),
            sessions: seq![],
            selected: None,
            conversation: ConversationView::fresh(),
            ..self.advanced()
        }).summarized().doing(EffectView::ClearCache).and(EffectView::Reset)
    }

    // -- backends ---------------------------------------------------------------------

    /// Another backend is the active one, with nothing on screen and its own sessions in
    /// the list.
    pub open spec fn with_backend(
        self,
        kind: BackendKind,
        settings: SettingsView,
        caps: BackendCaps,
    ) -> AppView {
        AppView {
            settings: settings.with_backend(kind, true),
            caps,
            transport_ready: false,
            gateway_connecting: false,
            connection: LinkView::Disconnected,
            selected: None,
            sessions: self.cache.visible(self.cache.sessions, kind.id_of()),
            conversation: ConversationView::fresh(),
            live: None,
            stored: None,
            clarify: None,
            last_error: None,
            ..self.advanced()
        }
    }

    /// The active backend is switched. `settings` are those of the new one.
    pub open spec fn switch_backend(
        self,
        kind: BackendKind,
        settings: SettingsView,
        caps: BackendCaps,
    ) -> Step {
        let switched = self.with_backend(kind, settings, caps);
        switched.doing(EffectView::Disconnect).and(EffectView::SaveSettings).and(
            EffectView::Build(kind),
        ).and(EffectView::Reset).followed_by(switched.connect())
    }

    /// The connection is closed.
    pub open spec fn disconnect(self) -> Step {
        (AppView {
            transport_ready: false,
            gateway_connecting: false,
            connection: LinkView::Disconnected,
            ..self.advanced()
        }).doing(EffectView::CancelSave).and(EffectView::Disconnect)
    }

    /// A backend's switch is turned off.
    pub open spec fn disable_backend(self, kind: BackendKind) -> Step {
        let off = AppView { settings: self.settings.with_backend(kind, false), ..self };
        let saved = off.doing(EffectView::SaveSettings);
        if off.settings.backend_kind == kind {
            saved.followed_by(off.disconnect())
        } else {
            saved
        }
    }

    /// The credential of the active backend is forgotten, and the device that was paired
    /// with it.
    pub open spec fn clear_credential(self) -> Step {
        let forgot = AppView {
            settings: SettingsView { session_token: seq![], ..self.settings },
            ..self
        };
        let device = if self.settings.backend_kind == BackendKind::OpenClaw {
            forgot.doing(EffectView::ForgetDevice(self.settings.base_url))
        } else {
            forgot.done()
        };
        device.and(EffectView::SaveSettings)
    }

    // -- models and permissions -----------------------------------------------------------

    /// The backend's models, with the menu made of them.
    pub open spec fn with_models(
        self,
        provider: Seq<char>,
        model: Seq<char>,
        models: Seq<ModelView>,
        context_window: i64,
    ) -> AppView {
        AppView {
            model_provider: provider,
            model_name: model,
            models,
            context_window,
            model_groups: menu_of(models, provider, model),
            ..self
        }
    }

    /// Another model is asked for, one at a time.
    pub open spec fn select_model(self, option: ModelView) -> Step {
        if self.is_switching_model {
            self.done()
        } else {
            (AppView { is_switching_model: true, ..self }).doing(EffectView::SelectModel(option))
        }
    }

    /// The model has been changed, or has not.
    pub open spec fn model_selected(
        self,
        option: ModelView,
        outcome: Result<(), Seq<char>>,
    ) -> Step {
        match outcome {
            Ok(_) => (AppView {
                model_provider: option.provider,
                model_name: option.model,
                is_switching_model: false,
                ..self
            }).doing(EffectView::ReadModelConfig),
            Err(error) => (AppView {
                is_switching_model: false,
                ..self.with_error("Could not switch Hermes model: "@ + error)
            }).done(),
        }
    }

    /// Another permission mode is asked for, one at a time.
    pub open spec fn ask_permission_mode(self, mode: PermissionMode) -> Step {
        if self.is_changing_permission {
            self.done()
        } else {
            (AppView { is_changing_permission: true, ..self }).doing(
                EffectView::SetPermissionMode(mode),
            )
        }
    }

    /// The permission mode has been changed, or has not.
    pub open spec fn permission_mode_set(
        self,
        mode: PermissionMode,
        outcome: Result<(), Seq<char>>,
    ) -> Step {
        match outcome {
            Ok(_) => (AppView {
                permission_mode: mode,
                is_changing_permission: false,
                ..self
            }).done(),
            Err(error) => (AppView {
                is_changing_permission: false,
                ..self.with_error("Could not change Hermes permissions: "@ + error)
            }).doing(EffectView::ReadPermissionMode),
        }
    }
}

/// What becomes of a managed server when the workspace is set.
pub enum WorkspaceMove {
    /// Nothing.
    Stay,
    /// Say why nothing moved.
    Explain(String),
    /// Start the server again in the new directory.
    Restart,
}

pub enum MoveView {
    Stay,
    Explain(Seq<char>),
    Restart,
}

impl View for WorkspaceMove {
    type V = MoveView;

    open spec fn view(&self) -> MoveView {
        match self {
            WorkspaceMove::Stay => MoveView::Stay,
            WorkspaceMove::Explain(message) => MoveView::Explain(message@),
            WorkspaceMove::Restart => MoveView::Restart,
        }
    }
}

impl AppView {
    /// What becomes of a managed server when the workspace is set: only one that this
    /// client started, for a backend that is on, moves; and not while a reply is being
    /// written.
    pub open spec fn workspace_move(
        self,
        managed: bool,
        label: Seq<char>,
        started_in: Option<Seq<char>>,
    ) -> MoveView {
        if !managed || !self.settings.enabled.contains(self.settings.backend_kind) || started_in
            == self.settings.workspace {
            MoveView::Stay
        } else if self.conversation.sending {
            MoveView::Explain(
                label + " is still running in "@ + (match started_in {
                    Some(directory) => directory,
                    None => "the app's own directory"@,
                })
                    + "; a reply is being written, so the workspace applies at the next connect."@,
            )
        } else {
            MoveView::Restart
        }
    }
}

impl AppState {
    /// The state that the application starts with, and what there is to do about it.
    pub fn new(
        settings: Settings,
        caps: BackendCaps,
        cached_state: CachedState,
        context_window_tokens: i64,
        permission_mode: PermissionMode,
    ) -> (started: (AppState, Vec<Effect>))
        requires
            cached_state.wf(),
        ensures
            started.0@ == AppView::initial(
                settings@,
                caps,
                cached_state@,
                context_window_tokens,
                permission_mode,
            ),
            effects_view(started.1@) == started.0@.initial_effects(),
            started.0.wf(),
    {
        let backend_id: &'static str = settings.backend_kind.id();
        let sessions: Vec<AgentSession> = cached_state.visible_sessions(backend_id);
        let selected: Option<AgentSession> = match &cached_state.selected_session_id {
            Some(key) => find_with_key(&sessions, backend_id, key.as_str()),
            None => None,
        };
        let mut effects: Vec<Effect> = match &selected {
            Some(session) => only(Effect::ShowCached(cache_key(session, backend_id))),
            None => nothing(),
        };
        let ghost shown = effects_view(effects@);
        add_effect(&mut effects, Effect::ReadModelConfig);
        add_effect(&mut effects, Effect::ReadPermissionMode);
        assert(effects_view(effects@) =~= shown + seq![
            EffectView::ReadModelConfig,
            EffectView::ReadPermissionMode,
        ]);
        let cache_summary: String = cached_state.summary();
        let state = AppState {
            settings,
            connection_state: ConnectionState::Disconnected,
            sessions,
            selected_session: selected,
            conversation: Conversation::new(),
            composer_text: String::new(),
            composer_attachments: Vec::new(),
            is_refreshing_sessions: false,
            transport_ready: false,
            gateway_connecting: false,
            pending_queue: Vec::new(),
            pending_clarify: None,
            last_error: None,
            cache_summary,
            available_models: Vec::new(),
            model_provider_groups: Vec::new(),
            current_model_provider: String::new(),
            current_model_name: String::new(),
            is_switching_model: false,
            context_window_tokens,
            permission_mode,
            is_changing_permission_mode: false,
            pending_after_start: None,
            sessions_refresh_inflight: false,
            repaint_scheduled: false,
            backend_caps: caps,
            cached_state,
            session_view_generation: 0,
            live_session_id: None,
            stored_session_id: None,
        };
        proof {
            assert(state@.composer_attachments =~= seq![]);
            assert(state@.queue =~= seq![]);
            assert(state@.models =~= seq![]);
            assert(state@.model_groups =~= seq![]);
        }
        (state, effects)
    }

    // -- sessions -----------------------------------------------------------------------

    fn list_without(&mut self, id: &str, now: Stamp)
        requires
            old(self).cached_state.wf(),
        ensures
            final(self)@ == (AppView {
                sessions: without_session(old(self)@.sessions, id@),
                cache: old(self)@.cache.synced(
                    without_session(old(self)@.sessions, id@),
                    old(self)@.settings.backend_kind.id_of(),
                    now,
                ),
                ..old(self)@
            }),
            final(self).cached_state.wf(),
    {
        self.sessions = remove_session(&self.sessions, id);
        self.cached_state.sync_sessions(&self.sessions, self.settings.backend_kind.id(), now);
    }

    fn empty_screen(&mut self)
        requires
            old(self).cached_state.wf(),
        ensures
            final(self)@ == old(self)@.emptied(),
            final(self).cached_state.wf(),
    {
        self.selected_session = None;
        self.conversation = Conversation::new();
        self.live_session_id = None;
        self.stored_session_id = None;
        self.transport_ready = false;
    }

    fn drop_transcript(&mut self, key: &str)
        requires
            old(self).cached_state.wf(),
        ensures
            final(self)@ == (AppView {
                cache: CacheView {
                    transcripts: old(self)@.cache.transcripts.remove(key@),
                    ..old(self)@.cache
                },
                ..old(self)@
            }),
            final(self).cached_state.wf(),
    {
        self.cached_state.remove_transcript(key);
    }

    /// Take a session off the list.
    pub fn remove_visible_session(&mut self, id: &str, delete_messages: bool, now: Stamp) -> (effects:
        Vec<Effect>)
        requires
            old(self).wf(),
        ensures
            final(self)@ == old(self)@.remove_visible_session(id@, delete_messages, now).state,
            effects_view(effects@) == old(self)@.remove_visible_session(
                id@,
                delete_messages,
                now,
            ).effects,
            final(self).wf(),
    {
        proof {
            reveal(AppView::remove_visible_session);
        }
        let selected: bool = same_maybe(self.selected_id(), Some(id));
        self.list_without(id, now);
        let mut effects: Vec<Effect> = nothing();
        if delete_messages {
            let key: String = session_key(self.settings.backend_kind.id(), id);
            self.drop_transcript(key.as_str());
            effects = only(Effect::DropTranscript(key));
        }
        if selected {
            let _ = self.advance_session_view();
            self.empty_screen();
            add_effects(&mut effects, only(Effect::Reset));
        }
        let last: Vec<Effect> = self.save_cache();
        add_effects(&mut effects, last);
        effects
    }

    /// Sum the cache up and save it.
    fn save_cache(&mut self) -> (effects: Vec<Effect>)
        requires
            old(self).cached_state.wf(),
        ensures
            final(self)@ == old(self)@.saving().state,
            effects_view(effects@) == old(self)@.saving().effects,
            final(self).wf(),
    {
        self.update_cache_summary();
        only(Effect::SaveCache)
    }

    /// Empty the screen where it shows one of `sessions`.
    fn leave(&mut self, sessions: &Vec<AgentSession>) -> (effects: Vec<Effect>)
        requires
            old(self).cached_state.wf(),
        ensures
            final(self)@ == old(self)@.leaving(sessions_view(sessions@)).state,
            effects_view(effects@) == old(self)@.leaving(sessions_view(sessions@)).effects,
            final(self).cached_state.wf(),
    {
        let listed: bool = match &self.selected_session {
            Some(session) => find_session(sessions, session.id.as_str()).is_some(),
            None => false,
        };
        if !listed {
            return nothing();
        }
        let _ = self.advance_session_view();
        self.empty_screen();
        only(Effect::Reset)
    }

    fn put_away(&mut self, session: &AgentSession, deleted: bool, now: Stamp) -> (effects: Vec<Effect>)
        requires
            old(self).wf(),
        ensures
            final(self)@ == old(self)@.hide_session(session@, deleted, now).state,
            effects_view(effects@) == old(self)@.hide_session(session@, deleted, now).effects,
            final(self).wf(),
    {
        let key: String = cache_key(session, self.settings.backend_kind.id());
        self.cached_state.hide_session(key, deleted);
        self.remove_visible_session(session.id.as_str(), deleted, now)
    }

    pub fn archive_session(&mut self, session: &AgentSession, now: Stamp) -> (effects: Vec<Effect>)
        requires
            old(self).wf(),
        ensures
            final(self)@ == old(self)@.hide_session(session@, false, now).state,
            effects_view(effects@) == old(self)@.hide_session(session@, false, now).effects,
            final(self).wf(),
    {
        self.put_away(session, false, now)
    }

    pub fn delete_session(&mut self, session: &AgentSession, now: Stamp) -> (effects: Vec<Effect>)
        requires
            old(self).wf(),
        ensures
            final(self)@ == old(self)@.hide_session(session@, true, now).state,
            effects_view(effects@) == old(self)@.hide_session(session@, true, now).effects,
            final(self).wf(),
    {
        self.put_away(session, true, now)
    }

    /// Keep every listed session out of the list.
    fn hide_listed(&mut self, deleted: bool)
        requires
            old(self).wf(),
        ensures
            final(self)@ == (AppView {
                cache: old(self)@.hiding_all(old(self)@.sessions, deleted),
                ..old(self)@
            }),
            final(self).wf(),
    {
        let ghost before = self@;
        let ghost all = before.sessions;
        let mut index: usize = 0;
        proof {
            assert(all.take(0) =~= Seq::<SessionView>::empty());
        }
        while index < self.sessions.len()
            invariant
                self.wf(),
                all == before.sessions,
                all == sessions_view(self.sessions@),
                index <= self.sessions@.len(),
                self@ == (AppView {
                    cache: before.hiding_all(all.take(index as int), deleted),
                    ..before
                }),
            decreases self.sessions@.len() - index,
        {
            proof {
                let longer = all.take(index + 1);
                assert(longer.drop_last() =~= all.take(index as int));
                assert(longer.last() == self.sessions@[index as int]@);
            }
            let key: String = cache_key(&self.sessions[index], self.settings.backend_kind.id());
            self.cached_state.hide_session(key, deleted);
            index += 1;
        }
        assert(all.take(all.len() as int) =~= all);
    }

    /// Drop the transcripts of sessions that were listed.
    fn drop_transcripts(&mut self, sessions: &Vec<AgentSession>) -> (effects: Vec<Effect>)
        requires
            old(self).cached_state.wf(),
        ensures
            final(self)@ == old(self)@.dropping_all(sessions_view(sessions@)).state,
            effects_view(effects@) == old(self)@.dropping_all(sessions_view(sessions@)).effects,
            final(self).cached_state.wf(),
    {
        let ghost before = self@;
        let ghost all = sessions_view(sessions@);
        let mut effects: Vec<Effect> = nothing();
        let mut index: usize = 0;
        proof {
            assert(all.take(0) =~= Seq::<SessionView>::empty());
        }
        while index < sessions.len()
            invariant
                self.cached_state.wf(),
                all == sessions_view(sessions@),
                index <= sessions@.len(),
                self@ == before.dropping_all(all.take(index as int)).state,
                self@.settings == before.settings,
                effects_view(effects@) == before.dropping_all(all.take(index as int)).effects,
            decreases sessions@.len() - index,
        {
            proof {
                let longer = all.take(index + 1);
                assert(longer.drop_last() =~= all.take(index as int));
                assert(longer.last() == sessions@[index as int]@);
            }
            let key: String = cache_key(&sessions[index], self.settings.backend_kind.id());
            self.drop_transcript(key.as_str());
            add_effect(&mut effects, Effect::DropTranscript(key));
            index += 1;
        }
        assert(all.take(all.len() as int) =~= all);
        effects
    }

    /// Empty the list, and take out what was in it.
    fn take_sessions(&mut self, now: Stamp) -> (taken: Vec<AgentSession>)
        requires
            old(self).cached_state.wf(),
        ensures
            sessions_view(taken@) == old(self)@.sessions,
            final(self)@ == old(self)@.unlisted(now),
            final(self).cached_state.wf(),
    {
        let mut taken: Vec<AgentSession> = Vec::new();
        core::mem::swap(&mut self.sessions, &mut taken);
        assert(sessions_view(self.sessions@) =~= seq![]);
        self.cached_state.sync_sessions(&self.sessions, self.settings.backend_kind.id(), now);
        taken
    }

    fn hide_all(&mut self, deleted: bool, now: Stamp) -> (effects: Vec<Effect>)
        requires
            old(self).wf(),
        ensures
            final(self)@ == old(self)@.hide_all(deleted, now).state,
            effects_view(effects@) == old(self)@.hide_all(deleted, now).effects,
            final(self).wf(),
    {
        if self.sessions.len() == 0 {
            return nothing();
        }
        self.hide_listed(deleted);
        let taken: Vec<AgentSession> = self.take_sessions(now);
        let mut effects: Vec<Effect> = if deleted {
            self.drop_transcripts(&taken)
        } else {
            nothing()
        };
        let left: Vec<Effect> = self.leave(&taken);
        add_effects(&mut effects, left);
        let last: Vec<Effect> = self.save_cache();
        add_effects(&mut effects, last);
        effects
    }

    pub fn archive_all(&mut self, now: Stamp) -> (effects: Vec<Effect>)
        requires
            old(self).wf(),
        ensures
            final(self)@ == old(self)@.hide_all(false, now).state,
            effects_view(effects@) == old(self)@.hide_all(false, now).effects,
            final(self).wf(),
    {
        self.hide_all(false, now)
    }

    pub fn delete_all(&mut self, now: Stamp) -> (effects: Vec<Effect>)
        requires
            old(self).wf(),
        ensures
            final(self)@ == old(self)@.hide_all(true, now).state,
            effects_view(effects@) == old(self)@.hide_all(true, now).effects,
            final(self).wf(),
    {
        self.hide_all(true, now)
    }

    /// Forget everything that was cached.
    pub fn clear_cache(&mut self) -> (effects: Vec<Effect>)
        requires
            old(self).wf(),
        ensures
            final(self)@ == old(self)@.clear_cache().state,
            effects_view(effects@) == old(self)@.clear_cache().effects,
            final(self).wf(),
    {
        let _ = self.advance_session_view();
        self.cached_state = CachedState::new();
        self.sessions = Vec::new();
        self.selected_session = None;
        self.conversation = Conversation::new();
        assert(sessions_view(self.sessions@) =~= seq![]);
        self.update_cache_summary();
        let mut effects: Vec<Effect> = only(Effect::ClearCache);
        add_effect(&mut effects, Effect::Reset);
        effects
    }

    // -- backends -----------------------------------------------------------------------

    /// Make `kind` the active backend, with its settings. Choosing a backend turns its
    /// switch on, which turns every other one off.
    pub fn switch_backend(&mut self, kind: BackendKind, settings: Settings, caps: BackendCaps) -> (effects:
        Vec<Effect>)
        requires
            old(self).wf(),
            settings.backend_kind == kind,
        ensures
            final(self)@ == old(self)@.switch_backend(kind, settings@, caps).state,
            effects_view(effects@) == old(self)@.switch_backend(kind, settings@, caps).effects,
            final(self).wf(),
    {
        self.adopt_backend(kind, settings, caps);
        let mut effects: Vec<Effect> = only(Effect::Disconnect);
        add_effect(&mut effects, Effect::SaveSettings);
        add_effect(&mut effects, Effect::Build(kind));
        add_effect(&mut effects, Effect::Reset);
        let more: Vec<Effect> = self.connect();
        add_effects(&mut effects, more);
        effects
    }

    fn adopt_backend(&mut self, kind: BackendKind, settings: Settings, caps: BackendCaps)
        requires
            old(self).wf(),
        ensures
            final(self)@ == old(self)@.with_backend(kind, settings@, caps),
            final(self).wf(),
    {
        let _ = self.advance_session_view();
        self.settings = settings;
        self.settings.set_backend_enabled(kind, true);
        self.backend_caps = caps;
        self.transport_ready = false;
        self.gateway_connecting = false;
        self.connection_state = ConnectionState::Disconnected;
        self.selected_session = None;
        self.sessions = self.cached_state.visible_sessions(kind.id());
        self.conversation = Conversation::new();
        self.live_session_id = None;
        self.stored_session_id = None;
        self.pending_clarify = None;
        self.last_error = None;
    }

    /// Turn a backend's switch on. The active one reconnects where its switch is on
    /// already; any other becomes the active one.
    pub fn enable_backend(&mut self, kind: BackendKind, settings: Settings, caps: BackendCaps) -> (effects:
        Vec<Effect>)
        requires
            old(self).wf(),
            settings.backend_kind == kind,
        ensures
            ({
                let step = if old(self)@.settings.backend_kind == kind && old(
                    self,
                )@.settings.enabled.contains(kind) {
                    old(self)@.connect()
                } else {
                    old(self)@.switch_backend(kind, settings@, caps)
                };
                final(self)@ == step.state && effects_view(effects@) == step.effects
            }),
            final(self).wf(),
    {
        if self.settings.backend_kind == kind && self.settings.is_backend_enabled(kind) {
            return self.connect();
        }
        self.switch_backend(kind, settings, caps)
    }

    /// Turn a backend's switch off. That of the active one closes the connection, and
    /// the choice survives a restart.
    pub fn disable_backend(&mut self, kind: BackendKind) -> (effects: Vec<Effect>)
        requires
            old(self).wf(),
        ensures
            final(self)@ == old(self)@.disable_backend(kind).state,
            effects_view(effects@) == old(self)@.disable_backend(kind).effects,
            final(self).wf(),
    {
        self.settings.set_backend_enabled(kind, false);
        let mut effects: Vec<Effect> = only(Effect::SaveSettings);
        if self.settings.backend_kind == kind {
            let more: Vec<Effect> = self.disconnect();
            add_effects(&mut effects, more);
        }
        effects
    }

    /// Close the connection.
    pub fn disconnect(&mut self) -> (effects: Vec<Effect>)
        requires
            old(self).wf(),
        ensures
            final(self)@ == old(self)@.disconnect().state,
            effects_view(effects@) == old(self)@.disconnect().effects,
            final(self).wf(),
    {
        let _ = self.advance_session_view();
        self.transport_ready = false;
        self.gateway_connecting = false;
        self.connection_state = ConnectionState::Disconnected;
        let mut effects: Vec<Effect> = only(Effect::CancelSave);
        add_effect(&mut effects, Effect::Disconnect);
        effects
    }

    /// Forget the credential of the active backend.
    pub fn clear_credential(&mut self) -> (effects: Vec<Effect>)
        requires
            old(self).wf(),
        ensures
            final(self)@ == old(self)@.clear_credential().state,
            effects_view(effects@) == old(self)@.clear_credential().effects,
            final(self).wf(),
    {
        self.settings.session_token = String::new();
        let mut effects: Vec<Effect> = if self.settings.backend_kind == BackendKind::OpenClaw {
            only(Effect::ForgetDevice(self.settings.base_url.clone()))
        } else {
            nothing()
        };
        add_effect(&mut effects, Effect::SaveSettings);
        effects
    }

    /// What becomes of a server that this client manages when the workspace is set.
    pub fn apply_workspace(&self, managed: bool, label: &str, started_in: Option<&str>) -> (plan:
        WorkspaceMove)
        ensures
            plan@ == self@.workspace_move(managed, label@, maybe_str(started_in)),
    {
        if !managed || !self.settings.is_backend_enabled(self.settings.backend_kind) {
            return WorkspaceMove::Stay;
        }
        if same_maybe(started_in, crate::words::borrow_text(&self.settings.workspace)) {
            return WorkspaceMove::Stay;
        }
        if !self.conversation.sending {
            return WorkspaceMove::Restart;
        }
        let directory: &str = match started_in {
            Some(directory) => directory,
            None => "the app's own directory",
        };
        let begun: String = join3(label, " is still running in ", directory);
        WorkspaceMove::Explain(
            join(
                begun.as_str(),
                "; a reply is being written, so the workspace applies at the next connect.",
            ),
        )
    }

    /// The managed server runs in the new directory, or does not; either way the
    /// connection to it has to be made again.
    pub fn server_restarted(&mut self, outcome: Result<(), String>) -> (effects: Vec<Effect>)
        requires
            old(self).wf(),
        ensures
            ({
                let told = match plain_outcome(outcome) {
                    Ok(_) => old(self)@,
                    Err(error) => old(self)@.with_error(error),
                };
                final(self)@ == told.connect().state && effects_view(effects@)
                    == told.connect().effects
            }),
            final(self).wf(),
    {
        if let Err(error) = outcome {
            self.report(error);
        }
        self.connect()
    }

    // -- models and permissions -------------------------------------------------------------

    /// The backend's own configuration has been read.
    pub fn model_config_read(
        &mut self,
        provider: String,
        model: String,
        models: Vec<ModelOption>,
        context_window_tokens: i64,
    )
        requires
            old(self).wf(),
        ensures
            final(self)@ == old(self)@.with_models(
                provider@,
                model@,
                models_view(models@),
                context_window_tokens,
            ),
            final(self).wf(),
    {
        self.model_provider_groups = provider_groups(&models, provider.as_str(), model.as_str());
        self.current_model_provider = provider;
        self.current_model_name = model;
        self.available_models = models;
        self.context_window_tokens = context_window_tokens;
    }

    /// Ask for another model.
    pub fn select_hermes_model(&mut self, option: ModelOption) -> (effects: Vec<Effect>)
        requires
            old(self).wf(),
        ensures
            final(self)@ == old(self)@.select_model(option@).state,
            effects_view(effects@) == old(self)@.select_model(option@).effects,
            final(self).wf(),
    {
        if self.is_switching_model {
            return nothing();
        }
        self.is_switching_model = true;
        only(Effect::SelectModel(option))
    }

    /// The model has been changed, or has not.
    pub fn model_selected(&mut self, option: ModelOption, outcome: Result<(), String>) -> (effects:
        Vec<Effect>)
        requires
            old(self).wf(),
        ensures
            final(self)@ == old(self)@.model_selected(option@, plain_outcome(outcome)).state,
            effects_view(effects@) == old(self)@.model_selected(
                option@,
                plain_outcome(outcome),
            ).effects,
            final(self).wf(),
    {
        self.is_switching_model = false;
        match outcome {
            Ok(_) => {
                self.current_model_provider = option.provider;
                self.current_model_name = option.model;
                only(Effect::ReadModelConfig)
            },
            Err(error) => {
                self.report(join("Could not switch Hermes model: ", error.as_str()));
                nothing()
            },
        }
    }

    /// The backend's permission mode has been read.
    pub fn permission_mode_read(&mut self, mode: PermissionMode)
        requires
            old(self).wf(),
        ensures
            final(self)@ == (AppView { permission_mode: mode, ..old(self)@ }),
            final(self).wf(),
    {
        self.permission_mode = mode;
    }

    /// Ask for another permission mode.
    pub fn set_permission_mode(&mut self, mode: PermissionMode) -> (effects: Vec<Effect>)
        requires
            old(self).wf(),
        ensures
            final(self)@ == old(self)@.ask_permission_mode(mode).state,
            effects_view(effects@) == old(self)@.ask_permission_mode(mode).effects,
            final(self).wf(),
    {
        if self.is_changing_permission_mode {
            return nothing();
        }
        self.is_changing_permission_mode = true;
        only(Effect::SetPermissionMode(mode))
    }

    /// The permission mode has been changed, or has not.
    pub fn permission_mode_set(&mut self, mode: PermissionMode, outcome: Result<(), String>) -> (effects:
        Vec<Effect>)
        requires
            old(self).wf(),
        ensures
            final(self)@ == old(self)@.permission_mode_set(mode, plain_outcome(outcome)).state,
            effects_view(effects@) == old(self)@.permission_mode_set(
                mode,
                plain_outcome(outcome),
            ).effects,
            final(self).wf(),
    {
        self.is_changing_permission_mode = false;
        match outcome {
            Ok(_) => {
                self.permission_mode = mode;
                nothing()
            },
            Err(error) => {
                self.report(join("Could not change Hermes permissions: ", error.as_str()));
                only(Effect::ReadPermissionMode)
            },
        }
    }
}

fn find_with_key(sessions: &Vec<AgentSession>, backend_id: &str, key: &str) -> (found: Option<
    AgentSession,
>)
    ensures
        maybe_session(found) == session_with_key(sessions_view(sessions@), backend_id@, key@),
{
    let ghost all = sessions_view(sessions@);
    let mut index: usize = 0;
    proof {
        assert(all.skip(0) =~= all);
    }
    while index < sessions.len()
        invariant
            all == sessions_view(sessions@),
            index <= sessions@.len(),
            session_with_key(all, backend_id@, key@) == session_with_key(
                all.skip(index as int),
                backend_id@,
                key@,
            ),
        decreases sessions@.len() - index,
    {
        assert(all.skip(index as int)[0] == sessions@[index as int]@);
        let own: String = cache_key(&sessions[index], backend_id);
        if same_text(own.as_str(), key) {
            return Some(sessions[index].clone());
        }
        proof {
            assert(all.skip(index as int).drop_first() =~= all.skip(index + 1));
        }
        index += 1;
    }
    None
}

} // verus!
