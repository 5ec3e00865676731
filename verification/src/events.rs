//! What the backend reports while the application runs, and what is kept of it.

use crate::effects::{
    add_effect, add_effects, effects_view, nothing, only, Effect, EffectView, QueuedPrompt,
};
use crate::models::{
    messages_view, sessions_view, AgentSession, BackendKind, ChatMessage, Conversation, MessageView,
    SessionView, Stamp,
};
use crate::sessions::{cache_key, key_of, session_key, visible_messages, visible_of, CacheView};
use crate::state::{
    session_view_is_current, AppState, AppView, ClarifyView, ConnectionState, LinkView,
    PendingClarify, Step,
};
use crate::words::{copy_text, join, maybe_text};
use vstd::prelude::*;

verus! {

/// What a backend reports.
pub enum BackendEvent {
    Connected,
    SessionInfo(String),
    SessionsChanged,
    Clarify(PendingClarify),
    Disconnected,
    Failed(String),
    /// The running turn ended in an error.
    TurnFailed(String),
    /// A reply began, went on or was completed, or a tool was run.
    Turn,
}

pub enum EventView {
    Connected,
    SessionInfo(Seq<char>),
    SessionsChanged,
    Clarify(ClarifyView),
    Disconnected,
    Failed(Seq<char>),
    TurnFailed(Seq<char>),
    Turn,
}

impl View for BackendEvent {
    type V = EventView;

    open spec fn view(&self) -> EventView {
        match self {
            BackendEvent::Connected => EventView::Connected,
            BackendEvent::SessionInfo(id) => EventView::SessionInfo(id@),
            BackendEvent::SessionsChanged => EventView::SessionsChanged,
            BackendEvent::Clarify(clarify) => EventView::Clarify(clarify@),
            BackendEvent::Disconnected => EventView::Disconnected,
            BackendEvent::Failed(message) => EventView::Failed(message@),
            BackendEvent::TurnFailed(message) => EventView::TurnFailed(message@),
            BackendEvent::Turn => EventView::Turn,
        }
    }
}

/// What folding an event changed in the conversation.
#[derive(Clone, Copy, Debug, PartialEq, Eq, Structural)]
pub enum FoldChange {
    Unchanged,
    Streaming,
    Structure,
}

impl AppView {
    /// The key that the messages on screen are filed under.
    pub open spec fn transcript_key(self) -> Option<Seq<char>> {
        match self.selected {
            Some(session) => Some(key_of(self.settings.backend_kind.id_of(), session.id)),
            None => if self.stored is Some {
                self.stored
            } else {
                self.live
            },
        }
    }

    /// A transcript is filed under `key`.
    pub open spec fn filed(self, key: Seq<char>) -> AppView {
        (AppView {
            cache: CacheView { transcripts: self.cache.transcripts.insert(key), ..self.cache },
            ..self
        }).summarized()
    }

    /// The messages on screen are filed.
    #[verifier::opaque]
    pub open spec fn save_messages(self, now: Stamp) -> Step {
        match self.transcript_key() {
            None => self.done(),
            Some(key) => {
                let filed = self.filed(key);
                (AppView {
                    cache: CacheView {
                        selected_session_id: Some(key),
                        updated_at: Some(now),
                        ..filed.cache
                    },
                    ..filed
                }).doing(EffectView::StoreTranscript(key)).and(EffectView::SaveCache)
            },
        }
    }

    /// The next waiting prompt is sent, if there is one.
    #[verifier::opaque]
    pub open spec fn send_next_queued(self) -> Step {
        if self.queue.len() == 0 {
            self.done()
        } else {
            let next = self.queue[0];
            let rest = self.without_queued(0);
            match rest.live {
                Some(live) => rest.perform_send(next.text, next.attachments, live),
                None => rest.done(),
            }
        }
    }

    /// The turn has ended: the question is stale, the transcript is worth keeping, the
    /// list has changed, and the next waiting prompt can go.
    pub open spec fn turn_finished(self, now: Stamp) -> Step {
        let saved = (AppView { clarify: None, ..self }).save_messages(now);
        let listed = saved.followed_by(saved.state.refresh_quietly());
        listed.followed_by(listed.state.send_next_queued())
    }

    /// The stream is up.
    pub open spec fn stream_up(self) -> AppView {
        AppView {
            transport_ready: true,
            gateway_connecting: false,
            connection: LinkView::Connected,
            last_error: None,
            ..self
        }
    }

    /// The stream has gone down.
    pub open spec fn stream_down(self) -> AppView {
        AppView { transport_ready: false, gateway_connecting: false, clarify: None, ..self }
    }

    /// One event of the backend. What belongs to a turn is dropped while a session is
    /// being opened.
    pub open spec fn handle_event(self, event: EventView) -> Step {
        match event {
            EventView::Connected => self.stream_up().done(),
            EventView::SessionInfo(id) => (AppView {
                live: Some(id),
                transport_ready: true,
                ..self
            }).done(),
            EventView::SessionsChanged => self.refresh_quietly(),
            EventView::Clarify(clarify) => (AppView { clarify: Some(clarify), ..self }).done(),
            EventView::Disconnected => (AppView {
                connection: if self.connection is Connected {
                    LinkView::Disconnected
                } else {
                    self.connection
                },
                ..self.stream_down()
            }).done(),
            EventView::Failed(message) => self.stream_down().failed(message).done(),
            EventView::TurnFailed(message) => if self.accepts_turn_events() {
                self.with_error(message).doing(
                    EffectView::CompleteMessage("Error: "@ + message),
                ).and(EffectView::AfterTurn)
            } else {
                self.done()
            },
            EventView::Turn => if self.accepts_turn_events() {
                self.doing(EffectView::Fold)
            } else {
                self.done()
            },
        }
    }

    /// What an event that was folded into the conversation changed is saved and drawn.
    /// Streamed text is repainted once in a while, not with every word.
    pub open spec fn folded(self, change: FoldChange) -> Step {
        match change {
            FoldChange::Unchanged => self.done(),
            FoldChange::Structure => self.doing(EffectView::ScheduleSave),
            FoldChange::Streaming => if self.repaint_scheduled {
                self.doing(EffectView::ScheduleSave)
            } else {
                (AppView { repaint_scheduled: true, ..self }).doing(EffectView::ScheduleSave).and(
                    EffectView::ScheduleRepaint,
                )
            },
        }
    }

    /// An event has been folded into the conversation, which stands as the fold left it. An
    /// event that ended the turn is followed by all that the end of a turn means.
    pub open spec fn event_folded(self, change: FoldChange, was_sending: bool, now: Stamp) -> Step {
        let folded = self.folded(change);
        if was_sending && !self.conversation.sending {
            folded.followed_by(folded.state.turn_finished(now))
        } else {
            folded
        }
    }

    /// Whether the last message on screen is still being written.
    pub open spec fn is_writing(self) -> bool {
        self.conversation.messages.len() > 0 && self.conversation.messages.last().is_streaming
    }

    /// The messages of a session have been fetched, or have not. They are merged into
    /// the conversation unless a reply is being written into it.
    pub open spec fn messages_loaded(
        self,
        generation: u64,
        session_id: Seq<char>,
        backend: BackendKind,
        outcome: Result<Seq<MessageView>, Seq<char>>,
    ) -> Step {
        if !self.is_current(generation, Some(session_id)) {
            self.done()
        } else {
            match outcome {
                Err(error) => self.with_error(error).done(),
                Ok(fetched) => {
                    let key = key_of(backend.id_of(), session_id);
                    let visible = visible_of(fetched);
                    let filed = self.filed(key);
                    if self.is_writing() {
                        filed.doing(EffectView::FileTranscript { key, messages: visible }).and(
                            EffectView::SaveCache,
                        )
                    } else {
                        (AppView {
                            cache: CacheView { selected_session_id: Some(key), ..filed.cache },
                            ..filed
                        }).doing(EffectView::Merge(visible)).and(
                            EffectView::FileTranscript { key, messages: visible },
                        ).and(EffectView::SaveCache)
                    }
                },
            }
        }
    }

    /// The session list has been read, or has not. A backend that keeps no history has
    /// nothing to show in it.
    pub open spec fn sessions_listed(
        self,
        show_progress: bool,
        expects_history: bool,
        backend_id: Seq<char>,
        outcome: Result<Seq<SessionView>, Seq<char>>,
        now: Stamp,
    ) -> Step {
        let ended = AppView {
            is_refreshing: if show_progress {
                false
            } else {
                self.is_refreshing
            },
            refresh_inflight: false,
            ..self
        };
        match outcome {
            Ok(fetched) => if expects_history {
                let sessions = ended.cache.visible(fetched, ended.settings.backend_kind.id_of());
                (AppView {
                    sessions,
                    cache: ended.cache.synced(sessions, backend_id, now),
                    ..ended
                }).summarized().doing(EffectView::SaveCache)
            } else {
                ended.done()
            },
            Err(error) => (AppView {
                connection: if ended.connection is Connected {
                    LinkView::Degraded(error)
                } else {
                    ended.connection
                },
                ..ended.with_error(error)
            }).done(),
        }
    }
}

/// A fetched session, marked as the backend's own.
pub open spec fn labelled(session: SessionView, backend_id: Seq<char>) -> SessionView {
    SessionView {
        backend_id: Some(backend_id),
        archived: if session.archived is None {
            Some(false)
        } else {
            session.archived
        },
        ..session
    }
}

/// Mark fetched sessions as a backend's own.
pub fn label_fetched(sessions: Vec<AgentSession>, backend_id: &str) -> (marked: Vec<AgentSession>)
    ensures
        sessions_view(marked@) == sessions_view(sessions@).map_values(
            |session: SessionView| labelled(session, backend_id@),
        ),
{
    let ghost all = sessions@;
    let mut marked: Vec<AgentSession> = Vec::new();
    for session in iter: sessions
        invariant
            iter.seq() == all,
            marked@.len() == iter.index(),
            forall|i: int|
                0 <= i < marked@.len() ==> (#[trigger] marked@[i])@ == labelled(
                    all[i]@,
                    backend_id@,
                ),
    {
        let mut session: AgentSession = session;
        session.backend_id = Some(backend_id.to_owned());
        if session.archived.is_none() {
            session.archived = Some(false);
        }
        marked.push(session);
    }
    assert(sessions_view(marked@) =~= sessions_view(all).map_values(
        |session: SessionView| labelled(session, backend_id@),
    ));
    marked
}

/// The cached transcript to put on screen: what of it is shown, or none where it is
/// empty.
pub fn shown_from_cache(cached: &Vec<ChatMessage>) -> (shown: Option<Vec<ChatMessage>>)
    ensures
        match shown {
            Some(shown) => cached@.len() > 0 && messages_view(shown@) == visible_of(
                messages_view(cached@),
            ),
            None => cached@.len() == 0,
        },
{
    if cached.len() == 0 {
        None
    } else {
        Some(visible_messages(cached))
    }
}

/// What fetched messages hold.
pub open spec fn messages_outcome(outcome: Result<Vec<ChatMessage>, String>) -> Result<
    Seq<MessageView>,
    Seq<char>,
> {
    match outcome {
        Ok(messages) => Ok(messages_view(messages@)),
        Err(error) => Err(error@),
    }
}

/// What a list of sessions holds.
pub open spec fn sessions_outcome(outcome: Result<Vec<AgentSession>, String>) -> Result<
    Seq<SessionView>,
    Seq<char>,
> {
    match outcome {
        Ok(sessions) => Ok(sessions_view(sessions@)),
        Err(error) => Err(error@),
    }
}

impl AppState {
    /// The conversation stands as its fold left it.
    pub fn conversation_changed(&mut self, conversation: Conversation)
        requires
            old(self).wf(),
        ensures
            final(self)@ == (AppView { conversation: conversation@, ..old(self)@ }),
            final(self).wf(),
    {
        self.conversation = conversation;
    }

    /// The key that the messages on screen are filed under.
    pub fn transcript_key(&self) -> (key: Option<String>)
        ensures
            maybe_text(key) == self@.transcript_key(),
    {
        match &self.selected_session {
            Some(session) => Some(cache_key(session, self.settings.backend_kind.id())),
            None => if self.stored_session_id.is_some() {
                copy_text(&self.stored_session_id)
            } else {
                copy_text(&self.live_session_id)
            },
        }
    }

    /// A transcript is filed under `key`.
    fn file_transcript(&mut self, key: String)
        requires
            old(self).wf(),
        ensures
            final(self)@ == old(self)@.filed(key@),
            final(self).wf(),
    {
        self.cached_state.add_transcript(key);
        self.update_cache_summary();
    }

    /// File the messages on screen.
    pub fn save_current_messages_to_cache(&mut self, now: Stamp) -> (effects: Vec<Effect>)
        requires
            old(self).wf(),
        ensures
            final(self)@ == old(self)@.save_messages(now).state,
            effects_view(effects@) == old(self)@.save_messages(now).effects,
            final(self).wf(),
    {
        proof {
            reveal(AppView::save_messages);
        }
        match self.transcript_key() {
            None => nothing(),
            Some(key) => {
                self.file_transcript(key.clone());
                self.cached_state.select(key.clone());
                self.cached_state.stamp(now);
                let mut effects: Vec<Effect> = only(Effect::StoreTranscript(key));
                add_effect(&mut effects, Effect::SaveCache);
                effects
            },
        }
    }

    fn send_next_queued(&mut self) -> (effects: Vec<Effect>)
        requires
            old(self).wf(),
        ensures
            final(self)@ == old(self)@.send_next_queued().state,
            effects_view(effects@) == old(self)@.send_next_queued().effects,
            final(self).wf(),
    {
        proof {
            reveal(AppView::send_next_queued);
        }
        if self.pending_queue.len() == 0 {
            return nothing();
        }
        let QueuedPrompt { id: _, text, attachments } = self.take_queued(0);
        let live: Option<String> = copy_text(&self.live_session_id);
        match live {
            Some(live) => self.perform_send(text, &attachments, live),
            None => nothing(),
        }
    }

    fn drop_clarify(&mut self)
        requires
            old(self).wf(),
        ensures
            final(self)@ == (AppView { clarify: None, ..old(self)@ }),
            final(self).wf(),
    {
        self.pending_clarify = None;
    }

    /// The turn has ended, and the conversation stands as it left it.
    pub fn after_turn_finished(&mut self, now: Stamp) -> (effects: Vec<Effect>)
        requires
            old(self).wf(),
        ensures
            final(self)@ == old(self)@.turn_finished(now).state,
            effects_view(effects@) == old(self)@.turn_finished(now).effects,
            final(self).wf(),
    {
        self.drop_clarify();
        let mut effects: Vec<Effect> = self.save_current_messages_to_cache(now);
        let listing: Vec<Effect> = self.refresh_sessions_quietly();
        add_effects(&mut effects, listing);
        let next: Vec<Effect> = self.send_next_queued();
        add_effects(&mut effects, next);
        effects
    }

    fn bring_stream_up(&mut self)
        requires
            old(self).wf(),
        ensures
            final(self)@ == old(self)@.stream_up(),
            final(self).wf(),
    {
        self.transport_ready = true;
        self.gateway_connecting = false;
        self.connection_state = ConnectionState::Connected;
        self.last_error = None;
    }

    fn take_stream_down(&mut self)
        requires
            old(self).wf(),
        ensures
            final(self)@ == old(self)@.stream_down(),
            final(self).wf(),
    {
        self.transport_ready = false;
        self.gateway_connecting = false;
        self.pending_clarify = None;
    }

    /// Take in one event of the backend.
    pub fn handle_event(&mut self, event: BackendEvent) -> (effects: Vec<Effect>)
        requires
            old(self).wf(),
        ensures
            final(self)@ == old(self)@.handle_event(event@).state,
            effects_view(effects@) == old(self)@.handle_event(event@).effects,
            final(self).wf(),
    {
        match event {
            BackendEvent::Connected => {
                self.bring_stream_up();
                nothing()
            },
            BackendEvent::SessionInfo(id) => {
                self.live_session_id = Some(id);
                self.transport_ready = true;
                nothing()
            },
            BackendEvent::SessionsChanged => self.refresh_sessions_quietly(),
            BackendEvent::Clarify(clarify) => {
                self.pending_clarify = Some(clarify);
                nothing()
            },
            BackendEvent::Disconnected => {
                self.take_stream_down();
                let connected: bool = match self.connection_state {
                    ConnectionState::Connected => true,
                    _ => false,
                };
                if connected {
                    self.connection_state = ConnectionState::Disconnected;
                }
                nothing()
            },
            BackendEvent::Failed(message) => {
                self.take_stream_down();
                self.fail_connection(message);
                nothing()
            },
            BackendEvent::TurnFailed(message) => {
                if !self.takes_turn_events() {
                    return nothing();
                }
                let said: String = join("Error: ", message.as_str());
                self.report(message);
                let mut effects: Vec<Effect> = only(Effect::CompleteMessage(said));
                add_effect(&mut effects, Effect::AfterTurn);
                effects
            },
            BackendEvent::Turn => if self.takes_turn_events() {
                only(Effect::Fold)
            } else {
                nothing()
            },
        }
    }

    fn takes_turn_events(&self) -> (takes: bool)
        ensures
            takes == self@.accepts_turn_events(),
    {
        crate::state::accepts_turn_events(
            crate::words::borrow_text(&self.live_session_id),
            crate::words::borrow_text(&self.stored_session_id),
        )
    }

    /// Save and draw what a fold changed.
    fn show_fold(&mut self, change: FoldChange) -> (effects: Vec<Effect>)
        requires
            old(self).wf(),
        ensures
            final(self)@ == old(self)@.folded(change).state,
            effects_view(effects@) == old(self)@.folded(change).effects,
            final(self).wf(),
    {
        match change {
            FoldChange::Unchanged => nothing(),
            FoldChange::Structure => only(Effect::ScheduleSave),
            FoldChange::Streaming => {
                let mut effects: Vec<Effect> = only(Effect::ScheduleSave);
                if !self.repaint_scheduled {
                    self.repaint_scheduled = true;
                    add_effect(&mut effects, Effect::ScheduleRepaint);
                }
                effects
            },
        }
    }

    /// An event has been folded into the conversation, and the conversation stands as the
    /// fold left it. Whether a turn was running before the fold, `was_sending` says: an
    /// event that ended it drops the question and sends the next waiting prompt.
    pub fn event_folded(&mut self, change: FoldChange, was_sending: bool, now: Stamp) -> (effects:
        Vec<Effect>)
        requires
            old(self).wf(),
        ensures
            final(self)@ == old(self)@.event_folded(change, was_sending, now).state,
            effects_view(effects@) == old(self)@.event_folded(change, was_sending, now).effects,
            final(self).wf(),
    {
        let ended: bool = was_sending && !self.is_sending();
        let mut effects: Vec<Effect> = self.show_fold(change);
        if ended {
            let more: Vec<Effect> = self.after_turn_finished(now);
            add_effects(&mut effects, more);
        }
        effects
    }

    /// The repaint that was scheduled is done.
    pub fn repainted(&mut self)
        requires
            old(self).wf(),
        ensures
            final(self)@ == (AppView { repaint_scheduled: false, ..old(self)@ }),
            final(self).wf(),
    {
        self.repaint_scheduled = false;
    }

    fn is_writing(&self) -> (writing: bool)
        ensures
            writing == self@.is_writing(),
    {
        let count: usize = self.conversation.messages.len();
        if count == 0 {
            return false;
        }
        assert(self@.conversation.messages.last() == self.conversation.messages@[count - 1]@);
        self.conversation.messages[count - 1].is_streaming
    }

    /// The messages of a session have been fetched, or have not.
    pub fn messages_loaded(
        &mut self,
        generation: u64,
        session_id: &str,
        backend: BackendKind,
        outcome: Result<Vec<ChatMessage>, String>,
    ) -> (effects: Vec<Effect>)
        requires
            old(self).wf(),
        ensures
            final(self)@ == old(self)@.messages_loaded(
                generation,
                session_id@,
                backend,
                messages_outcome(outcome),
            ).state,
            effects_view(effects@) == old(self)@.messages_loaded(
                generation,
                session_id@,
                backend,
                messages_outcome(outcome),
            ).effects,
            final(self).wf(),
    {
        if !session_view_is_current(
            generation,
            self.session_view_generation,
            self.selected_id(),
            Some(session_id),
        ) {
            return nothing();
        }
        match outcome {
            Err(error) => {
                self.report(error);
                nothing()
            },
            Ok(fetched) => {
                let key: String = session_key(backend.id(), session_id);
                let visible: Vec<ChatMessage> = visible_messages(&fetched);
                let writing: bool = self.is_writing();
                self.file_transcript(key.clone());
                if writing {
                    let mut effects: Vec<Effect> = only(
                        Effect::FileTranscript { key, messages: visible },
                    );
                    add_effect(&mut effects, Effect::SaveCache);
                    return effects;
                }
                self.cached_state.select(key.clone());
                let mut effects: Vec<Effect> = only(Effect::Merge(copy_messages(&visible)));
                add_effect(&mut effects, Effect::FileTranscript { key, messages: visible });
                add_effect(&mut effects, Effect::SaveCache);
                effects
            },
        }
    }

    /// A reading of the session list has ended.
    fn end_refresh(&mut self, show_progress: bool)
        requires
            old(self).wf(),
        ensures
            final(self)@ == (AppView {
                is_refreshing: if show_progress {
                    false
                } else {
                    old(self)@.is_refreshing
                },
                refresh_inflight: false,
                ..old(self)@
            }),
            final(self).wf(),
    {
        if show_progress {
            self.is_refreshing_sessions = false;
        }
        self.sessions_refresh_inflight = false;
    }

    /// The session list has been read and merged with the session on screen, or has not.
    pub fn sessions_listed(
        &mut self,
        show_progress: bool,
        expects_history: bool,
        backend_id: &str,
        outcome: Result<Vec<AgentSession>, String>,
        now: Stamp,
    ) -> (effects: Vec<Effect>)
        requires
            old(self).wf(),
        ensures
            final(self)@ == old(self)@.sessions_listed(
                show_progress,
                expects_history,
                backend_id@,
                sessions_outcome(outcome),
                now,
            ).state,
            effects_view(effects@) == old(self)@.sessions_listed(
                show_progress,
                expects_history,
                backend_id@,
                sessions_outcome(outcome),
                now,
            ).effects,
            final(self).wf(),
    {
        self.end_refresh(show_progress);
        match outcome {
            Ok(fetched) => {
                if !expects_history {
                    return nothing();
                }
                self.sessions = self.cached_state.filter_visible(
                    fetched,
                    self.settings.backend_kind.id(),
                );
                self.cached_state.sync_sessions(&self.sessions, backend_id, now);
                self.update_cache_summary();
                only(Effect::SaveCache)
            },
            Err(error) => {
                let connected: bool = match self.connection_state {
                    ConnectionState::Connected => true,
                    _ => false,
                };
                if connected {
                    self.connection_state = ConnectionState::Degraded(error.clone());
                }
                self.report(error);
                nothing()
            },
        }
    }
}

/// A copy of a list of messages.
pub fn copy_messages(messages: &Vec<ChatMessage>) -> (copy: Vec<ChatMessage>)
    ensures
        messages_view(copy@) == messages_view(messages@),
{
    let mut copy: Vec<ChatMessage> = Vec::new();
    let mut index: usize = 0;
    while index < messages.len()
        invariant
            index <= messages@.len(),
            copy@.len() == index,
            forall|i: int| 0 <= i < index ==> (#[trigger] copy@[i])@ == messages@[i]@,
        decreases messages@.len() - index,
    {
        copy.push(messages[index].clone());
        index += 1;
    }
    assert(messages_view(copy@) =~= messages_view(messages@));
    copy
}

} // verus!
