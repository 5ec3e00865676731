//! Sending prompts, answering questions and the queue of prompts that wait.

use crate::effects::{
    add_effect, effects_view, nothing, only, Effect, EffectView, QueuedPrompt, QueuedView,
};
use crate::connecting::plain_outcome;
use crate::models::{
    attachments_view, copy_attachments, AgentSession, AttachmentView, ComposerAttachment,
    SessionView,
};
use crate::sessions::{find_session, session_under};
use crate::state::{maybe_session, queue_view, AppState, AppView, HeldPrompt, HeldView, Step};
use crate::words::{copy_text, join, maybe_text, same_text, trim, trimmed};
use vstd::prelude::*;

verus! {

/// The place in the queue of the first prompt under `id`.
pub open spec fn queue_place(queue: Seq<QueuedView>, id: Seq<char>) -> Option<int>
    decreases queue.len(),
{
    if queue.len() == 0 {
        None
    } else if queue[0].id == id {
        Some(0)
    } else {
        match queue_place(queue.drop_first(), id) {
            Some(place) => Some(place + 1),
            None => None,
        }
    }
}

impl AppView {
    /// The session that a prompt belongs to while none is live: the one on screen, by
    /// the key it has on the backend or in the list.
    pub open spec fn session_to_wait_for(self) -> Option<Seq<char>> {
        if self.stored is Some {
            self.stored
        } else {
            match self.selected {
                Some(session) => Some(session.id),
                None => None,
            }
        }
    }

    /// The row of the session that a prompt waits for.
    pub open spec fn row_to_resume(self, session: Seq<char>) -> Option<SessionView> {
        if self.selected is Some {
            self.selected
        } else {
            session_under(self.sessions, session)
        }
    }

    /// The state with a prompt held until its session is live.
    pub open spec fn holding(
        self,
        session: Option<Seq<char>>,
        text: Seq<char>,
        attachments: Seq<AttachmentView>,
    ) -> AppView {
        AppView { held: Some(HeldView { session, text, attachments }), ..self }
    }

    /// A prompt is sent while no session is live. It goes to the session on screen once
    /// that is resumed, or to a new chat where there is none on screen; a session on
    /// screen that is no longer listed takes nothing.
    pub open spec fn send_without_session(
        self,
        text: Seq<char>,
        attachments: Seq<AttachmentView>,
    ) -> Step {
        match self.session_to_wait_for() {
            Some(session) => match self.row_to_resume(session) {
                Some(row) => self.holding(Some(session), text, attachments).resume_session(row),
                None => (AppView {
                    composer_text: text,
                    composer_attachments: attachments,
                    ..self.with_error("That session is no longer in the list."@)
                }).done(),
            },
            None => self.holding(None, text, attachments).start_fresh_chat(),
        }
    }

    /// A prompt waits in the queue, and the composer is empty again.
    pub open spec fn queueing(
        self,
        id: Seq<char>,
        text: Seq<char>,
        attachments: Seq<AttachmentView>,
    ) -> AppView {
        (AppView {
            queue: self.queue.push(QueuedView { id, text, attachments }),
            ..self
        }).composer_cleared()
    }

    /// A question is answered: the turn that asked it ends, and the answer begins a new
    /// one.
    #[verifier::opaque]
    pub open spec fn answer_clarify(self, answer: Seq<char>) -> Step {
        if self.clarify is None || trimmed(answer).len() == 0 {
            self.done()
        } else {
            (AppView { clarify: None, ..self }).doing(EffectView::FinishTurn).and(
                EffectView::BeginTurn(trimmed(answer)),
            ).and(EffectView::ScheduleSave).and(
                EffectView::Respond {
                    request_id: self.clarify->0.request_id,
                    answer: trimmed(answer),
                },
            )
        }
    }

    /// What is in the composer is sent: as the answer to a question that is waiting, to
    /// the session on screen, or into the queue while a turn is running. A prompt that
    /// goes into the queue goes there under `id`.
    pub open spec fn send_composer(self, id: Seq<char>) -> Step {
        let text = trimmed(self.composer_text);
        if self.clarify is Some {
            if text.len() == 0 {
                self.done()
            } else {
                self.composer_cleared().answer_clarify(text)
            }
        } else if text.len() == 0 && self.composer_attachments.len() == 0 {
            self.done()
        } else if !self.transport_ready || self.live is None {
            self.send_without_session(text, self.composer_attachments)
        } else if self.conversation.sending {
            self.queueing(id, text, self.composer_attachments).done()
        } else {
            self.composer_cleared().perform_send(text, self.composer_attachments, self.live->0)
        }
    }

    /// The running turn is stopped.
    pub open spec fn interrupt_running(self) -> Step {
        if self.live is None || !self.conversation.sending {
            self.done()
        } else {
            self.doing(EffectView::Interrupt { session_id: self.live->0, queued: None })
        }
    }

    /// A question is dismissed: it is answered with nothing.
    pub open spec fn dismiss_clarify(self) -> Step {
        match self.clarify {
            Some(clarify) => (AppView { clarify: None, ..self }).doing(
                EffectView::Dismiss { request_id: clarify.request_id },
            ),
            None => self.done(),
        }
    }

    /// The state without the prompt at one place of the queue.
    pub open spec fn without_queued(self, place: int) -> AppView {
        AppView { queue: self.queue.remove(place), ..self }
    }

    /// A waiting prompt is sent now. The running turn is stopped first.
    pub open spec fn send_queued_now(self, id: Seq<char>) -> Step {
        match queue_place(self.queue, id) {
            None => self.done(),
            Some(place) => {
                let item = self.queue[place];
                let taken = self.without_queued(place);
                if taken.live is None {
                    taken.with_error(
                        taken.settings.backend_kind.name_of() + " session is not ready yet."@,
                    ).done()
                } else if taken.conversation.sending {
                    taken.doing(
                        EffectView::Interrupt {
                            session_id: taken.live->0,
                            queued: Some(item),
                        },
                    )
                } else {
                    taken.perform_send(item.text, item.attachments, taken.live->0)
                }
            },
        }
    }

    /// The turn before a waiting prompt has been stopped, or has not.
    pub open spec fn interrupted_for(
        self,
        item: QueuedView,
        outcome: Result<(), Seq<char>>,
    ) -> Step {
        match outcome {
            Err(error) => self.with_error(
                "Could not interrupt before sending queued: "@ + error,
            ).done(),
            Ok(_) => match self.live {
                Some(live) => self.perform_send(item.text, item.attachments, live),
                None => self.done(),
            },
        }
    }

    /// A waiting prompt goes back to the composer.
    pub open spec fn edit_queued(self, id: Seq<char>) -> AppView {
        match queue_place(self.queue, id) {
            None => self,
            Some(place) => AppView {
                composer_text: self.queue[place].text,
                composer_attachments: self.queue[place].attachments,
                ..self.without_queued(place)
            },
        }
    }
}

impl AppState {
    /// The composer's text, without the white space around it.
    fn composed(&self) -> (text: String)
        ensures
            text@ == trimmed(self@.composer_text),
    {
        trim(self.composer_text.as_str())
    }

    fn hold(&mut self, session: Option<String>, text: String, attachments: Vec<ComposerAttachment>)
        requires
            old(self).wf(),
        ensures
            final(self)@ == old(self)@.holding(
                maybe_text(session),
                text@,
                attachments_view(attachments@),
            ),
            final(self).wf(),
    {
        self.pending_after_start = Some(HeldPrompt { session, text, attachments });
    }

    fn set_composer(&mut self, text: String, attachments: Vec<ComposerAttachment>)
        requires
            old(self).wf(),
        ensures
            final(self)@ == (AppView {
                composer_text: text@,
                composer_attachments: attachments_view(attachments@),
                ..old(self)@
            }),
            final(self).wf(),
    {
        self.composer_text = text;
        self.composer_attachments = attachments;
    }

    /// The session that a prompt belongs to while none is live.
    fn session_to_wait_for(&self) -> (session: Option<String>)
        ensures
            maybe_text(session) == self@.session_to_wait_for(),
    {
        if self.stored_session_id.is_some() {
            return copy_text(&self.stored_session_id);
        }
        match &self.selected_session {
            Some(session) => Some(session.id.clone()),
            None => None,
        }
    }

    /// The row of the session that a prompt waits for.
    fn row_to_resume(&self, session: &str) -> (row: Option<AgentSession>)
        ensures
            maybe_session(row) == self@.row_to_resume(session@),
    {
        if self.selected_session.is_some() {
            return self.copy_selected();
        }
        match find_session(&self.sessions, session) {
            Some(row) => Some(row.clone()),
            None => None,
        }
    }

    fn send_without_session(&mut self, text: String, attachments: Vec<ComposerAttachment>) -> (effects:
        Vec<Effect>)
        requires
            old(self).wf(),
        ensures
            final(self)@ == old(self)@.send_without_session(
                text@,
                attachments_view(attachments@),
            ).state,
            effects_view(effects@) == old(self)@.send_without_session(
                text@,
                attachments_view(attachments@),
            ).effects,
            final(self).wf(),
    {
        match self.session_to_wait_for() {
            Some(session) => match self.row_to_resume(session.as_str()) {
                Some(row) => {
                    self.hold(Some(session), text, attachments);
                    self.resume_session(row)
                },
                None => {
                    self.report("That session is no longer in the list.".to_owned());
                    self.set_composer(text, attachments);
                    nothing()
                },
            },
            None => {
                self.hold(None, text, attachments);
                self.start_fresh_chat()
            },
        }
    }

    fn queue_prompt(&mut self, id: String, text: String, attachments: Vec<ComposerAttachment>)
        requires
            old(self).wf(),
        ensures
            final(self)@ == old(self)@.queueing(id@, text@, attachments_view(attachments@)),
            final(self).wf(),
    {
        let ghost waiting = self.pending_queue@;
        let item = QueuedPrompt { id, text, attachments };
        let ghost added = item@;
        self.pending_queue.push(item);
        assert(queue_view(self.pending_queue@) =~= queue_view(waiting).push(added));
        self.clear_composer();
    }

    /// Send what is in the composer. A prompt that goes into the queue goes there under
    /// `id`.
    pub fn send_composer(&mut self, id: String) -> (effects: Vec<Effect>)
        requires
            old(self).wf(),
        ensures
            final(self)@ == old(self)@.send_composer(id@).state,
            effects_view(effects@) == old(self)@.send_composer(id@).effects,
            final(self).wf(),
    {
        let text: String = self.composed();
        if self.pending_clarify.is_some() {
            if text.as_str().is_empty() {
                return nothing();
            }
            self.clear_composer();
            return self.answer_clarify(text.as_str());
        }
        let attachments: Vec<ComposerAttachment> = copy_attachments(&self.composer_attachments);
        proof {
            assert(attachments_view(attachments@).len() == attachments@.len());
        }
        if text.as_str().is_empty() && attachments.len() == 0 {
            return nothing();
        }
        let live: Option<String> = copy_text(&self.live_session_id);
        match live {
            Some(live) => if self.transport_ready {
                if self.conversation.sending {
                    self.queue_prompt(id, text, attachments);
                    return nothing();
                }
                self.clear_composer();
                self.perform_send(text, &attachments, live)
            } else {
                self.send_without_session(text, attachments)
            },
            None => self.send_without_session(text, attachments),
        }
    }

    /// A prompt has reached the backend, or has not.
    pub fn prompt_submitted(&mut self, outcome: Result<(), String>) -> (effects: Vec<Effect>)
        requires
            old(self).wf(),
        ensures
            match plain_outcome(outcome) {
                Ok(_) => final(self)@ == old(self)@ && effects_view(effects@) == Seq::<
                    EffectView,
                >::empty(),
                Err(error) => final(self)@ == old(self)@.with_error(error) && effects_view(effects@)
                    == seq![EffectView::FinishTurn],
            },
            final(self).wf(),
    {
        match outcome {
            Ok(_) => nothing(),
            Err(error) => {
                self.report(error);
                only(Effect::FinishTurn)
            },
        }
    }

    /// Stop the running turn.
    pub fn interrupt_running(&self) -> (effects: Vec<Effect>)
        ensures
            self@ == self@.interrupt_running().state,
            effects_view(effects@) == self@.interrupt_running().effects,
    {
        match &self.live_session_id {
            Some(live) => if self.conversation.sending {
                only(Effect::Interrupt { session_id: live.clone(), queued: None })
            } else {
                nothing()
            },
            None => nothing(),
        }
    }

    /// The running turn has been stopped, or has not.
    pub fn interrupted(&mut self, outcome: Result<(), String>)
        requires
            old(self).wf(),
        ensures
            final(self)@ == (match plain_outcome(outcome) {
                Ok(_) => old(self)@,
                Err(error) => old(self)@.with_error("Could not interrupt: "@ + error),
            }),
            final(self).wf(),
    {
        if let Err(error) = outcome {
            self.report(join("Could not interrupt: ", error.as_str()));
        }
    }

    /// Answer the question that the agent is waiting on.
    pub fn answer_clarify(&mut self, answer: &str) -> (effects: Vec<Effect>)
        requires
            old(self).wf(),
        ensures
            final(self)@ == old(self)@.answer_clarify(answer@).state,
            effects_view(effects@) == old(self)@.answer_clarify(answer@).effects,
            final(self).wf(),
    {
        proof {
            reveal(AppView::answer_clarify);
        }
        let request_id: String = match &self.pending_clarify {
            Some(clarify) => clarify.request_id.clone(),
            None => {
                return nothing();
            },
        };
        let answer: String = trim(answer);
        if answer.as_str().is_empty() {
            return nothing();
        }
        self.pending_clarify = None;
        let mut effects: Vec<Effect> = only(Effect::FinishTurn);
        add_effect(&mut effects, Effect::BeginTurn(answer.clone()));
        add_effect(&mut effects, Effect::ScheduleSave);
        add_effect(&mut effects, Effect::Respond { request_id, answer });
        effects
    }

    /// An answer has reached the backend, or has not.
    pub fn clarify_answered(&mut self, outcome: Result<(), String>) -> (effects: Vec<Effect>)
        requires
            old(self).wf(),
        ensures
            match plain_outcome(outcome) {
                Ok(_) => final(self)@ == old(self)@ && effects_view(effects@) == Seq::<
                    EffectView,
                >::empty(),
                Err(error) => final(self)@ == old(self)@.with_error("Could not answer: "@ + error)
                    && effects_view(effects@) == seq![EffectView::FinishTurn],
            },
            final(self).wf(),
    {
        match outcome {
            Ok(_) => nothing(),
            Err(error) => {
                self.report(join("Could not answer: ", error.as_str()));
                only(Effect::FinishTurn)
            },
        }
    }

    /// Dismiss the question that the agent is waiting on.
    pub fn dismiss_clarify(&mut self) -> (effects: Vec<Effect>)
        requires
            old(self).wf(),
        ensures
            final(self)@ == old(self)@.dismiss_clarify().state,
            effects_view(effects@) == old(self)@.dismiss_clarify().effects,
            final(self).wf(),
    {
        match self.pending_clarify.take() {
            Some(clarify) => only(Effect::Dismiss { request_id: clarify.request_id }),
            None => nothing(),
        }
    }

    /// A dismissal has reached the backend, or has not.
    pub fn clarify_dismissed(&mut self, outcome: Result<(), String>)
        requires
            old(self).wf(),
        ensures
            final(self)@ == (match plain_outcome(outcome) {
                Ok(_) => old(self)@,
                Err(error) => old(self)@.with_error("Could not dismiss clarify: "@ + error),
            }),
            final(self).wf(),
    {
        if let Err(error) = outcome {
            self.report(join("Could not dismiss clarify: ", error.as_str()));
        }
    }

    // -- the queue ------------------------------------------------------------------

    fn queue_position(&self, id: &str) -> (place: Option<usize>)
        ensures
            queue_place(self@.queue, id@) == (match place {
                Some(place) => Some(place as int),
                None => None,
            }),
            place matches Some(place) ==> place < self.pending_queue@.len(),
    {
        let ghost all = queue_view(self.pending_queue@);
        let mut index: usize = 0;
        proof {
            assert(all.skip(0) =~= all);
        }
        while index < self.pending_queue.len()
            invariant
                all == queue_view(self.pending_queue@),
                index <= self.pending_queue@.len(),
                queue_place(all, id@) == (match queue_place(all.skip(index as int), id@) {
                    Some(place) => Some(place + index),
                    None => None,
                }),
            decreases self.pending_queue@.len() - index,
        {
            assert(all.skip(index as int)[0] == self.pending_queue@[index as int]@);
            if same_text(self.pending_queue[index].id.as_str(), id) {
                return Some(index);
            }
            proof {
                assert(all.skip(index as int).drop_first() =~= all.skip(index + 1));
            }
            index += 1;
        }
        None
    }

    /// Take the prompt at one place out of the queue.
    pub(crate) fn take_queued(&mut self, place: usize) -> (item: QueuedPrompt)
        requires
            old(self).wf(),
            place < old(self).pending_queue@.len(),
        ensures
            final(self)@ == old(self)@.without_queued(place as int),
            item@ == old(self)@.queue[place as int],
            final(self).wf(),
    {
        let ghost waiting = self.pending_queue@;
        let item: QueuedPrompt = self.pending_queue.remove(place);
        assert(queue_view(self.pending_queue@) =~= queue_view(waiting).remove(place as int));
        item
    }

    /// Send a waiting prompt now.
    pub fn send_queued_now(&mut self, id: &str) -> (effects: Vec<Effect>)
        requires
            old(self).wf(),
        ensures
            final(self)@ == old(self)@.send_queued_now(id@).state,
            effects_view(effects@) == old(self)@.send_queued_now(id@).effects,
            final(self).wf(),
    {
        let place: usize = match self.queue_position(id) {
            Some(place) => place,
            None => {
                return nothing();
            },
        };
        let item: QueuedPrompt = self.take_queued(place);
        let live: Option<String> = copy_text(&self.live_session_id);
        match live {
            None => {
                self.report(join(self.backend_display_name(), " session is not ready yet."));
                nothing()
            },
            Some(live) => if self.conversation.sending {
                only(Effect::Interrupt { session_id: live, queued: Some(item) })
            } else {
                let QueuedPrompt { id: _, text, attachments } = item;
                self.perform_send(text, &attachments, live)
            },
        }
    }

    /// The turn before a waiting prompt has been stopped, or has not.
    pub fn interrupted_for(&mut self, item: QueuedPrompt, outcome: Result<(), String>) -> (effects:
        Vec<Effect>)
        requires
            old(self).wf(),
        ensures
            final(self)@ == old(self)@.interrupted_for(item@, plain_outcome(outcome)).state,
            effects_view(effects@) == old(self)@.interrupted_for(
                item@,
                plain_outcome(outcome),
            ).effects,
            final(self).wf(),
    {
        match outcome {
            Err(error) => {
                self.report(join("Could not interrupt before sending queued: ", error.as_str()));
                nothing()
            },
            Ok(_) => {
                let live: Option<String> = copy_text(&self.live_session_id);
                match live {
                    Some(live) => {
                        let QueuedPrompt { id: _, text, attachments } = item;
                        self.perform_send(text, &attachments, live)
                    },
                    None => nothing(),
                }
            },
        }
    }

    /// Take a prompt out of the queue.
    pub fn cancel_queued(&mut self, id: &str)
        requires
            old(self).wf(),
        ensures
            final(self)@ == (AppView {
                queue: old(self)@.queue.filter(|queued: QueuedView| queued.id != id@),
                ..old(self)@
            }),
            final(self).wf(),
    {
        let mut waiting: Vec<QueuedPrompt> = Vec::new();
        core::mem::swap(&mut self.pending_queue, &mut waiting);
        let ghost all = waiting@;
        let ghost others = |queued: QueuedView| queued.id != id@;
        let mut kept: Vec<QueuedPrompt> = Vec::new();
        proof {
            reveal(Seq::filter);
            assert(queue_view(all).take(0) =~= Seq::<QueuedView>::empty());
            assert(queue_view(kept@) =~= Seq::<QueuedView>::empty());
        }
        for item in iter: waiting
            invariant
                iter.seq() == all,
                others == (|queued: QueuedView| queued.id != id@),
                queue_view(kept@) == queue_view(all).take(iter.index()).filter(others),
        {
            let ghost before = kept@;
            let ghost index = iter.index();
            let ghost this = item@;
            if !same_text(item.id.as_str(), id) {
                kept.push(item);
                assert(queue_view(kept@) =~= queue_view(before).push(this));
            }
            proof {
                reveal(Seq::filter);
                let longer = queue_view(all).take(index + 1);
                assert(longer.drop_last() =~= queue_view(all).take(index));
                assert(longer.last() == this);
            }
        }
        assert(queue_view(all).take(all.len() as int) =~= queue_view(all));
        self.pending_queue = kept;
    }

    /// Put a waiting prompt back into the composer.
    pub fn edit_queued(&mut self, id: &str)
        requires
            old(self).wf(),
        ensures
            final(self)@ == old(self)@.edit_queued(id@),
            final(self).wf(),
    {
        if let Some(place) = self.queue_position(id) {
            let QueuedPrompt { id: _, text, attachments } = self.take_queued(place);
            self.set_composer(text, attachments);
        }
    }

    // -- attachments ------------------------------------------------------------------

    /// Which of `paths` are to be attached: each that is not empty and not attached yet,
    /// without the white space around it, once.
    pub fn paths_to_attach(&self, paths: &Vec<String>) -> (wanted: Vec<String>)
        ensures
            wanted@.map_values(|path: String| path@) == paths_wanted(
                attached_paths(self@.composer_attachments),
                paths@.map_values(|path: String| path@),
            ),
    {
        let ghost asked = paths@.map_values(|path: String| path@);
        let ghost attached = attached_paths(self@.composer_attachments);
        let mut wanted: Vec<String> = Vec::new();
        let mut index: usize = 0;
        proof {
            assert(asked.take(0) =~= Seq::<Seq<char>>::empty());
            assert(wanted@.map_values(|path: String| path@) =~= Seq::<Seq<char>>::empty());
        }
        while index < paths.len()
            invariant
                asked == paths@.map_values(|path: String| path@),
                attached == attached_paths(self@.composer_attachments),
                index <= paths@.len(),
                wanted@.map_values(|path: String| path@) == paths_wanted(
                    attached,
                    asked.take(index as int),
                ),
            decreases paths@.len() - index,
        {
            let path: String = trim(paths[index].as_str());
            let ghost before = wanted@.map_values(|path: String| path@);
            let known: bool = self.is_attached(path.as_str()) || contains_text(
                &wanted,
                path.as_str(),
            );
            if !path.as_str().is_empty() && !known {
                wanted.push(path);
                assert(wanted@.map_values(|path: String| path@) =~= before.push(path@));
            }
            proof {
                let longer = asked.take(index + 1);
                assert(longer.drop_last() =~= asked.take(index as int));
                assert(longer.last() == paths@[index as int]@);
            }
            index += 1;
        }
        assert(asked.take(asked.len() as int) =~= asked);
        wanted
    }

    fn is_attached(&self, path: &str) -> (attached: bool)
        ensures
            attached == attached_paths(self@.composer_attachments).contains(path@),
    {
        let ghost all = attached_paths(self@.composer_attachments);
        let mut index: usize = 0;
        while index < self.composer_attachments.len()
            invariant
                all == attached_paths(self@.composer_attachments),
                index <= self.composer_attachments@.len(),
                forall|i: int| 0 <= i < index ==> #[trigger] all[i] != path@,
            decreases self.composer_attachments@.len() - index,
        {
            assert(all[index as int] == self.composer_attachments@[index as int].path@);
            if same_text(self.composer_attachments[index].path.as_str(), path) {
                return true;
            }
            index += 1;
        }
        false
    }

    /// Attach files to the prompt.
    pub fn add_attachments(&mut self, attachments: Vec<ComposerAttachment>)
        requires
            old(self).wf(),
        ensures
            final(self)@ == (AppView {
                composer_attachments: old(self)@.composer_attachments + attachments_view(
                    attachments@,
                ),
                ..old(self)@
            }),
            final(self).wf(),
    {
        let ghost before = self.composer_attachments@;
        let ghost added = attachments@;
        let mut attachments: Vec<ComposerAttachment> = attachments;
        self.composer_attachments.append(&mut attachments);
        assert(attachments_view(self.composer_attachments@) =~= attachments_view(before)
            + attachments_view(added));
    }

    /// Take a file off the prompt.
    pub fn remove_attachment(&mut self, id: &str)
        requires
            old(self).wf(),
        ensures
            final(self)@ == (AppView {
                composer_attachments: old(self)@.composer_attachments.filter(
                    |attachment: AttachmentView| attachment.id != id@,
                ),
                ..old(self)@
            }),
            final(self).wf(),
    {
        let ghost all = self.composer_attachments@;
        let ghost others = |attachment: AttachmentView| attachment.id != id@;
        let mut kept: Vec<ComposerAttachment> = Vec::new();
        let mut index: usize = 0;
        proof {
            reveal(Seq::filter);
            assert(attachments_view(all).take(0) =~= Seq::<AttachmentView>::empty());
            assert(attachments_view(kept@) =~= Seq::<AttachmentView>::empty());
        }
        while index < self.composer_attachments.len()
            invariant
                *self == *old(self),
                all == self.composer_attachments@,
                index <= all.len(),
                others == (|attachment: AttachmentView| attachment.id != id@),
                attachments_view(kept@) == attachments_view(all).take(index as int).filter(others),
            decreases all.len() - index,
        {
            let ghost before = kept@;
            if !same_text(self.composer_attachments[index].id.as_str(), id) {
                kept.push(self.composer_attachments[index].clone());
                assert(attachments_view(kept@) =~= attachments_view(before).push(
                    all[index as int]@,
                ));
            }
            proof {
                reveal(Seq::filter);
                let longer = attachments_view(all).take(index + 1);
                assert(longer.drop_last() =~= attachments_view(all).take(index as int));
                assert(longer.last() == all[index as int]@);
            }
            index += 1;
        }
        assert(attachments_view(all).take(all.len() as int) =~= attachments_view(all));
        self.composer_attachments = kept;
    }
}

/// The paths of attached files.
pub open spec fn attached_paths(attachments: Seq<AttachmentView>) -> Seq<Seq<char>> {
    attachments.map_values(|attachment: AttachmentView| attachment.path)
}

/// Which of `paths` are to be attached to a prompt that has `attached`.
pub open spec fn paths_wanted(attached: Seq<Seq<char>>, paths: Seq<Seq<char>>) -> Seq<Seq<char>>
    decreases paths.len(),
{
    if paths.len() == 0 {
        seq![]
    } else {
        let earlier = paths_wanted(attached, paths.drop_last());
        let path = trimmed(paths.last());
        if path.len() == 0 || attached.contains(path) || earlier.contains(path) {
            earlier
        } else {
            earlier.push(path)
        }
    }
}

fn contains_text(list: &Vec<String>, text: &str) -> (found: bool)
    ensures
        found == list@.map_values(|item: String| item@).contains(text@),
{
    let ghost all = list@.map_values(|item: String| item@);
    let mut index: usize = 0;
    while index < list.len()
        invariant
            all == list@.map_values(|item: String| item@),
            index <= list@.len(),
            forall|i: int| 0 <= i < index ==> #[trigger] all[i] != text@,
        decreases list@.len() - index,
    {
        assert(all[index as int] == list@[index as int]@);
        if same_text(list[index].as_str(), text) {
            return true;
        }
        index += 1;
    }
    false
}

} // verus!
