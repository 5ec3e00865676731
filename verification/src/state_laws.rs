//! What holds of the application's state across several operations.

use crate::effects::EffectView;
use crate::events::{EventView, FoldChange};
use crate::models::{BackendKind, ConversationView, MessageView, SessionIdsView, SessionView, Stamp};
use crate::prompts::submitted;
use crate::sessions::key_of;
use crate::state::AppView;
use crate::words::trimmed;
use vstd::prelude::*;

verus! {

/// A result that belongs to a conversation no longer on screen changes nothing.
pub proof fn a_stale_result_changes_nothing(
    state: AppView,
    generation: u64,
    session_id: Seq<char>,
    profile: Option<Seq<char>>,
    backend: BackendKind,
    ids: Result<SessionIdsView, Seq<char>>,
    messages: Result<Seq<MessageView>, Seq<char>>,
    now: Stamp,
)
    ensures
        !state.is_current(generation, Some(session_id)) ==> state.session_resumed(
            generation,
            session_id,
            ids,
        ) == state.done() && state.messages_loaded(generation, session_id, backend, messages)
            == state.done(),
        !state.is_current(generation, None) ==> state.chat_created(
            generation,
            profile,
            backend,
            ids,
            now,
        ) == state.done(),
{
}

/// Bringing another conversation on screen makes every result that is still in flight
/// for the one before it stale.
pub proof fn a_new_view_outdates_the_old(
    state: AppView,
    session: SessionView,
    expected: Option<Seq<char>>,
    deleted: bool,
    now: Stamp,
)
    ensures
        !state.resume_session(session).state.is_current(state.generation, expected),
        !state.start_fresh_chat().state.is_current(state.generation, expected),
        !state.clear_cache().state.is_current(state.generation, expected),
        !state.disconnect().state.is_current(state.generation, expected),
        state.selected is Some && state.selected->0.id == session.id ==> !state.hide_session(
            session,
            deleted,
            now,
        ).state.is_current(state.generation, expected),
        state.resume_session(session).state.is_current(
            state.resume_session(session).state.generation,
            Some(session.id),
        ),
{
    reveal(AppView::resume_session);
    reveal(AppView::start_fresh_chat);
    reveal(AppView::connect_gateway);
    reveal(AppView::remove_visible_session);
}

/// While a session is being opened, nothing that belongs to a turn reaches the
/// conversation; once it is attached to, its own traffic does.
pub proof fn an_opening_session_holds_traffic_off(
    state: AppView,
    session: SessionView,
    message: Seq<char>,
    ids: SessionIdsView,
)
    ensures
        ({
            let opening = state.resume_session(session).state;
            &&& opening.handle_event(EventView::Turn) == opening.done()
            &&& opening.handle_event(EventView::TurnFailed(message)) == opening.done()
            &&& opening.attached(ids).handle_event(EventView::Turn) == opening.attached(ids).doing(
                EffectView::Fold,
            )
        }),
        ({
            let fresh = state.start_fresh_chat().state;
            fresh.handle_event(EventView::Turn) == fresh.doing(EffectView::Fold)
        }),
{
    reveal(AppView::resume_session);
    reveal(AppView::start_fresh_chat);
    reveal(AppView::connect_gateway);
}

/// A quiet refresh never starts a reconnect, and leaves the connection as it is.
pub proof fn a_quiet_refresh_never_reconnects(state: AppView)
    ensures
        state.refresh_sessions(false).state.connection == state.connection,
        state.refresh_sessions(false).state.transport_ready == state.transport_ready,
        state.refresh_quietly().state.connection == state.connection,
        forall|i: int|
            0 <= i < state.refresh_sessions(false).effects.len() ==> !(
            #[trigger] state.refresh_sessions(false).effects[i] is Probe),
        forall|i: int|
            0 <= i < state.refresh_quietly().effects.len() ==> !(
            #[trigger] state.refresh_quietly().effects[i] is Probe),
{
    reveal(AppView::refresh_sessions);
    reveal(AppView::refresh_quietly);
}

/// A refresh that the user asks for restores a dead transport.
pub proof fn an_explicit_refresh_restores_a_dead_transport(state: AppView)
    requires
        !state.transport_ready,
    ensures
        state.refresh_sessions(true) == state.connect(),
{
    reveal(AppView::refresh_sessions);
}

/// One attempt to connect is made at a time.
pub proof fn connecting_is_not_stacked(state: AppView)
    ensures
        state.connect().state.connect() == state.connect().state.done(),
{
    reveal(AppView::connect);
}

/// While a session is on screen, a prompt is never sent into a new chat: no session is
/// created for it.
pub proof fn a_prompt_never_leaves_the_session_on_screen(state: AppView, id: Seq<char>)
    requires
        state.session_to_wait_for() is Some,
    ensures
        forall|i: int|
            0 <= i < state.send_composer(id).effects.len() ==> !(
            #[trigger] state.send_composer(id).effects[i] is Create),
        state.send_composer(id).state.held is Some && state.held is None
            ==> state.send_composer(id).state.held->0.session == state.session_to_wait_for(),
{
    reveal(AppView::resume_session);
    reveal(AppView::connect_gateway);
    reveal(AppView::perform_send);
    reveal(AppView::answer_clarify);
}

/// A prompt that is held for one conversation is not sent into another, and stays held
/// for its own.
pub proof fn a_held_prompt_waits_for_its_own_session(
    state: AppView,
    generation: u64,
    session_id: Seq<char>,
    profile: Option<Seq<char>>,
    backend: BackendKind,
    ids: SessionIdsView,
    now: Stamp,
)
    requires
        state.held is Some,
    ensures
        !state.holds_for_resumed(session_id, ids) ==> state.session_resumed(
            generation,
            session_id,
            Ok(ids),
        ).state.held == state.held,
        state.held->0.session is Some ==> state.chat_created(
            generation,
            profile,
            backend,
            Ok(ids),
            now,
        ).state.held == state.held,
{
    reveal(AppView::refresh_quietly);
    reveal(AppView::refresh_sessions);
}

/// A prompt that is held for the session on screen goes to that session as soon as it has
/// been attached to, and is held no longer.
pub proof fn a_held_prompt_goes_to_its_session(
    state: AppView,
    session_id: Seq<char>,
    ids: SessionIdsView,
)
    requires
        state.is_current(state.generation, Some(session_id)),
        state.holds_for(Some(session_id)),
    ensures
        ({
            let step = state.session_resumed(state.generation, session_id, Ok(ids));
            &&& step.state.held is None
            &&& step.effects.last() == (EffectView::Submit {
                session_id: ids.live_id,
                prompt: submitted(state.held->0.text, state.held->0.attachments),
            })
        }),
{
    reveal(AppView::perform_send);
    let attached = state.attached(ids);
    assert(attached.holds_for_resumed(session_id, ids));
    let sent = attached.sent_held(ids.live_id);
    let step = state.session_resumed(state.generation, session_id, Ok(ids));
    assert(step.effects == seq![EffectView::SaveCache] + sent.effects);
    assert(sent.effects.len() == 3);
    assert(step.effects.last() == sent.effects[2]);
}

/// A prompt that is sent while its session is not live reaches the session on screen, as it
/// was typed, once that session has been resumed.
pub proof fn a_prompt_reaches_the_session_on_screen(
    state: AppView,
    id: Seq<char>,
    ids: SessionIdsView,
)
    requires
        state.clarify is None,
        state.live is None || !state.transport_ready,
        state.selected is Some,
        state.stored is None || state.stored == Some(state.selected->0.id),
        trimmed(state.composer_text).len() > 0 || state.composer_attachments.len() > 0,
    ensures
        ({
            let waiting = state.send_composer(id).state;
            let session = state.selected->0.id;
            let step = waiting.session_resumed(waiting.generation, session, Ok(ids));
            &&& waiting.is_current(waiting.generation, Some(session))
            &&& step.state.held is None
            &&& step.state.live == Some(ids.live_id)
            &&& step.effects.last() == (EffectView::Submit {
                session_id: ids.live_id,
                prompt: submitted(trimmed(state.composer_text), state.composer_attachments),
            })
        }),
{
    reveal(AppView::resume_session);
    reveal(AppView::connect_gateway);
    reveal(AppView::perform_send);
    let waiting = state.send_composer(id).state;
    let session = state.selected->0.id;
    assert(waiting.holds_for(Some(session)));
    a_held_prompt_goes_to_its_session(waiting, session, ids);
}

/// What was typed is not lost where a session cannot be resumed or created: it is in the
/// composer again.
pub proof fn a_refused_prompt_goes_back_to_the_composer(
    state: AppView,
    error: Seq<char>,
    profile: Option<Seq<char>>,
    backend: BackendKind,
    now: Stamp,
)
    requires
        state.held is Some,
    ensures
        state.held->0.session is Some ==> ({
            let session = state.held->0.session->0;
            let after = state.session_resumed(state.generation, session, Err(error)).state;
            state.is_current(state.generation, Some(session)) ==> after.composer_text
                == state.held->0.text && after.composer_attachments == state.held->0.attachments
                && after.held is None && after.last_error == Some(error)
        }),
        state.held->0.session is None && state.selected is None ==> ({
            let after = state.chat_created(
                state.generation,
                profile,
                backend,
                Err(error),
                now,
            ).state;
            after.composer_text == state.held->0.text && after.composer_attachments
                == state.held->0.attachments && after.held is None
        }),
{
}

/// A prompt that is sent while its session is not live is held as it was typed.
pub proof fn a_prompt_without_a_session_is_held(state: AppView, id: Seq<char>)
    requires
        state.clarify is None,
        state.live is None,
        trimmed(state.composer_text).len() > 0 || state.composer_attachments.len() > 0,
        state.session_to_wait_for() is None || state.row_to_resume(
            state.session_to_wait_for()->0,
        ) is Some,
    ensures
        ({
            let after = state.send_composer(id).state;
            &&& after.held is Some
            &&& after.held->0.session == state.session_to_wait_for()
            &&& after.held->0.text == trimmed(state.composer_text)
            &&& after.held->0.attachments == state.composer_attachments
        }),
{
    reveal(AppView::resume_session);
    reveal(AppView::start_fresh_chat);
    reveal(AppView::connect_gateway);
}

/// A prompt that is sent while a turn is running waits at the end of the queue.
pub proof fn a_prompt_during_a_turn_is_queued(state: AppView, id: Seq<char>)
    requires
        state.clarify is None,
        state.live is Some,
        state.transport_ready,
        state.conversation.sending,
        trimmed(state.composer_text).len() > 0 || state.composer_attachments.len() > 0,
    ensures
        state.send_composer(id).effects.len() == 0,
        state.send_composer(id).state.queue.len() == state.queue.len() + 1,
        state.send_composer(id).state.queue.last().text == trimmed(state.composer_text),
        state.send_composer(id).state.queue.drop_last() == state.queue,
        state.send_composer(id).state.composer_text.len() == 0,
{
    assert(state.send_composer(id).state.queue.drop_last() =~= state.queue);
}

proof fn lemma_turn_finished_sends_next(state: AppView, now: Stamp)
    requires
        state.queue.len() > 0,
        state.live is Some,
    ensures
        ({
            let step = state.turn_finished(now);
            &&& step.state.queue == state.queue.drop_first()
            &&& step.state.clarify is None
            &&& step.effects.len() > 0
            &&& step.effects.last() == (EffectView::Submit {
                session_id: state.live->0,
                prompt: submitted(state.queue[0].text, state.queue[0].attachments),
            })
        }),
{
    reveal(AppView::save_messages);
    reveal(AppView::refresh_quietly);
    reveal(AppView::refresh_sessions);
    reveal(AppView::send_next_queued);
    reveal(AppView::perform_send);
    let saved = (AppView { clarify: None, ..state }).save_messages(now);
    let listed = saved.followed_by(saved.state.refresh_quietly());
    assert(listed.state.queue == state.queue && listed.state.live == state.live);
    let next = listed.state.send_next_queued();
    assert(next.effects.len() == 3);
    assert(state.turn_finished(now).effects == listed.effects + next.effects);
    assert(state.turn_finished(now).effects.last() == next.effects[2]);
    assert(state.queue.remove(0) =~= state.queue.drop_first());
}

/// When an event ends the turn, the question that was open is dropped and the prompt that
/// has waited longest goes to the session that is live; the others keep waiting in their
/// order.
pub proof fn a_finished_turn_sends_the_next_prompt(
    state: AppView,
    conversation: ConversationView,
    change: FoldChange,
    now: Stamp,
)
    requires
        state.queue.len() > 0,
        state.live is Some,
        state.conversation.sending,
        !conversation.sending,
    ensures
        state.handle_event(EventView::Turn) == state.doing(EffectView::Fold),
        ({
            let left = AppView { conversation, ..state };
            let step = left.event_folded(change, state.conversation.sending, now);
            &&& step.state.queue == state.queue.drop_first()
            &&& step.state.clarify is None
            &&& step.effects.last() == (EffectView::Submit {
                session_id: state.live->0,
                prompt: submitted(state.queue[0].text, state.queue[0].attachments),
            })
        }),
{
    let left = AppView { conversation, ..state };
    let folded = left.folded(change);
    lemma_turn_finished_sends_next(folded.state, now);
    let finished = folded.state.turn_finished(now);
    let step = left.event_folded(change, state.conversation.sending, now);
    assert(step.effects == folded.effects + finished.effects);
    assert(step.effects.last() == finished.effects.last());
}

/// A turn that failed says so in the transcript, and then ends like any other: the question
/// is dropped and the next prompt goes.
pub proof fn a_failed_turn_sends_the_next_prompt(
    state: AppView,
    message: Seq<char>,
    conversation: ConversationView,
    now: Stamp,
)
    requires
        state.queue.len() > 0,
        state.live is Some,
    ensures
        ({
            let failed = state.handle_event(EventView::TurnFailed(message));
            let step = (AppView { conversation, ..failed.state }).turn_finished(now);
            &&& failed.effects == seq![
                EffectView::CompleteMessage("Error: "@ + message),
                EffectView::AfterTurn,
            ]
            &&& step.state.queue == state.queue.drop_first()
            &&& step.state.clarify is None
            &&& step.effects.last() == (EffectView::Submit {
                session_id: state.live->0,
                prompt: submitted(state.queue[0].text, state.queue[0].attachments),
            })
        }),
{
    let failed = state.handle_event(EventView::TurnFailed(message));
    assert(failed.effects =~= seq![
        EffectView::CompleteMessage("Error: "@ + message),
        EffectView::AfterTurn,
    ]);
    lemma_turn_finished_sends_next(AppView { conversation, ..failed.state }, now);
}

/// While the turn goes on, nothing that is folded into it touches the queue or the
/// question.
pub proof fn a_running_turn_keeps_the_queue_waiting(
    state: AppView,
    change: FoldChange,
    was_sending: bool,
    now: Stamp,
)
    requires
        state.conversation.sending,
    ensures
        state.event_folded(change, was_sending, now).state.queue == state.queue,
        state.event_folded(change, was_sending, now).state.clarify == state.clarify,
{
}

/// A session that was archived or deleted does not come back with the next reading of
/// the list.
pub proof fn a_hidden_session_stays_away(
    state: AppView,
    session: SessionView,
    deleted: bool,
    show_progress: bool,
    expects_history: bool,
    backend_id: Seq<char>,
    listed: Seq<SessionView>,
    now: Stamp,
    index: int,
)
    requires
        expects_history,
        0 <= index < state.hide_session(session, deleted, now).state.sessions_listed(
            show_progress,
            expects_history,
            backend_id,
            Ok(listed),
            now,
        ).state.sessions.len(),
    ensures
        state.hide_session(session, deleted, now).state.sessions_listed(
            show_progress,
            expects_history,
            backend_id,
            Ok(listed),
            now,
        ).state.sessions[index].id != session.id,
{
    reveal(AppView::remove_visible_session);
    let hidden = state.hide_session(session, deleted, now).state;
    let own = state.settings.backend_kind.id_of();
    let key = key_of(own, session.id);
    assert(hidden.settings == state.settings);
    assert(hidden.cache.deleted.contains(key) || hidden.cache.archived.contains(key));
    let shown = |row: SessionView| hidden.cache.shows(row, own);
    listed.lemma_filter_pred(shown, index);
}

/// However much text streams in, one repaint is scheduled at a time.
pub proof fn streamed_text_schedules_one_repaint(state: AppView, was_sending: bool, now: Stamp)
    requires
        state.conversation.sending,
    ensures
        ({
            let once = state.event_folded(FoldChange::Streaming, was_sending, now).state;
            &&& once.repaint_scheduled
            &&& once.event_folded(FoldChange::Streaming, true, now) == once.doing(
                EffectView::ScheduleSave,
            )
        }),
{
}

/// A backend that was switched off stays off when the application starts again, and one
/// that is switched on is the only one that is on.
pub proof fn switches_survive_a_restart(
    state: AppView,
    kind: BackendKind,
    settings: crate::settings::SettingsView,
    caps: crate::state::BackendCaps,
    other: BackendKind,
)
    requires
        settings.backend_kind == kind,
    ensures
        !state.disable_backend(kind).state.settings.enabled.contains(kind),
        state.settings.backend_kind == kind ==> state.disable_backend(kind).state.bootstrap().state
            == state.disable_backend(kind).state,
        state.switch_backend(kind, settings, caps).state.settings.enabled.contains(other)
            <==> other == kind,
        state.switch_backend(kind, settings, caps).state.settings.backend_kind == kind,
{
    reveal(AppView::connect);
}

/// A transport that fails does not leave a question on screen that nobody waits on.
pub proof fn a_dead_stream_drops_the_question(state: AppView, message: Seq<char>)
    ensures
        state.handle_event(EventView::Disconnected).state.clarify is None,
        state.handle_event(EventView::Failed(message)).state.clarify is None,
        !state.handle_event(EventView::Failed(message)).state.transport_ready,
        state.handle_event(EventView::Failed(message)).state.last_error == Some(message),
{
}

} // verus!
