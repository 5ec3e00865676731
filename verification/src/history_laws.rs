//! What is shown and kept of fetched messages, sessions and events.

use crate::effects::EffectView;
use crate::events::{labelled, EventView, FoldChange};
use crate::models::{BackendKind, MessageRole, MessageView, SessionView, Stamp};
use crate::sending_laws::the_longest_waiting_prompt_goes_first;
use crate::sessions::{is_tool_payload, owner_of, shown, visible_of, without_session, CacheView};
use crate::state::{AppView, LinkView};
use crate::word_laws::{is_blank, lemma_trim_start};
use crate::words::{begins_with, whitespace};
use vstd::prelude::*;

verus! {

// -- messages ------------------------------------------------------------------------

/// Whether a fetched message is drawn: it is not a tool's, and there is something to draw,
/// also once a stream that will never end has been stopped.
pub open spec fn is_drawn(message: MessageView) -> bool {
    &&& message.role != MessageRole::Tool
    &&& !is_tool_payload(message.content)
    &&& if message.is_streaming && message.stalled {
        !message.empty_when_stopped
    } else {
        !message.empty_shell
    }
}

/// Whether `one` shows what `message` says: the same words, by the same writer, with the same
/// tools and files.
pub open spec fn says_the_same(one: MessageView, message: MessageView) -> bool {
    &&& one.id == message.id
    &&& one.role == message.role
    &&& one.content == message.content
    &&& one.timestamp == message.timestamp
    &&& one.tool_calls == message.tool_calls
    &&& one.attachments == message.attachments
    &&& one.is_streaming == (message.is_streaming && !message.stalled)
}

/// Of a transcript exactly the messages that are drawn are shown, in their order, and each
/// says what it said.
pub proof fn shown_messages_keep_their_order(messages: Seq<MessageView>)
    ensures
        visible_of(messages).len() == messages.filter(
            |message: MessageView| is_drawn(message),
        ).len(),
        forall|i: int|
            0 <= i < visible_of(messages).len() ==> says_the_same(
                #[trigger] visible_of(messages)[i],
                messages.filter(|message: MessageView| is_drawn(message))[i],
            ),
    decreases messages.len(),
{
    reveal(Seq::filter);
    let drawn = |message: MessageView| is_drawn(message);
    let how = |message: MessageView| shown(message);
    if messages.len() > 0 {
        let rest = messages.drop_last();
        shown_messages_keep_their_order(rest);
        assert(visible_of(messages) == match how(messages.last()) {
            Some(one) => visible_of(rest).push(one),
            None => visible_of(rest),
        });
    } else {
        assert(visible_of(messages).len() == 0);
    }
}

/// One more message adds itself at the end of what is shown, or nothing.
pub proof fn a_fetched_message_is_shown_last(messages: Seq<MessageView>, message: MessageView)
    ensures
        !is_drawn(message) ==> visible_of(messages.push(message)) == visible_of(messages),
        is_drawn(message) ==> visible_of(messages.push(message)).len() == visible_of(
            messages,
        ).len() + 1,
        is_drawn(message) ==> visible_of(messages.push(message)).drop_last() == visible_of(
            messages,
        ),
        is_drawn(message) ==> says_the_same(visible_of(messages.push(message)).last(), message),
{
    let how = |message: MessageView| shown(message);
    let all = messages.push(message);
    assert(all.drop_last() =~= messages);
    assert(visible_of(all) == match how(all.last()) {
        Some(one) => visible_of(messages).push(one),
        None => visible_of(messages),
    });
    if is_drawn(message) {
        assert(visible_of(all).drop_last() =~= visible_of(messages));
    }
}

/// A stream that stalled ended when the last thing in it happened: the last tool call, or
/// the message itself. A message that ended with tools or without words, and without a time,
/// gets that time too; every other time stays as it is.
pub proof fn an_ended_message_has_a_time(message: MessageView)
    requires
        is_drawn(message),
    ensures
        shown(message) is Some,
        ({
            let last = if message.tool_calls.len() > 0 {
                message.tool_calls.last().timestamp
            } else {
                message.timestamp
            };
            let one = shown(message)->0;
            &&& message.is_streaming && message.stalled ==> one.completed_at == Some(last)
            &&& message.is_streaming && !message.stalled ==> one == message
            &&& !message.is_streaming && message.completed_at is Some ==> one == message
            &&& !message.is_streaming && message.completed_at is None && (
            message.tool_calls.len() > 0 || message.content.len() == 0) ==> one.completed_at
                == Some(last)
            &&& !message.is_streaming && message.completed_at is None
                && message.tool_calls.len() == 0 && message.content.len() > 0 ==> one == message
        }),
{
}

/// Whether the first characters of `text` are those of `opening`.
pub open spec fn opens_with(text: Seq<char>, opening: Seq<char>) -> bool {
    &&& text.len() >= opening.len()
    &&& forall|i: int| 0 <= i < opening.len() ==> #[trigger] text[i] == opening[i]
}

/// What a tool answered is told by how it begins, behind any white space.
pub proof fn a_tools_answer_is_told_by_its_beginning(blank: Seq<char>, rest: Seq<char>)
    requires
        is_blank(blank),
        rest.len() > 0 ==> !whitespace(rest[0]),
    ensures
        is_tool_payload(blank + rest) <==> {
            ||| opens_with(rest, "{\"output\":"@)
            ||| opens_with(rest, "{\"error\":"@)
            ||| opens_with(rest, "{\"exit_code\":"@)
        },
{
    lemma_trim_start(blank, rest);
    lemma_opening(rest, "{\"output\":"@);
    lemma_opening(rest, "{\"error\":"@);
    lemma_opening(rest, "{\"exit_code\":"@);
}

proof fn lemma_opening(text: Seq<char>, opening: Seq<char>)
    ensures
        begins_with(text, opening) <==> opens_with(text, opening),
{
    if opens_with(text, opening) {
        assert(text.take(opening.len() as int) =~= opening);
    }
    if begins_with(text, opening) {
        assert forall|i: int| 0 <= i < opening.len() implies #[trigger] text[i] == opening[i] by {
            assert(text.take(opening.len() as int)[i] == text[i]);
        }
    }
}

// -- fetched messages ----------------------------------------------------------------------

/// Whether the last message on screen is still being written.
pub open spec fn reply_is_streaming(state: AppView) -> bool {
    state.conversation.messages.len() > 0 && state.conversation.messages[
        state.conversation.messages.len() - 1
    ].is_streaming
}

/// When the messages of the session on screen arrive and nothing is being written into it,
/// exactly those of them that are drawn are merged into the conversation, once, and filed
/// under the session's key.
pub proof fn fetched_messages_are_merged(
    state: AppView,
    session: SessionView,
    backend: BackendKind,
    fetched: Seq<MessageView>,
)
    requires
        state.selected == Some(session),
        !reply_is_streaming(state),
    ensures
        ({
            let step = state.messages_loaded(state.generation, session.id, backend, Ok(fetched));
            let drawn = fetched.filter(|message: MessageView| is_drawn(message));
            let key = backend.id_of() + "::"@ + session.id;
            &&& step.effects.len() == 3
            &&& step.effects[0] is Merge
            &&& step.effects[0]->Merge_0.len() == drawn.len()
            &&& forall|i: int|
                0 <= i < drawn.len() ==> says_the_same(
                    #[trigger] step.effects[0]->Merge_0[i],
                    drawn[i],
                )
            &&& step.effects[1] == (EffectView::FileTranscript {
                key,
                messages: step.effects[0]->Merge_0,
            })
            &&& step.effects[2] == EffectView::SaveCache
            &&& step.state.cache == (CacheView {
                transcripts: state.cache.transcripts.insert(key),
                selected_session_id: Some(key),
                ..state.cache
            })
            &&& step.state == (AppView {
                cache: step.state.cache,
                cache_summary: step.state.cache_summary,
                ..state
            })
        }),
{
    shown_messages_keep_their_order(fetched);
}

/// While a reply is being written into the conversation, messages that arrive are filed but
/// not merged.
pub proof fn a_streaming_reply_is_not_merged_over(
    state: AppView,
    session: SessionView,
    backend: BackendKind,
    fetched: Seq<MessageView>,
)
    requires
        state.selected == Some(session),
        reply_is_streaming(state),
    ensures
        ({
            let step = state.messages_loaded(state.generation, session.id, backend, Ok(fetched));
            let drawn = fetched.filter(|message: MessageView| is_drawn(message));
            let key = backend.id_of() + "::"@ + session.id;
            &&& forall|i: int|
                0 <= i < step.effects.len() ==> !((#[trigger] step.effects[i]) is Merge)
            &&& step.effects.len() == 2
            &&& step.effects[0] is FileTranscript
            &&& step.effects[0]->FileTranscript_key == key
            &&& step.effects[0]->FileTranscript_messages.len() == drawn.len()
            &&& forall|i: int|
                0 <= i < drawn.len() ==> says_the_same(
                    #[trigger] step.effects[0]->FileTranscript_messages[i],
                    drawn[i],
                )
            &&& step.effects[1] == EffectView::SaveCache
            &&& step.state.cache == (CacheView {
                transcripts: state.cache.transcripts.insert(key),
                ..state.cache
            })
            &&& step.state == (AppView {
                cache: step.state.cache,
                cache_summary: step.state.cache_summary,
                ..state
            })
        }),
{
    shown_messages_keep_their_order(fetched);
}

/// Messages that could not be fetched leave everything as it is, and that is reported; those
/// of a session that is no longer on screen leave everything as it is.
pub proof fn messages_that_did_not_come_change_nothing(
    state: AppView,
    generation: u64,
    session_id: Seq<char>,
    backend: BackendKind,
    fetched: Seq<MessageView>,
    error: Seq<char>,
)
    ensures
        state.selected is Some && state.selected->0.id == session_id && generation
            == state.generation ==> state.messages_loaded(
            generation,
            session_id,
            backend,
            Err(error),
        ).state == (AppView { last_error: Some(error), ..state }) && state.messages_loaded(
            generation,
            session_id,
            backend,
            Err(error),
        ).effects.len() == 0,
        state.selected is None || state.selected->0.id != session_id || generation
            != state.generation ==> state.messages_loaded(
            generation,
            session_id,
            backend,
            Ok(fetched),
        ).state == state && state.messages_loaded(
            generation,
            session_id,
            backend,
            Ok(fetched),
        ).effects.len() == 0,
{
}

/// The messages on screen are filed under the key of the session on screen: by its backend
/// and its id where it is selected, else by the name that the connection knows it by.
pub proof fn the_screen_is_filed_under_its_session(state: AppView, now: Stamp)
    ensures
        ({
            let step = state.save_messages(now);
            let key = match state.selected {
                Some(session) => Some(
                    state.settings.backend_kind.id_of() + "::"@ + session.id,
                ),
                None => match state.stored {
                    Some(stored) => Some(stored),
                    None => state.live,
                },
            };
            &&& key is None ==> step.effects.len() == 0 && step.state == state
            &&& key matches Some(key) ==> {
                &&& step.effects.len() == 2
                &&& step.effects[0] == EffectView::StoreTranscript(key)
                &&& step.effects[1] == EffectView::SaveCache
                &&& step.state.cache.transcripts == state.cache.transcripts.insert(key)
                &&& step.state.cache.selected_session_id == Some(key)
                &&& step.state.cache.updated_at == Some(now)
                &&& step.state.cache.sessions == state.cache.sessions
                &&& step.state.cache.deleted == state.cache.deleted
                &&& step.state.cache.archived == state.cache.archived
                &&& step.state == (AppView {
                    cache: step.state.cache,
                    cache_summary: step.state.cache_summary,
                    ..state
                })
            }
        }),
{
    reveal(AppView::save_messages);
}

// -- sessions ------------------------------------------------------------------------------

/// The sessions of a backend are shown unless they are archived or deleted, here or there;
/// those from before backends were told apart are Hermes's.
pub proof fn a_session_is_shown_unless_it_was_put_away(
    cache: CacheView,
    session: SessionView,
    backend_id: Seq<char>,
)
    ensures
        cache.shows(session, backend_id) <==> {
            &&& session.backend_id == Some(backend_id) || session.backend_id is None
                && backend_id == "hermes"@
            &&& session.archived != Some(true)
            &&& !cache.archived.contains(backend_id + "::"@ + session.id)
            &&& !cache.deleted.contains(backend_id + "::"@ + session.id)
        },
{
}

/// One more session adds itself at the end of what is shown, or nothing.
pub proof fn a_listed_session_is_shown_last(
    cache: CacheView,
    sessions: Seq<SessionView>,
    session: SessionView,
    backend_id: Seq<char>,
)
    ensures
        cache.visible(seq![], backend_id).len() == 0,
        cache.shows(session, backend_id) ==> cache.visible(sessions.push(session), backend_id)
            == cache.visible(sessions, backend_id).push(session),
        !cache.shows(session, backend_id) ==> cache.visible(sessions.push(session), backend_id)
            == cache.visible(sessions, backend_id),
{
    reveal(Seq::filter);
    assert(sessions.push(session).drop_last() =~= sessions);
}

/// A list that was read takes the place of what was listed: exactly the sessions that are
/// shown, in the order in which they came; and the reading is over.
pub proof fn a_list_that_was_read_is_shown(
    state: AppView,
    show_progress: bool,
    backend_id: Seq<char>,
    fetched: Seq<SessionView>,
    now: Stamp,
    kept: SessionView,
)
    ensures
        ({
            let step = state.sessions_listed(show_progress, true, backend_id, Ok(fetched), now);
            let own = state.settings.backend_kind.id_of();
            &&& step.state.sessions == fetched.filter(
                |session: SessionView| state.cache.shows(session, own),
            )
            &&& !step.state.refresh_inflight
            &&& show_progress ==> !step.state.is_refreshing
            &&& !show_progress ==> step.state.is_refreshing == state.is_refreshing
            &&& step.effects.len() == 1
            &&& step.effects[0] == EffectView::SaveCache
            &&& step.state == (AppView {
                sessions: step.state.sessions,
                cache: step.state.cache,
                cache_summary: step.state.cache_summary,
                is_refreshing: step.state.is_refreshing,
                refresh_inflight: step.state.refresh_inflight,
                ..state
            })
            &&& step.state.cache.updated_at == Some(now)
            &&& step.state.cache.transcripts == state.cache.transcripts
            &&& step.state.cache.deleted == state.cache.deleted
            &&& step.state.cache.archived == state.cache.archived
            &&& step.state.cache.sessions.contains(kept) <==> {
                ||| step.state.sessions.contains(kept)
                ||| state.cache.sessions.contains(kept) && (if kept.backend_id is Some {
                    kept.backend_id->0
                } else {
                    "hermes"@
                }) != backend_id
            }
        }),
{
    let step = state.sessions_listed(show_progress, true, backend_id, Ok(fetched), now);
    let others = |session: SessionView| owner_of(session) != backend_id;
    let left = state.cache.sessions.filter(others);
    let own = state.settings.backend_kind.id_of();
    assert(step.state.sessions == fetched.filter(
        |session: SessionView| state.cache.shows(session, own),
    ));
    assert(step.state.cache.sessions == left + step.state.sessions);
    let all = step.state.cache.sessions;
    if all.contains(kept) {
        let i = choose|i: int| 0 <= i < all.len() && all[i] == kept;
        if i < left.len() {
            assert(left[i] == kept);
            state.cache.sessions.lemma_filter_pred(others, i);
            state.cache.sessions.lemma_filter_contains_rev(others, kept);
        } else {
            assert(step.state.sessions[i - left.len()] == kept);
        }
    }
    if step.state.sessions.contains(kept) {
        let i = choose|i: int| 0 <= i < step.state.sessions.len() && step.state.sessions[i] == kept;
        assert(all[left.len() + i] == kept);
    }
    if state.cache.sessions.contains(kept) && owner_of(kept) != backend_id {
        let i = choose|i: int|
            0 <= i < state.cache.sessions.len() && state.cache.sessions[i] == kept;
        state.cache.sessions.lemma_filter_contains(others, i);
        let j = choose|j: int| 0 <= j < left.len() && left[j] == kept;
        assert(all[j] == kept);
    }
}

/// A backend that keeps no history leaves the list alone. A list that could not be read is
/// reported, leaves the list alone, and a connection that stood is degraded by it.
pub proof fn a_list_that_was_not_read_stays(
    state: AppView,
    show_progress: bool,
    expects_history: bool,
    backend_id: Seq<char>,
    fetched: Seq<SessionView>,
    error: Seq<char>,
    now: Stamp,
)
    ensures
        ({
            let empty = state.sessions_listed(show_progress, false, backend_id, Ok(fetched), now);
            let failed = state.sessions_listed(
                show_progress,
                expects_history,
                backend_id,
                Err(error),
                now,
            );
            let refreshing = !show_progress && state.is_refreshing;
            &&& empty.effects.len() == 0
            &&& empty.state == (AppView {
                is_refreshing: refreshing,
                refresh_inflight: false,
                ..state
            })
            &&& failed.effects.len() == 0
            &&& failed.state == (AppView {
                is_refreshing: refreshing,
                refresh_inflight: false,
                last_error: Some(error),
                connection: if state.connection == LinkView::Connected {
                    LinkView::Degraded(error)
                } else {
                    state.connection
                },
                ..state
            })
        }),
{
}

/// A fetched session belongs to the backend it came from, and is not archived unless that
/// backend says so; nothing else of it changes.
pub proof fn a_fetched_session_belongs_to_its_backend(session: SessionView, backend_id: Seq<char>)
    ensures
        labelled(session, backend_id).backend_id == Some(backend_id),
        session.archived is Some ==> labelled(session, backend_id).archived == session.archived,
        session.archived is None ==> labelled(session, backend_id).archived == Some(false),
        labelled(session, backend_id) == (SessionView {
            backend_id: labelled(session, backend_id).backend_id,
            archived: labelled(session, backend_id).archived,
            ..session
        }),
{
}

/// Sessions that are removed from a list are those under the id, and the rest stay in order.
pub proof fn only_the_session_under_the_id_is_removed(
    sessions: Seq<SessionView>,
    session: SessionView,
    id: Seq<char>,
)
    ensures
        without_session(seq![], id).len() == 0,
        session.id == id ==> without_session(sessions.push(session), id) == without_session(
            sessions,
            id,
        ),
        session.id != id ==> without_session(sessions.push(session), id) == without_session(
            sessions,
            id,
        ).push(session),
{
    reveal(Seq::filter);
    assert(sessions.push(session).drop_last() =~= sessions);
}

/// A session that is put away is remembered as archived or as deleted, as it was asked for,
/// and nothing else of the cache changes.
pub proof fn a_session_is_put_away_as_asked(cache: CacheView, key: Seq<char>)
    ensures
        cache.hiding(key, true) == (CacheView { deleted: cache.deleted.insert(key), ..cache }),
        cache.hiding(key, false) == (CacheView { archived: cache.archived.insert(key), ..cache }),
{
}

/// The cache is summed up by how many sessions and transcripts are in it.
pub proof fn the_cache_is_summed_up(cache: CacheView)
    ensures
        exists|sessions: Seq<char>, transcripts: Seq<char>|
            crate::word_laws::number_of(sessions) == cache.sessions.len()
                && crate::word_laws::number_of(transcripts) == cache.transcripts.len()
                && cache.summary() == #[trigger] (sessions + " cached session(s), "@ + transcripts)
                + " cached transcript(s)"@,
{
    reveal(CacheView::summary);
    crate::word_laws::a_number_reads_as_itself(cache.sessions.len());
    crate::word_laws::a_number_reads_as_itself(cache.transcripts.len());
    let sessions = crate::words::decimal(cache.sessions.len());
    let transcripts = crate::words::decimal(cache.transcripts.len());
    assert(cache.summary() == (sessions + " cached session(s), "@ + transcripts)
        + " cached transcript(s)"@);
}

// -- events ---------------------------------------------------------------------------------

/// A stream that comes up is connected, clears the failure before it, and does nothing else.
pub proof fn a_stream_that_is_up_is_connected(state: AppView)
    ensures
        state.handle_event(EventView::Connected).effects.len() == 0,
        state.handle_event(EventView::Connected).state == (AppView {
            transport_ready: true,
            gateway_connecting: false,
            connection: LinkView::Connected,
            last_error: None,
            ..state
        }),
{
}

/// A stream that goes down leaves no question open and nothing connected; a failure is
/// reported, and one that was reported before is not covered up.
pub proof fn a_stream_that_is_down_is_not_connected(state: AppView, message: Seq<char>)
    ensures
        ({
            let closed = state.handle_event(EventView::Disconnected);
            let failed = state.handle_event(EventView::Failed(message));
            &&& closed.effects.len() == 0
            &&& closed.state == (AppView {
                transport_ready: false,
                gateway_connecting: false,
                clarify: None,
                connection: if state.connection == LinkView::Connected {
                    LinkView::Disconnected
                } else {
                    state.connection
                },
                ..state
            })
            &&& failed.effects.len() == 0
            &&& failed.state == (AppView {
                transport_ready: false,
                gateway_connecting: false,
                clarify: None,
                connection: LinkView::Failed(message),
                last_error: Some(message),
                ..state
            })
        }),
{
}

/// A session that reports itself is the live one; a question that is asked is the open one;
/// and a list that changed is read again, once at a time.
pub proof fn what_the_backend_reports_is_taken_in(
    state: AppView,
    id: Seq<char>,
    question: crate::state::ClarifyView,
)
    ensures
        state.handle_event(EventView::SessionInfo(id)).effects.len() == 0,
        state.handle_event(EventView::SessionInfo(id)).state == (AppView {
            live: Some(id),
            transport_ready: true,
            ..state
        }),
        state.handle_event(EventView::Clarify(question)).effects.len() == 0,
        state.handle_event(EventView::Clarify(question)).state == (AppView {
            clarify: Some(question),
            ..state
        }),
        state.refresh_inflight ==> state.handle_event(EventView::SessionsChanged).effects.len()
            == 0 && state.handle_event(EventView::SessionsChanged).state == state,
        !state.refresh_inflight ==> {
            let step = state.handle_event(EventView::SessionsChanged);
            &&& step.state == (AppView { refresh_inflight: true, ..state })
            &&& step.effects.len() == 1
            &&& step.effects[0] is ListSessions
            &&& !step.effects[0]->ListSessions_show_progress
            &&& step.effects[0]->ListSessions_expects_history == state.caps.session_history
            &&& step.effects[0]->ListSessions_config == state.config()
        },
{
    reveal(AppView::refresh_quietly);
    reveal(AppView::refresh_sessions);
}

/// What belongs to a turn is folded in where a session is live or none is being opened, and
/// dropped otherwise. A turn that fails says so in its reply and in the report, and ends.
pub proof fn a_turn_is_folded_into_its_own_session(state: AppView, message: Seq<char>)
    ensures
        state.live is Some || state.stored is None ==> {
            let turn = state.handle_event(EventView::Turn);
            let failed = state.handle_event(EventView::TurnFailed(message));
            &&& turn.state == state
            &&& turn.effects.len() == 1
            &&& turn.effects[0] == EffectView::Fold
            &&& failed.state == (AppView { last_error: Some(message), ..state })
            &&& failed.effects.len() == 2
            &&& failed.effects[0] == EffectView::CompleteMessage("Error: "@ + message)
            &&& failed.effects[1] == EffectView::AfterTurn
        },
        state.live is None && state.stored is Some ==> {
            let turn = state.handle_event(EventView::Turn);
            let failed = state.handle_event(EventView::TurnFailed(message));
            &&& turn.state == state && turn.effects.len() == 0
            &&& failed.state == state && failed.effects.len() == 0
        },
{
}

/// Whatever a fold changed is saved; text that streams in is repainted by a plan that is
/// made once until it has run. A fold that changed nothing is neither.
pub proof fn what_a_fold_changed_is_saved(state: AppView)
    ensures
        state.folded(FoldChange::Unchanged).effects.len() == 0,
        state.folded(FoldChange::Unchanged).state == state,
        state.folded(FoldChange::Structure).state == state,
        state.folded(FoldChange::Structure).effects.len() == 1,
        state.folded(FoldChange::Structure).effects[0] == EffectView::ScheduleSave,
        state.folded(FoldChange::Streaming).state == (AppView { repaint_scheduled: true, ..state }),
        state.folded(FoldChange::Streaming).effects[0] == EffectView::ScheduleSave,
        state.repaint_scheduled ==> state.folded(FoldChange::Streaming).effects.len() == 1,
        !state.repaint_scheduled ==> state.folded(FoldChange::Streaming).effects.len() == 2
            && state.folded(FoldChange::Streaming).effects[1] == EffectView::ScheduleRepaint,
{
}

/// The end of a turn closes its question, files what is on screen, reads the list again
/// unless it is being read, and sends the prompt that has waited longest, in this order.
pub proof fn the_end_of_a_turn_is_followed_up(state: AppView, now: Stamp)
    ensures
        ({
            let step = state.turn_finished(now);
            let closed = AppView { clarify: None, ..state };
            let saved = closed.save_messages(now);
            let listed = saved.state.refresh_quietly();
            let next = listed.state.send_next_queued();
            &&& step.state.clarify is None
            &&& step.effects == saved.effects + listed.effects + next.effects
            &&& step.state == next.state
            &&& step.state.refresh_inflight
            &&& step.state == (AppView {
                clarify: step.state.clarify,
                cache: step.state.cache,
                cache_summary: step.state.cache_summary,
                refresh_inflight: step.state.refresh_inflight,
                queue: step.state.queue,
                ..state
            })
            &&& state.queue.len() == 0 ==> step.state.queue.len() == 0
            &&& state.queue.len() > 0 ==> step.state.queue == state.queue.skip(1)
        }),
{
    let closed = AppView { clarify: None, ..state };
    let saved = closed.save_messages(now);
    let listed = saved.state.refresh_quietly();
    the_screen_is_filed_under_its_session(closed, now);
    a_quiet_reading_is_made_once(saved.state);
    the_longest_waiting_prompt_goes_first(listed.state);
}

/// A reading that the user did not ask for is made unless one is under way.
pub proof fn a_quiet_reading_is_made_once(state: AppView)
    ensures
        state.refresh_quietly().state == (AppView { refresh_inflight: true, ..state }),
        state.refresh_inflight ==> state.refresh_quietly().effects.len() == 0,
        !state.refresh_inflight ==> state.refresh_quietly().effects.len() == 1
            && state.refresh_quietly().effects[0] == (EffectView::ListSessions {
            config: state.config(),
            show_progress: false,
            expects_history: state.caps.session_history,
        }),
{
    reveal(AppView::refresh_quietly);
    reveal(AppView::refresh_sessions);
}

/// A fold after which the turn still runs, or before which none did, is not followed by the
/// end of a turn; one that ended the turn is.
pub proof fn only_a_turn_that_ended_is_followed_up(
    state: AppView,
    change: FoldChange,
    was_sending: bool,
    now: Stamp,
)
    ensures
        was_sending && !state.conversation.sending ==> {
            let step = state.event_folded(change, was_sending, now);
            let shown = state.folded(change);
            &&& step.effects == shown.effects + shown.state.turn_finished(now).effects
            &&& step.state == shown.state.turn_finished(now).state
            &&& step.state.clarify is None
        },
        !was_sending || state.conversation.sending ==> {
            let step = state.event_folded(change, was_sending, now);
            &&& step.effects == state.folded(change).effects
            &&& step.state == state.folded(change).state
            &&& step.state.clarify == state.clarify
            &&& step.state.queue == state.queue
        },
{
    the_end_of_a_turn_is_followed_up(state.folded(change).state, now);
}

} // verus!
