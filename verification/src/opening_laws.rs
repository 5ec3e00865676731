//! What connecting, opening a session and starting a chat lead to.

use crate::effects::EffectView;
use crate::models::{BackendKind, SessionIdsView, SessionView, Stamp};
use crate::prompts::submitted;
use crate::sessions::CacheView;
use crate::settings::SettingsView;
use crate::state::{AppView, LinkView};
use crate::word_laws::the_first_session_counts;
use crate::words::trimmed;
use vstd::prelude::*;

verus! {

/// Whether Hermes is to be reached and no token for it is there.
pub open spec fn token_is_missing(state: AppView) -> bool {
    state.settings.backend_kind == BackendKind::Hermes && trimmed(
        state.settings.session_token,
    ).len() == 0
}

/// What a backend is reached with is what the settings come to, the credential without the
/// white space around it.
pub proof fn a_backend_is_reached_as_set_up(state: AppView)
    ensures
        state.config().base_url == state.settings.base_url,
        state.config().credential == trimmed(state.settings.session_token),
        state.config().profile == state.settings.profile,
        state.config().workspace == state.settings.workspace,
{
}

/// Something can be sent exactly where the connection stands and there is a word to send or
/// a file.
pub proof fn a_connected_composer_can_send(state: AppView)
    ensures
        state.can_send() <==> state.connection == LinkView::Connected && !(trimmed(
            state.composer_text,
        ).len() == 0 && state.composer_attachments.len() == 0),
{
}

/// Every change of what is on screen gets a number of its own, the next one; the last is
/// followed by the first.
pub proof fn every_view_has_the_next_number(state: AppView)
    ensures
        state.advanced().generation != state.generation,
        state.generation < u64::MAX ==> state.advanced().generation == state.generation + 1,
        state.generation == u64::MAX ==> state.advanced().generation == 0,
        state.advanced() == (AppView { generation: state.advanced().generation, ..state }),
{
}

/// A connection is asked for by a probe, with the password only where the server takes one,
/// and the token is discovered where it is missing. While one is asked for, no other is.
pub proof fn a_connection_is_asked_for_once(state: AppView)
    ensures
        state.connection == LinkView::Connecting || state.gateway_connecting
            ==> state.connect().effects.len() == 0 && state.connect().state == state,
        state.connection != LinkView::Connecting && !state.gateway_connecting ==> {
            let step = state.connect();
            &&& step.state == (AppView {
                connection: LinkView::Connecting,
                transport_ready: false,
                ..state
            })
            &&& step.effects.len() == 1
            &&& step.effects[0] is Probe
            &&& step.effects[0]->discover == token_is_missing(state)
            &&& state.settings.takes_password ==> step.effects[0]->credential == trimmed(
                state.settings.session_token,
            )
            &&& !state.settings.takes_password ==> step.effects[0]->credential.len() == 0
        },
{
    reveal(AppView::connect);
}

/// The event stream is opened once, with what the settings come to; without the token that
/// it takes the connection has failed instead, and nothing is opened.
pub proof fn a_stream_is_opened_once(state: AppView)
    ensures
        ({
            let step = state.connect_gateway();
            &&& state.transport_ready || state.gateway_connecting ==> step.effects.len() == 0
                && step.state == state
            &&& !state.transport_ready && !state.gateway_connecting && token_is_missing(state)
                ==> step.effects.len() == 0 && step.state == (AppView {
                connection: LinkView::Failed("Missing Hermes session token"@),
                ..state
            })
            &&& !state.transport_ready && !state.gateway_connecting && !token_is_missing(state)
                ==> step.effects.len() == 1 && step.effects[0] == EffectView::OpenStream(
                state.config(),
            ) && step.state == (AppView { gateway_connecting: true, ..state })
        }),
{
    reveal(AppView::connect_gateway);
}

/// A reading of the list is asked for with what the settings come to, and is under way until
/// it has come back. Only a user's own shows that it is.
pub proof fn a_list_is_asked_for(state: AppView, show_progress: bool)
    ensures
        ({
            let step = state.refresh_sessions(show_progress);
            &&& show_progress && !state.transport_ready ==> step.effects == state.connect().effects
                && step.state == state.connect().state
            &&& !show_progress || state.transport_ready ==> {
                &&& step.effects.len() == 1
                &&& step.effects[0] == (EffectView::ListSessions {
                    config: state.config(),
                    show_progress,
                    expects_history: state.caps.session_history,
                })
                &&& step.state == (AppView {
                    is_refreshing: show_progress || state.is_refreshing,
                    refresh_inflight: true,
                    ..state
                })
            }
        }),
{
    reveal(AppView::refresh_sessions);
}

/// A session that is opened is on screen at once, with what was cached of it; its messages
/// and its connection are asked for under the number of the new view. Until it is attached to
/// nothing is live.
pub proof fn an_opened_session_is_on_screen(state: AppView, session: SessionView)
    ensures
        ({
            let step = state.resume_session(session);
            let key = state.settings.backend_kind.id_of() + "::"@ + session.id;
            &&& step.state.selected == Some(session)
            &&& step.state.live is None
            &&& step.state.stored == Some(session.id)
            &&& step.state.clarify is None
            &&& step.state.cache.selected_session_id == Some(key)
            &&& step.state.generation != state.generation
            &&& step.state == (AppView {
                selected: step.state.selected,
                live: step.state.live,
                stored: step.state.stored,
                clarify: step.state.clarify,
                cache: step.state.cache,
                generation: step.state.generation,
                connection: step.state.connection,
                gateway_connecting: step.state.gateway_connecting,
                ..state
            })
            &&& step.state.cache == (CacheView { selected_session_id: Some(key), ..state.cache })
            &&& step.effects.len() >= 3
            &&& step.effects[0] == EffectView::ShowCached(key)
            &&& step.effects[1] == (EffectView::LoadMessages {
                config: state.config(),
                session_id: session.id,
                backend: state.settings.backend_kind,
                generation: step.state.generation,
            })
            &&& step.effects.last() == (EffectView::Resume {
                config: state.config(),
                session_id: session.id,
                generation: step.state.generation,
            })
            &&& !state.transport_ready && !state.gateway_connecting && !token_is_missing(state)
                <==> step.effects.len() == 4
            &&& step.effects.len() == 4 ==> step.effects[2] == EffectView::OpenStream(
                state.config(),
            )
        }),
{
    reveal(AppView::resume_session);
    reveal(AppView::connect_gateway);
}

/// A chat that is started empties the screen and asks the backend for a session, under the
/// number of the new view.
pub proof fn a_started_chat_is_empty(state: AppView)
    ensures
        ({
            let step = state.start_fresh_chat();
            &&& step.state.selected is None
            &&& step.state.live is None
            &&& step.state.stored is None
            &&& step.state.clarify is None
            &&& step.state.conversation.messages.len() == 0
            &&& !step.state.conversation.sending
            &&& step.state.generation != state.generation
            &&& step.state == (AppView {
                selected: step.state.selected,
                live: step.state.live,
                stored: step.state.stored,
                clarify: step.state.clarify,
                conversation: step.state.conversation,
                generation: step.state.generation,
                connection: step.state.connection,
                gateway_connecting: step.state.gateway_connecting,
                ..state
            })
            &&& step.effects.len() >= 2
            &&& step.effects[0] == EffectView::Reset
            &&& step.effects.last() == (EffectView::Create {
                config: state.config(),
                profile: state.settings.profile,
                backend: state.settings.backend_kind,
                generation: step.state.generation,
            })
            &&& !state.transport_ready && !state.gateway_connecting && !token_is_missing(state)
                <==> step.effects.len() == 3
            &&& step.effects.len() == 3 ==> step.effects[1] == EffectView::OpenStream(
                state.config(),
            )
        }),
{
    reveal(AppView::start_fresh_chat);
    reveal(AppView::connect_gateway);
}

/// The application reads its backend's configuration when it starts, and connects exactly
/// where that backend's own switch is on.
pub proof fn only_a_backend_that_is_on_connects(state: AppView)
    ensures
        ({
            let step = state.bootstrap();
            &&& step.effects.len() >= 2
            &&& step.effects[0] == EffectView::ReadModelConfig
            &&& step.effects[1] == EffectView::ReadPermissionMode
            &&& !state.settings.enabled.contains(state.settings.backend_kind)
                ==> step.effects.len() == 2 && step.state == state
            &&& state.settings.enabled.contains(state.settings.backend_kind) ==> step.state
                == state.connect().state && step.effects.skip(2) == state.connect().effects
        }),
{
    reveal(AppView::connect);
    let step = state.bootstrap();
    if state.settings.enabled.contains(state.settings.backend_kind) {
        assert(step.effects.skip(2) =~= state.connect().effects);
    }
}

/// A probe that failed is reported and ends the attempt.
pub proof fn a_failed_probe_ends_the_attempt(state: AppView, error: Seq<char>)
    ensures
        state.probed(Err(error)).effects.len() == 0,
        state.probed(Err(error)).state == (AppView {
            connection: LinkView::Failed(error),
            last_error: Some(error),
            ..state
        }),
{
}

/// A token that a probe found is kept in the settings and saved. After a probe the list is
/// read, and what was on screen is attached to again, or a chat is started where nothing was.
pub proof fn a_probe_is_followed_by_a_session(state: AppView, token: Option<Seq<char>>)
    ensures
        ({
            let step = state.probed(Ok(token));
            &&& token matches Some(token) ==> step.state.settings == (SettingsView {
                session_token: token,
                ..state.settings
            }) && step.effects[0] == EffectView::SaveSettings
            &&& token is None ==> step.state.settings == state.settings
            &&& step.state.refresh_inflight
            &&& exists|i: int|
                0 <= i < step.effects.len() && (#[trigger] step.effects[i]) is ListSessions
            &&& step.effects.len() > 0
            &&& state.selected matches Some(session) ==> step.state.selected == Some(session)
                && step.effects.last() is Resume && step.effects.last()->Resume_session_id
                == session.id && step.effects.last()->Resume_generation == step.state.generation
            &&& state.selected is None ==> step.state.selected is None && step.effects.last()
                is Create && step.effects.last()->Create_generation == step.state.generation
        }),
{
    let known = state.with_token(token);
    let stream = known.followed_by(known.state.connect_gateway());
    let listing = stream.followed_by(stream.state.refresh_sessions(false));
    let step = state.probed(Ok(token));
    a_stream_is_opened_once(known.state);
    a_list_is_asked_for(stream.state, false);
    assert(listing.state.selected == state.selected);
    let place = stream.effects.len() as int;
    assert(listing.effects[place] is ListSessions);
    match listing.state.selected {
        Some(session) => {
            an_opened_session_is_on_screen(listing.state, session);
            let last = listing.state.resume_session(session);
            assert(step.effects == listing.effects + last.effects);
            assert(step.effects.last() == last.effects.last());
        },
        None => {
            a_started_chat_is_empty(listing.state);
            let last = listing.state.start_fresh_chat();
            assert(step.effects == listing.effects + last.effects);
            assert(step.effects.last() == last.effects.last());
        },
    }
    assert(step.effects[place] == listing.effects[place]);
    if token is Some {
        assert(known.effects[0] == EffectView::SaveSettings);
        assert(step.effects[0] == known.effects[0]);
    }
}

/// Whether what is typed, what waits, what is listed and what was chosen are the same.
pub open spec fn keeps_what_waits(before: AppView, after: AppView) -> bool {
    &&& after.sessions == before.sessions
    &&& after.composer_text == before.composer_text
    &&& after.composer_attachments == before.composer_attachments
    &&& after.is_refreshing == before.is_refreshing
    &&& after.transport_ready == before.transport_ready
    &&& after.queue == before.queue
    &&& after.last_error == before.last_error
    &&& after.cache_summary == before.cache_summary
    &&& after.models == before.models
    &&& after.model_groups == before.model_groups
    &&& after.model_provider == before.model_provider
    &&& after.model_name == before.model_name
    &&& after.is_switching_model == before.is_switching_model
    &&& after.context_window == before.context_window
    &&& after.permission_mode == before.permission_mode
    &&& after.is_changing_permission == before.is_changing_permission
    &&& after.held == before.held
    &&& after.repaint_scheduled == before.repaint_scheduled
    &&& after.caps == before.caps
}

/// What is typed, what waits and what is listed outlast a probe.
pub proof fn a_probe_keeps_what_waits(state: AppView, token: Option<Seq<char>>)
    ensures
        keeps_what_waits(state, state.probed(Ok(token)).state),
{
    let known = state.with_token(token);
    let stream = known.followed_by(known.state.connect_gateway());
    let listing = stream.followed_by(stream.state.refresh_sessions(false));
    a_stream_is_opened_once(known.state);
    assert(keeps_what_waits(state, stream.state));
    a_list_is_asked_for(stream.state, false);
    assert(keeps_what_waits(stream.state, listing.state));
    match listing.state.selected {
        Some(session) => {
            an_opened_session_is_on_screen(listing.state, session);
            assert(keeps_what_waits(listing.state, listing.state.resume_session(session).state));
        },
        None => {
            a_started_chat_is_empty(listing.state);
            assert(keeps_what_waits(listing.state, listing.state.start_fresh_chat().state));
        },
    }
}

/// A stream that is being opened is so no longer once it has been, and one that could not be
/// is reported as a connection that failed.
pub proof fn an_opened_stream_is_no_longer_opening(state: AppView, error: Seq<char>)
    ensures
        state.stream_opened(Ok(())) == (AppView { gateway_connecting: false, ..state }),
        state.stream_opened(Err(error)) == (AppView {
            gateway_connecting: false,
            transport_ready: false,
            connection: LinkView::Failed(error),
            last_error: Some(error),
            ..state
        }),
{
}

/// A session that was attached to is live under the id the backend gave, and stored under
/// its own key, or under the live id where it has none.
pub proof fn an_attached_session_is_live(
    state: AppView,
    session: SessionView,
    ids: SessionIdsView,
)
    requires
        state.selected == Some(session),
    ensures
        ({
            let step = state.session_resumed(state.generation, session.id, Ok(ids));
            &&& step.state.live == Some(ids.live_id)
            &&& ids.stored_id is Some ==> step.state.stored == ids.stored_id
            &&& ids.stored_id is None ==> step.state.stored == Some(ids.live_id)
            &&& step.state.transport_ready
            &&& step.state == (AppView {
                live: step.state.live,
                stored: step.state.stored,
                transport_ready: step.state.transport_ready,
                held: step.state.held,
                ..state
            })
            &&& step.effects.len() > 0
            &&& step.effects[0] == EffectView::SaveCache
            &&& state.held is None ==> step.effects.len() == 1
        }),
{
    reveal(AppView::perform_send);
}

/// A prompt that is held for a session goes there whatever name it is held under, and no
/// prompt goes where it is not held for.
pub proof fn a_held_prompt_knows_its_session_by_any_name(
    state: AppView,
    session: SessionView,
    ids: SessionIdsView,
)
    requires
        state.selected == Some(session),
        state.held is Some,
    ensures
        ({
            let step = state.session_resumed(state.generation, session.id, Ok(ids));
            let meant = state.held->0.session;
            let known = meant == Some(session.id) || meant == Some(ids.live_id) || meant is Some
                && meant == ids.stored_id;
            &&& known ==> step.state.held is None && step.effects.last() == (EffectView::Submit {
                session_id: ids.live_id,
                prompt: submitted(state.held->0.text, state.held->0.attachments),
            })
            &&& !known ==> step.state.held == state.held && step.effects.len() == 1
        }),
{
    reveal(AppView::perform_send);
    let attached = state.attached(ids);
    let sent = attached.sent_held(ids.live_id);
    let step = state.session_resumed(state.generation, session.id, Ok(ids));
    if attached.holds_for_resumed(session.id, ids) {
        assert(step.effects == seq![EffectView::SaveCache] + sent.effects);
        assert(sent.effects.len() == 3);
        assert(step.effects.last() == sent.effects[2]);
    }
}

/// A session that could not be attached to is reported, and nothing goes to it; what was
/// held for it is in the composer again.
pub proof fn a_session_that_is_not_attached_is_reported(
    state: AppView,
    session: SessionView,
    error: Seq<char>,
)
    requires
        state.selected == Some(session),
    ensures
        ({
            let step = state.session_resumed(state.generation, session.id, Err(error));
            &&& step.effects.len() == 0
            &&& step.state.last_error == Some(error)
            &&& step.state.live == state.live
            &&& state.held is Some && state.held->0.session == Some(session.id) ==> step.state
                == (AppView {
                last_error: Some(error),
                composer_text: state.held->0.text,
                composer_attachments: state.held->0.attachments,
                held: None,
                ..state
            })
            &&& state.held is None || state.held->0.session != Some(session.id) ==> step.state
                == (AppView { last_error: Some(error), ..state })
        }),
{
}

/// A chat that was created is on screen and live, and at the top of the list unless it is
/// there already; its row says whose it is.
pub proof fn a_created_chat_is_listed_first(
    state: AppView,
    profile: Option<Seq<char>>,
    backend: BackendKind,
    ids: SessionIdsView,
    now: Stamp,
)
    requires
        state.selected is None,
    ensures
        ({
            let step = state.chat_created(state.generation, profile, backend, Ok(ids), now);
            let id = if ids.stored_id is Some {
                ids.stored_id->0
            } else {
                ids.live_id
            };
            let row = step.state.selected->0;
            &&& step.state.live == Some(ids.live_id)
            &&& step.state.stored == ids.stored_id
            &&& step.state.transport_ready
            &&& step.state.selected is Some
            &&& row.id == id
            &&& row.title == Some("New Chat"@)
            &&& row.started_at == Some(now)
            &&& row.last_active == Some(now)
            &&& row.message_count == Some(0i64)
            &&& row.is_active == Some(true)
            &&& row.archived == Some(false)
            &&& row.profile == profile
            &&& row.backend_id == Some(backend.id_of())
            &&& row.model is None && row.cwd is None && row.provider is None
            &&& row.used_tokens is None && row.context_tokens is None
            &&& (forall|i: int| 0 <= i < state.sessions.len() ==> (#[trigger] state.sessions[i]).id
                != id) ==> step.state.sessions == seq![row] + state.sessions
            &&& (exists|i: int| 0 <= i < state.sessions.len() && (#[trigger] state.sessions[i]).id
                == id) ==> step.state.sessions == state.sessions
            &&& step.state.cache.selected_session_id == Some(
                state.settings.backend_kind.id_of() + "::"@ + id,
            )
            &&& step.state.refresh_inflight
            &&& step.state.cache.sessions == state.cache.sessions.filter(
                |one: SessionView|
                    (if one.backend_id is Some {
                        one.backend_id->0
                    } else {
                        "hermes"@
                    }) != backend.id_of(),
            ) + step.state.sessions
            &&& step.state.cache.updated_at == Some(now)
            &&& step.state.cache.transcripts == state.cache.transcripts
            &&& step.state.cache.archived == state.cache.archived
            &&& step.state.cache.deleted == state.cache.deleted
            &&& step.state == (AppView {
                live: step.state.live,
                stored: step.state.stored,
                transport_ready: step.state.transport_ready,
                selected: step.state.selected,
                sessions: step.state.sessions,
                cache: step.state.cache,
                cache_summary: step.state.cache_summary,
                refresh_inflight: step.state.refresh_inflight,
                held: step.state.held,
                composer_text: step.state.composer_text,
                composer_attachments: step.state.composer_attachments,
                ..state
            })
            &&& step.effects.len() > 0
            &&& step.effects[0] == EffectView::SaveCache
        }),
{
    reveal(AppView::refresh_quietly);
    reveal(AppView::refresh_sessions);
    reveal(AppView::perform_send);
    let created = state.with_new_chat(ids, profile, backend, now);
    let row = state.local_session(ids, profile, backend, now);
    if forall|i: int| 0 <= i < state.sessions.len() ==> (#[trigger] state.sessions[i]).id != row.id {
        the_first_session_counts(state.sessions, row.id, state.sessions.len() as int);
        assert(state.sessions.insert(0, row) =~= seq![row] + state.sessions);
    }
    if exists|i: int| 0 <= i < state.sessions.len() && (#[trigger] state.sessions[i]).id == row.id {
        let i = choose|i: int|
            0 <= i < state.sessions.len() && (#[trigger] state.sessions[i]).id == row.id;
        lemma_listed(state.sessions, row.id, i);
    }
    let step = state.chat_created(state.generation, profile, backend, Ok(ids), now);
    assert(step.state.sessions == created.sessions);
    lemma_same_filter(state.cache.sessions, backend.id_of());
}

proof fn lemma_same_filter(sessions: Seq<SessionView>, own: Seq<char>)
    ensures
        sessions.filter(|one: SessionView| crate::sessions::owner_of(one) != own)
            == sessions.filter(
            |one: SessionView|
                (if one.backend_id is Some {
                    one.backend_id->0
                } else {
                    "hermes"@
                }) != own,
        ),
    decreases sessions.len(),
{
    reveal(Seq::filter);
    if sessions.len() > 0 {
        lemma_same_filter(sessions.drop_last(), own);
    }
}

proof fn lemma_listed(sessions: Seq<SessionView>, id: Seq<char>, place: int)
    requires
        0 <= place < sessions.len(),
        sessions[place].id == id,
    ensures
        crate::sessions::session_under(sessions, id) is Some,
    decreases sessions.len(),
{
    if sessions[0].id != id {
        assert(sessions.drop_first()[place - 1] == sessions[place]);
        lemma_listed(sessions.drop_first(), id, place - 1);
    }
}

/// A prompt that is held for a new chat goes to the chat that was created, and the composer is
/// empty; one that is held for another session does not.
pub proof fn a_new_chat_gets_its_prompt(
    state: AppView,
    profile: Option<Seq<char>>,
    backend: BackendKind,
    ids: SessionIdsView,
    now: Stamp,
)
    requires
        state.selected is None,
    ensures
        ({
            let step = state.chat_created(state.generation, profile, backend, Ok(ids), now);
            &&& state.held is Some && state.held->0.session is None ==> {
                &&& step.state.held is None
                &&& step.state.composer_text.len() == 0
                &&& step.state.composer_attachments.len() == 0
                &&& step.effects.last() == (EffectView::Submit {
                    session_id: ids.live_id,
                    prompt: submitted(state.held->0.text, state.held->0.attachments),
                })
            }
            &&& state.held is None || state.held->0.session is Some ==> {
                &&& step.state.held == state.held
                &&& step.state.composer_text == state.composer_text
                &&& step.state.composer_attachments == state.composer_attachments
                &&& forall|i: int|
                    0 <= i < step.effects.len() ==> !((#[trigger] step.effects[i]) is Submit)
            }
        }),
{
    reveal(AppView::refresh_quietly);
    reveal(AppView::refresh_sessions);
    reveal(AppView::perform_send);
    let created = state.with_new_chat(ids, profile, backend, now);
    let listing = created.doing(EffectView::SaveCache).followed_by(created.refresh_quietly());
    let step = state.chat_created(state.generation, profile, backend, Ok(ids), now);
    assert(listing.state.held == state.held);
    if state.held is Some && state.held->0.session is None {
        let sent = listing.state.composer_cleared().sent_held(ids.live_id);
        assert(step.effects == listing.effects + sent.effects);
        assert(sent.effects.len() == 3);
        assert(step.effects.last() == sent.effects[2]);
    }
}

/// A chat that could not be created is reported as a connection that failed; a prompt that
/// was held for it is in the composer again.
pub proof fn a_chat_that_is_not_created_is_reported(
    state: AppView,
    profile: Option<Seq<char>>,
    backend: BackendKind,
    error: Seq<char>,
    now: Stamp,
)
    requires
        state.selected is None,
    ensures
        ({
            let step = state.chat_created(state.generation, profile, backend, Err(error), now);
            &&& step.effects.len() == 0
            &&& state.held is Some && state.held->0.session is None ==> step.state == (AppView {
                transport_ready: false,
                connection: LinkView::Failed(error),
                last_error: Some(error),
                composer_text: state.held->0.text,
                composer_attachments: state.held->0.attachments,
                held: None,
                ..state
            })
            &&& state.held is None || state.held->0.session is Some ==> step.state == (AppView {
                transport_ready: false,
                connection: LinkView::Failed(error),
                last_error: Some(error),
                ..state
            })
        }),
{
}

} // verus!
