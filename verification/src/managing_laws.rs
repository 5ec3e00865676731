//! What becomes of sessions, backends, models and permissions that are managed.

use crate::effects::{EffectView, PermissionMode};
use crate::management::{session_with_key, MoveView};
use crate::menu::{menu_of, ModelView};
use crate::models::{BackendKind, SessionView, Stamp};
use crate::opening_laws::a_connection_is_asked_for_once;
use crate::sessions::{key_of, session_under, without_session, CacheView};
use crate::settings::SettingsView;
use crate::state::{AppView, BackendCaps, LinkView};
use crate::word_laws::the_first_session_counts;
use vstd::prelude::*;

verus! {

// -- the start ----------------------------------------------------------------------

/// The application starts with the cached sessions of its backend, nothing connected, nothing
/// typed and nothing waiting.
pub proof fn the_application_starts_from_its_cache(
    settings: SettingsView,
    caps: BackendCaps,
    cache: CacheView,
    context_window: i64,
    mode: PermissionMode,
)
    ensures
        ({
            let state = AppView::initial(settings, caps, cache, context_window, mode);
            let own = settings.backend_kind.id_of();
            &&& state.settings == settings
            &&& state.caps == caps
            &&& state.cache == cache
            &&& state.context_window == context_window
            &&& state.permission_mode == mode
            &&& state.connection == LinkView::Disconnected
            &&& state.sessions == cache.sessions.filter(
                |session: SessionView| cache.shows(session, own),
            )
            &&& state.conversation.messages.len() == 0 && !state.conversation.sending
            &&& state.composer_text.len() == 0 && state.composer_attachments.len() == 0
            &&& state.queue.len() == 0 && state.held is None && state.clarify is None
            &&& !state.transport_ready && !state.gateway_connecting
            &&& !state.is_refreshing && !state.refresh_inflight && !state.repaint_scheduled
            &&& !state.is_switching_model && !state.is_changing_permission
            &&& state.live is None && state.stored is None && state.last_error is None
            &&& cache.selected_session_id is None ==> state.selected is None
        }),
{
    let own = settings.backend_kind.id_of();
    let state = AppView::initial(settings, caps, cache, context_window, mode);
    assert(state.sessions == cache.visible(cache.sessions, own));
}

proof fn lemma_keyed(sessions: Seq<SessionView>, own: Seq<char>, id: Seq<char>)
    ensures
        session_with_key(sessions, own, own + "::"@ + id) == session_under(sessions, id),
    decreases sessions.len(),
{
    if sessions.len() > 0 {
        let first = sessions[0].id;
        if key_of(own, first) == own + "::"@ + id {
            let front = own + "::"@;
            assert(first =~= (front + first).skip(front.len() as int));
            assert(id =~= (front + id).skip(front.len() as int));
        }
        lemma_keyed(sessions.drop_first(), own, id);
    }
}

/// The session that was on screen last is on screen again where it is still shown, and what
/// was cached of it is shown first; the backend's own configuration is read in any case.
pub proof fn the_last_session_is_on_screen_again(
    settings: SettingsView,
    caps: BackendCaps,
    cache: CacheView,
    context_window: i64,
    mode: PermissionMode,
    id: Seq<char>,
    place: int,
)
    requires
        cache.selected_session_id == Some(settings.backend_kind.id_of() + "::"@ + id),
        ({
            let listed = AppView::initial(settings, caps, cache, context_window, mode).sessions;
            &&& 0 <= place <= listed.len()
            &&& forall|i: int| 0 <= i < place ==> (#[trigger] listed[i]).id != id
            &&& place < listed.len() ==> listed[place].id == id
        }),
    ensures
        ({
            let state = AppView::initial(settings, caps, cache, context_window, mode);
            let effects = state.initial_effects();
            &&& place < state.sessions.len() ==> {
                &&& state.selected == Some(state.sessions[place])
                &&& effects.len() == 3
                &&& effects[0] == EffectView::ShowCached(
                    settings.backend_kind.id_of() + "::"@ + id,
                )
                &&& effects[1] == EffectView::ReadModelConfig
                &&& effects[2] == EffectView::ReadPermissionMode
            }
            &&& place == state.sessions.len() ==> {
                &&& state.selected is None
                &&& effects.len() == 2
                &&& effects[0] == EffectView::ReadModelConfig
                &&& effects[1] == EffectView::ReadPermissionMode
            }
        }),
{
    let state = AppView::initial(settings, caps, cache, context_window, mode);
    lemma_keyed(state.sessions, settings.backend_kind.id_of(), id);
    the_first_session_counts(state.sessions, id, place);
}

// -- sessions -----------------------------------------------------------------------

proof fn lemma_gone(sessions: Seq<SessionView>, id: Seq<char>, one: SessionView)
    ensures
        without_session(sessions, id).contains(one) <==> sessions.contains(one) && one.id != id,
{
    let others = |session: SessionView| session.id != id;
    let kept = sessions.filter(others);
    if kept.contains(one) {
        let i = choose|i: int| 0 <= i < kept.len() && kept[i] == one;
        sessions.lemma_filter_pred(others, i);
        sessions.lemma_filter_contains_rev(others, one);
    }
    if sessions.contains(one) && one.id != id {
        let i = choose|i: int| 0 <= i < sessions.len() && sessions[i] == one;
        sessions.lemma_filter_contains(others, i);
    }
}

/// A session that is archived or deleted is no longer listed, and every other one is. Its
/// transcript goes with it only where it is deleted. Where it was on screen the screen is
/// empty and what is in flight for it no longer counts; otherwise the screen stays. The cache
/// is saved last.
pub proof fn a_session_that_is_put_away_is_gone(
    state: AppView,
    session: SessionView,
    deleted: bool,
    now: Stamp,
    one: SessionView,
)
    ensures
        ({
            let step = state.hide_session(session, deleted, now);
            let key = state.settings.backend_kind.id_of() + "::"@ + session.id;
            let on_screen = state.selected is Some && state.selected->0.id == session.id;
            &&& step.state.sessions.contains(one) <==> state.sessions.contains(one) && one.id
                != session.id
            &&& deleted ==> step.state.cache.deleted == state.cache.deleted.insert(key)
                && step.state.cache.archived == state.cache.archived
                && step.state.cache.transcripts == state.cache.transcripts.remove(key)
                && step.effects[0] == EffectView::DropTranscript(key)
            &&& !deleted ==> step.state.cache.archived == state.cache.archived.insert(key)
                && step.state.cache.deleted == state.cache.deleted
                && step.state.cache.transcripts == state.cache.transcripts
            &&& !deleted ==> forall|i: int|
                0 <= i < step.effects.len() ==> !((#[trigger] step.effects[i]) is DropTranscript)
            &&& on_screen ==> {
                &&& step.state.selected is None
                &&& step.state.live is None
                &&& step.state.stored is None
                &&& !step.state.transport_ready
                &&& step.state.conversation.messages.len() == 0
                &&& step.state.generation != state.generation
                &&& step.effects.contains(EffectView::Reset)
            }
            &&& !on_screen ==> {
                &&& step.state.selected == state.selected
                &&& step.state.live == state.live
                &&& step.state.stored == state.stored
                &&& step.state.transport_ready == state.transport_ready
                &&& step.state.conversation == state.conversation
                &&& step.state.generation == state.generation
                &&& !step.effects.contains(EffectView::Reset)
            }
            &&& step.state.cache_summary == step.state.cache.summary()
            &&& step.state.cache.updated_at == Some(now)
            &&& step.state == (AppView {
                sessions: step.state.sessions,
                cache: step.state.cache,
                cache_summary: step.state.cache_summary,
                selected: step.state.selected,
                conversation: step.state.conversation,
                live: step.state.live,
                stored: step.state.stored,
                transport_ready: step.state.transport_ready,
                generation: step.state.generation,
                ..state
            })
            &&& step.effects.len() > 0
            &&& step.effects.last() == EffectView::SaveCache
        }),
{
    reveal(AppView::remove_visible_session);
    lemma_gone(state.sessions, session.id, one);
    let step = state.hide_session(session, deleted, now);
    let on_screen = state.selected is Some && state.selected->0.id == session.id;
    if on_screen {
        assert(step.effects[step.effects.len() - 2] == EffectView::Reset);
    }
}

proof fn lemma_hidden(state: AppView, sessions: Seq<SessionView>, deleted: bool, key: Seq<char>)
    ensures
        ({
            let after = state.hiding_all(sessions, deleted);
            let own = state.settings.backend_kind.id_of();
            let meant = exists|i: int|
                0 <= i < sessions.len() && key == own + "::"@ + (#[trigger] sessions[i]).id;
            &&& after.deleted.contains(key) <==> state.cache.deleted.contains(key) || deleted
                && meant
            &&& after.archived.contains(key) <==> state.cache.archived.contains(key) || !deleted
                && meant
            &&& after.sessions == state.cache.sessions
            &&& after.transcripts == state.cache.transcripts
            &&& after.selected_session_id == state.cache.selected_session_id
        }),
    decreases sessions.len(),
{
    if sessions.len() > 0 {
        let own = state.settings.backend_kind.id_of();
        let rest = sessions.drop_last();
        lemma_hidden(state, rest, deleted, key);
        if exists|i: int| 0 <= i < rest.len() && key == own + "::"@ + (#[trigger] rest[i]).id {
            let i = choose|i: int|
                0 <= i < rest.len() && key == own + "::"@ + (#[trigger] rest[i]).id;
            assert(sessions[i] == rest[i]);
        }
        if exists|i: int| 0 <= i < sessions.len() && key == own + "::"@ + (
        #[trigger] sessions[i]).id {
            let i = choose|i: int|
                0 <= i < sessions.len() && key == own + "::"@ + (#[trigger] sessions[i]).id;
            if i < rest.len() {
                assert(rest[i] == sessions[i]);
            }
        }
        if key == own + "::"@ + sessions.last().id {
            assert(sessions[sessions.len() - 1] == sessions.last());
        }
    }
}

proof fn lemma_dropped(state: AppView, sessions: Seq<SessionView>, key: Seq<char>)
    ensures
        ({
            let after = state.dropping_all(sessions);
            let own = state.settings.backend_kind.id_of();
            let meant = exists|i: int|
                0 <= i < sessions.len() && key == own + "::"@ + (#[trigger] sessions[i]).id;
            &&& after.state.cache.transcripts.contains(key) <==> state.cache.transcripts.contains(
                key,
            ) && !meant
            &&& after.state == (AppView {
                cache: CacheView {
                    transcripts: after.state.cache.transcripts,
                    ..state.cache
                },
                ..state
            })
            &&& after.effects.len() == sessions.len()
            &&& forall|i: int|
                0 <= i < sessions.len() ==> #[trigger] after.effects[i]
                    == EffectView::DropTranscript(own + "::"@ + sessions[i].id)
        }),
    decreases sessions.len(),
{
    if sessions.len() > 0 {
        let own = state.settings.backend_kind.id_of();
        let rest = sessions.drop_last();
        lemma_dropped(state, rest, key);
        if exists|i: int| 0 <= i < rest.len() && key == own + "::"@ + (#[trigger] rest[i]).id {
            let i = choose|i: int|
                0 <= i < rest.len() && key == own + "::"@ + (#[trigger] rest[i]).id;
            assert(sessions[i] == rest[i]);
        }
        if exists|i: int| 0 <= i < sessions.len() && key == own + "::"@ + (
        #[trigger] sessions[i]).id {
            let i = choose|i: int|
                0 <= i < sessions.len() && key == own + "::"@ + (#[trigger] sessions[i]).id;
            if i < rest.len() {
                assert(rest[i] == sessions[i]);
            }
        }
        if key == own + "::"@ + sessions.last().id {
            assert(sessions[sessions.len() - 1] == sessions.last());
        }
    }
}

/// Where every session is archived or deleted the list is empty, and each of them is
/// remembered as put away. Their transcripts, and no others, go with them where they are
/// deleted. An empty list leaves everything as it is.
pub proof fn all_sessions_are_put_away(
    state: AppView,
    deleted: bool,
    now: Stamp,
    key: Seq<char>,
)
    ensures
        state.sessions.len() == 0 ==> state.hide_all(deleted, now).effects.len() == 0
            && state.hide_all(deleted, now).state == state,
        state.sessions.len() > 0 ==> {
            let step = state.hide_all(deleted, now);
            let own = state.settings.backend_kind.id_of();
            let meant = exists|i: int|
                0 <= i < state.sessions.len() && key == own + "::"@ + (
                #[trigger] state.sessions[i]).id;
            &&& step.state.sessions.len() == 0
            &&& step.state.cache.deleted.contains(key) <==> state.cache.deleted.contains(key)
                || deleted && meant
            &&& step.state.cache.archived.contains(key) <==> state.cache.archived.contains(key)
                || !deleted && meant
            &&& step.state.cache.transcripts.contains(key) <==> state.cache.transcripts.contains(
                key,
            ) && !(deleted && meant)
            &&& deleted ==> forall|i: int|
                0 <= i < state.sessions.len() ==> #[trigger] step.effects[i]
                    == EffectView::DropTranscript(own + "::"@ + state.sessions[i].id)
            &&& !deleted ==> forall|i: int|
                0 <= i < step.effects.len() ==> !((#[trigger] step.effects[i]) is DropTranscript)
            &&& step.effects.len() > 0
            &&& step.effects.last() == EffectView::SaveCache
            &&& step.state.cache_summary == step.state.cache.summary()
            &&& step.state.cache.updated_at == Some(now)
            &&& step.state == (AppView {
                sessions: step.state.sessions,
                cache: step.state.cache,
                cache_summary: step.state.cache_summary,
                selected: step.state.selected,
                conversation: step.state.conversation,
                live: step.state.live,
                stored: step.state.stored,
                transport_ready: step.state.transport_ready,
                generation: step.state.generation,
                ..state
            })
        },
{
    if state.sessions.len() > 0 {
        let own = state.settings.backend_kind.id_of();
        lemma_hidden(state, state.sessions, deleted, key);
        let hidden = AppView { cache: state.hiding_all(state.sessions, deleted), ..state };
        lemma_dropped(hidden.unlisted(now), state.sessions, key);
        let step = state.hide_all(deleted, now);
        if deleted {
            let dropped = hidden.unlisted(now).dropping_all(state.sessions);
            assert forall|i: int| 0 <= i < state.sessions.len() implies #[trigger] step.effects[i]
                == EffectView::DropTranscript(own + "::"@ + state.sessions[i].id) by {
                assert(step.effects[i] == dropped.effects[i]);
            }
        }
    }
}

/// Where every session is put away, a screen that shows one of them is emptied and what is in
/// flight for it no longer counts; a screen that shows none of them stays.
pub proof fn a_screen_whose_session_was_put_away_is_empty(
    state: AppView,
    deleted: bool,
    now: Stamp,
)
    requires
        state.sessions.len() > 0,
    ensures
        ({
            let step = state.hide_all(deleted, now);
            let listed = state.selected is Some && exists|i: int|
                0 <= i < state.sessions.len() && (#[trigger] state.sessions[i]).id
                    == state.selected->0.id;
            &&& listed ==> {
                &&& step.state.selected is None
                &&& step.state.live is None
                &&& step.state.stored is None
                &&& !step.state.transport_ready
                &&& step.state.conversation.messages.len() == 0
                &&& step.state.generation != state.generation
                &&& step.effects.len() >= 2
                &&& step.effects[step.effects.len() - 2] == EffectView::Reset
            }
            &&& !listed ==> {
                &&& step.state.selected == state.selected
                &&& step.state.live == state.live
                &&& step.state.stored == state.stored
                &&& step.state.transport_ready == state.transport_ready
                &&& step.state.conversation == state.conversation
                &&& step.state.generation == state.generation
                &&& forall|i: int|
                    0 <= i < step.effects.len() ==> !((#[trigger] step.effects[i]) is Reset)
            }
        }),
{
    let hidden = AppView { cache: state.hiding_all(state.sessions, deleted), ..state };
    lemma_dropped(hidden.unlisted(now), state.sessions, seq![]);
    if state.selected is Some {
        let id = state.selected->0.id;
        if exists|i: int| 0 <= i < state.sessions.len() && (#[trigger] state.sessions[i]).id == id {
            let i = choose|i: int|
                0 <= i < state.sessions.len() && (#[trigger] state.sessions[i]).id == id;
            lemma_listed(state.sessions, id, i);
        } else {
            the_first_session_counts(state.sessions, id, state.sessions.len() as int);
        }
    }
}

proof fn lemma_listed(sessions: Seq<SessionView>, id: Seq<char>, place: int)
    requires
        0 <= place < sessions.len(),
        sessions[place].id == id,
    ensures
        session_under(sessions, id) is Some,
    decreases sessions.len(),
{
    if sessions[0].id != id {
        assert(sessions.drop_first()[place - 1] == sessions[place]);
        lemma_listed(sessions.drop_first(), id, place - 1);
    }
}

/// A cache that is cleared holds nothing, and neither does the screen; what is in flight for
/// it no longer counts.
pub proof fn a_cleared_cache_holds_nothing(state: AppView)
    ensures
        ({
            let step = state.clear_cache();
            &&& step.state.cache.sessions.len() == 0
            &&& step.state.cache.transcripts.len() == 0
            &&& step.state.cache.archived.len() == 0
            &&& step.state.cache.deleted.len() == 0
            &&& step.state.cache.selected_session_id is None
            &&& step.state.cache.updated_at is None
            &&& step.state.cache_summary == step.state.cache.summary()
            &&& step.state.sessions.len() == 0
            &&& step.state.selected is None
            &&& step.state.conversation.messages.len() == 0 && !step.state.conversation.sending
            &&& step.state.generation != state.generation
            &&& step.state == (AppView {
                sessions: step.state.sessions,
                cache: step.state.cache,
                cache_summary: step.state.cache_summary,
                selected: step.state.selected,
                conversation: step.state.conversation,
                generation: step.state.generation,
                ..state
            })
            &&& step.effects.len() == 2
            &&& step.effects[0] == EffectView::ClearCache
            &&& step.effects[1] == EffectView::Reset
        }),
{
}

// -- backends ------------------------------------------------------------------------

/// A backend that is switched to is the only one that is on. Its own sessions are listed,
/// nothing of the one before it is on screen, and a connection to it is asked for after the
/// old one was closed and the new backend built.
pub proof fn a_switched_backend_starts_afresh(
    state: AppView,
    kind: BackendKind,
    settings: SettingsView,
    caps: BackendCaps,
    other: BackendKind,
)
    ensures
        ({
            let step = state.switch_backend(kind, settings, caps);
            &&& step.state.settings.enabled.contains(other) <==> other == kind
            &&& step.state.settings == (SettingsView {
                enabled: step.state.settings.enabled,
                ..settings
            })
            &&& step.state.caps == caps
            &&& step.state.sessions == state.cache.sessions.filter(
                |session: SessionView| state.cache.shows(session, kind.id_of()),
            )
            &&& step.state.selected is None
            &&& step.state.live is None && step.state.stored is None
            &&& step.state.clarify is None && step.state.last_error is None
            &&& step.state.conversation.messages.len() == 0 && !step.state.conversation.sending
            &&& step.state.generation != state.generation
            &&& step.state.connection == LinkView::Connecting
            &&& !step.state.transport_ready
            &&& !step.state.gateway_connecting
            &&& step.state == (AppView {
                settings: step.state.settings,
                caps: step.state.caps,
                transport_ready: step.state.transport_ready,
                gateway_connecting: step.state.gateway_connecting,
                connection: step.state.connection,
                selected: step.state.selected,
                sessions: step.state.sessions,
                conversation: step.state.conversation,
                live: step.state.live,
                stored: step.state.stored,
                clarify: step.state.clarify,
                last_error: step.state.last_error,
                generation: step.state.generation,
                ..state
            })
            &&& step.effects.len() == 5
            &&& step.effects[0] == EffectView::Disconnect
            &&& step.effects[1] == EffectView::SaveSettings
            &&& step.effects[2] == EffectView::Build(kind)
            &&& step.effects[3] == EffectView::Reset
            &&& step.effects[4] is Probe
        }),
{
    reveal(AppView::connect);
    let switched = state.with_backend(kind, settings, caps);
    a_connection_is_asked_for_once(switched);
    let step = state.switch_backend(kind, settings, caps);
    assert(step.effects[4] == switched.connect().effects[0]);
    assert(switched.sessions == state.cache.visible(state.cache.sessions, kind.id_of()));
}

/// A connection that is closed is so at once, no plan to save is left, and what is in flight
/// no longer counts.
pub proof fn a_closed_connection_is_disconnected(state: AppView)
    ensures
        ({
            let step = state.disconnect();
            &&& step.state == (AppView {
                transport_ready: false,
                gateway_connecting: false,
                connection: LinkView::Disconnected,
                generation: step.state.generation,
                ..state
            })
            &&& step.state.generation != state.generation
            &&& step.effects.len() == 2
            &&& step.effects[0] == EffectView::CancelSave
            &&& step.effects[1] == EffectView::Disconnect
        }),
{
}

/// A backend that is switched off is off, and the others stay as they are; the connection is
/// closed where it was the active one's.
pub proof fn a_disabled_backend_is_off(state: AppView, kind: BackendKind, other: BackendKind)
    ensures
        ({
            let step = state.disable_backend(kind);
            &&& !step.state.settings.enabled.contains(kind)
            &&& other != kind ==> (step.state.settings.enabled.contains(other)
                <==> state.settings.enabled.contains(other))
            &&& step.state.settings == (SettingsView {
                enabled: step.state.settings.enabled,
                ..state.settings
            })
            &&& step.effects[0] == EffectView::SaveSettings
            &&& state.settings.backend_kind == kind ==> {
                &&& step.effects.len() == 3
                &&& step.effects[1] == EffectView::CancelSave
                &&& step.effects[2] == EffectView::Disconnect
                &&& step.state.connection == LinkView::Disconnected
                &&& !step.state.transport_ready
                &&& step.state.generation != state.generation
            }
            &&& state.settings.backend_kind != kind ==> {
                &&& step.effects.len() == 1
                &&& step.state == (AppView { settings: step.state.settings, ..state })
            }
        }),
{
}

/// A credential that is cleared is empty and the settings are saved; a device that was paired
/// with its gateway is forgotten too.
pub proof fn a_cleared_credential_is_gone(state: AppView)
    ensures
        ({
            let step = state.clear_credential();
            &&& step.state.settings.session_token.len() == 0
            &&& step.state == (AppView {
                settings: SettingsView {
                    session_token: step.state.settings.session_token,
                    ..state.settings
                },
                ..state
            })
            &&& step.effects.last() == EffectView::SaveSettings
            &&& state.settings.backend_kind == BackendKind::OpenClaw ==> step.effects.len() == 2
                && step.effects[0] == EffectView::ForgetDevice(state.settings.base_url)
            &&& state.settings.backend_kind != BackendKind::OpenClaw ==> step.effects.len() == 1
        }),
{
}

/// A server moves to another workspace only where this client started it elsewhere for a
/// backend that is on. While a reply is being written it stays, and that is explained with
/// where it is running.
pub proof fn a_server_moves_between_replies(
    state: AppView,
    managed: bool,
    label: Seq<char>,
    started_in: Option<Seq<char>>,
)
    ensures
        ({
            let plan = state.workspace_move(managed, label, started_in);
            let due = managed && state.settings.enabled.contains(state.settings.backend_kind)
                && started_in != state.settings.workspace;
            &&& plan == MoveView::Stay <==> !due
            &&& plan == MoveView::Restart <==> due && !state.conversation.sending
            &&& plan is Explain <==> due && state.conversation.sending
            &&& plan matches MoveView::Explain(message) ==> {
                let place = if started_in is Some {
                    started_in->0
                } else {
                    "the app's own directory"@
                };
                message == label + " is still running in "@ + place
                    + "; a reply is being written, so the workspace applies at the next connect."@
            }
        }),
{
}

// -- models and permissions ---------------------------------------------------------------

/// One model is asked for at a time. One that was selected is the current one and the
/// configuration is read again; one that was not leaves the current one, and that is reported.
pub proof fn a_selected_model_is_the_current_one(
    state: AppView,
    option: ModelView,
    error: Seq<char>,
)
    ensures
        state.is_switching_model ==> state.select_model(option).effects.len() == 0
            && state.select_model(option).state == state,
        !state.is_switching_model ==> state.select_model(option).effects.len() == 1
            && state.select_model(option).effects[0] == EffectView::SelectModel(option)
            && state.select_model(option).state == (AppView { is_switching_model: true, ..state }),
        state.model_selected(option, Ok(())).state == (AppView {
            model_provider: option.provider,
            model_name: option.model,
            is_switching_model: false,
            ..state
        }),
        state.model_selected(option, Ok(())).effects.len() == 1,
        state.model_selected(option, Ok(())).effects[0] == EffectView::ReadModelConfig,
        state.model_selected(option, Err(error)).effects.len() == 0,
        state.model_selected(option, Err(error)).state == (AppView {
            is_switching_model: false,
            last_error: Some("Could not switch Hermes model: "@ + error),
            ..state
        }),
{
}

/// One permission mode is asked for at a time. One that was set is the current one; one that
/// was not leaves the current one, that is reported, and the backend is asked how it stands.
pub proof fn a_mode_that_was_set_is_the_current_one(
    state: AppView,
    mode: PermissionMode,
    error: Seq<char>,
)
    ensures
        state.is_changing_permission ==> state.ask_permission_mode(mode).effects.len() == 0
            && state.ask_permission_mode(mode).state == state,
        !state.is_changing_permission ==> state.ask_permission_mode(mode).effects.len() == 1
            && state.ask_permission_mode(mode).effects[0] == EffectView::SetPermissionMode(mode)
            && state.ask_permission_mode(mode).state == (AppView {
            is_changing_permission: true,
            ..state
        }),
        state.permission_mode_set(mode, Ok(())).effects.len() == 0,
        state.permission_mode_set(mode, Ok(())).state == (AppView {
            permission_mode: mode,
            is_changing_permission: false,
            ..state
        }),
        state.permission_mode_set(mode, Err(error)).effects.len() == 1,
        state.permission_mode_set(mode, Err(error)).effects[0] == EffectView::ReadPermissionMode,
        state.permission_mode_set(mode, Err(error)).state == (AppView {
            is_changing_permission: false,
            last_error: Some("Could not change Hermes permissions: "@ + error),
            ..state
        }),
{
}

/// The models that the backend offers are kept as they came, with the menu made of them.
pub proof fn offered_models_are_kept(
    state: AppView,
    provider: Seq<char>,
    model: Seq<char>,
    models: Seq<ModelView>,
    context_window: i64,
)
    ensures
        state.with_models(provider, model, models, context_window) == (AppView {
            model_provider: provider,
            model_name: model,
            models,
            context_window,
            model_groups: menu_of(models, provider, model),
            ..state
        }),
{
}

} // verus!
