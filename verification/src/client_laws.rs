//! What a frontend is told, and how a client stays connected.

use crate::client::{retry_seconds_of, AgentEvent, Applied, ClientView, Request};
use crate::json::{json_member, JsonView};
use crate::open_session::{OpenView, PARKED_LIMIT};
use crate::queue::{
    clarify_view, connection_view, delta_view, error_view, queued, session_view,
    sessions_changed_view, MAX_QUEUED_EVENTS,
};
use crate::settings::{SavedView, SettingsView};
use crate::wire_laws::an_event_carries_what_it_was_made_from;
use crate::words::text_before_in_order;
use vstd::prelude::*;

verus! {

// -- the queue ---------------------------------------------------------------------------

/// Whether an event brings the text of a reply that goes on.
pub open spec fn brings_a_reply(event: JsonView) -> bool {
    &&& json_member(event, "event"@) == Some(JsonView::Text("assistant"@))
    &&& json_member(event, "done"@) == Some(JsonView::Flag(false))
}

/// An event that does not bring the text of a reply that goes on waits behind all the others,
/// and no event takes its place. Where too many wait, the one that has waited longest goes.
pub proof fn an_event_waits_behind_the_others(
    queue: Seq<JsonView>,
    event: JsonView,
    later: JsonView,
)
    requires
        !brings_a_reply(event),
        queue.len() < MAX_QUEUED_EVENTS,
    ensures
        queued(queue, event) == queue.push(event),
        queue.len() + 1 < MAX_QUEUED_EVENTS ==> queued(queue.push(event), later) == queue.push(
            event,
        ).push(later),
        queue.len() + 1 == MAX_QUEUED_EVENTS ==> queued(queue.push(event), later) == queue.push(
            event,
        ).push(later).skip(1),
{
}

/// Replies to different messages do not take each other's place.
pub proof fn replies_to_two_messages_both_wait(
    queue: Seq<JsonView>,
    first: Seq<char>,
    second: Seq<char>,
    text: Seq<char>,
    other: Seq<char>,
)
    requires
        first != second,
        queue.len() + 1 < MAX_QUEUED_EVENTS,
    ensures
        queued(queue.push(delta_view(first, text)), delta_view(second, other)) == queue.push(
            delta_view(first, text),
        ).push(delta_view(second, other)),
{
    an_event_carries_what_it_was_made_from(seq![], first, text, seq![]);
    an_event_carries_what_it_was_made_from(seq![], second, other, seq![]);
}

/// A reply that goes on takes the place of the event before it exactly where that is a reply
/// to the same message: both carry no id, or both carry the same one. An id that is a text is
/// the same as no other.
pub proof fn a_reply_takes_the_place_of_its_own(
    queue: Seq<JsonView>,
    last: JsonView,
    event: JsonView,
)
    requires
        brings_a_reply(last),
        brings_a_reply(event),
        queue.len() + 1 < MAX_QUEUED_EVENTS,
    ensures
        ({
            let (old_id, new_id) = (json_member(last, "id"@), json_member(event, "id"@));
            let after = queued(queue.push(last), event);
            &&& old_id is None && new_id is None ==> after == queue.push(event)
            &&& (old_id is None) != (new_id is None) ==> after == queue.push(last).push(event)
            &&& old_id is Some && new_id is Some && old_id->0 is Text && old_id == new_id ==> after
                == queue.push(event)
            &&& old_id is Some && new_id is Some && (old_id->0 is Text || new_id->0 is Text)
                && old_id != new_id ==> after == queue.push(last).push(event)
        }),
{
    assert(queue.push(last).drop_last() =~= queue);
}

/// The queue has room for this many events, and so many conversations are kept for sessions
/// that were left.
pub proof fn there_is_room_for_as_many()
    ensures
        MAX_QUEUED_EVENTS == 512,
        PARKED_LIMIT == 8,
{
}

/// What a client is told changes nothing of it but what waits for the frontend; what was
/// handed over waits no longer.
pub proof fn telling_changes_the_queue_alone<C>(
    client: ClientView<C>,
    event: JsonView,
    message: Seq<char>,
)
    ensures
        client.told(event) == (ClientView { events: queued(client.events, event), ..client }),
        client.told_error(message) == client.told(error_view(message)),
        client.polled() == (ClientView { events: seq![], ..client }),
{
}

// -- the connection --------------------------------------------------------------------------

/// The wait doubles from one second on, and then stays at half a minute.
pub proof fn the_wait_doubles_up_to_a_bound(attempt: int)
    ensures
        retry_seconds_of(0) == 1,
        0 <= attempt < 3 ==> retry_seconds_of(attempt + 1) == 2 * retry_seconds_of(attempt),
        retry_seconds_of(4) == 15,
        attempt >= 5 ==> retry_seconds_of(attempt) == 30,
{
}

/// A connection that is up is left alone unless it is to be started over, and also then while
/// a turn runs on it; one that is down never is.
pub proof fn a_connection_is_started_over_between_turns<C>(
    client: ClientView<C>,
    force: bool,
    sending: bool,
)
    ensures
        !client.live ==> !client.keeps_connection(force, sending),
        client.live && !force ==> client.keeps_connection(force, sending),
        client.live && sending ==> client.keeps_connection(force, sending),
        client.live && force && !sending ==> !client.keeps_connection(force, sending),
{
}

/// An attempt to connect is wanted, not up yet, and numbered after the one before it; nothing
/// else of the client changes.
pub proof fn an_attempt_gets_the_next_number<C>(client: ClientView<C>)
    ensures
        client.connecting() == (ClientView {
            wanted: true,
            live: false,
            generation: client.connecting().generation,
            ..client
        }),
        client.generation < u64::MAX ==> client.connecting().generation == client.generation + 1,
        client.generation == u64::MAX ==> client.connecting().generation == 0,
        client.closed().generation == client.connecting().generation,
{
}

/// A connection that the user closed is neither wanted nor up, and its backend is switched
/// off; what is on screen and what waits for the frontend stay.
pub proof fn a_client_that_was_closed_stays_as_it_was<C>(client: ClientView<C>)
    ensures
        !client.closed().wanted,
        !client.closed().live,
        client.closed().open == client.open,
        client.closed().events == client.events,
        client.closed().built_for == client.built_for,
        client.closed().settings == (SettingsView {
            enabled: client.settings.enabled.remove(client.settings.backend_kind),
            ..client.settings
        }),
{
}

/// A loop goes on exactly while the connection is wanted and no newer attempt was made.
pub proof fn a_loop_goes_on_while_it_is_wanted<C>(client: ClientView<C>, generation: u64)
    ensures
        client.goes_on(generation) <==> client.wanted && client.generation == generation,
{
}

/// Other ids change nothing of a client but the ids.
pub proof fn ids_change_alone<C>(
    client: ClientView<C>,
    live: Option<Seq<char>>,
    stored: Option<Seq<char>>,
)
    ensures
        client.with_ids(live, stored).open.live_id == live,
        client.with_ids(live, stored).open.stored_id == stored,
        client.with_ids(live, stored).open.conversation == client.open.conversation,
        client.with_ids(live, stored).open.parked == client.open.parked,
        client.with_ids(live, stored) == (ClientView {
            open: client.with_ids(live, stored).open,
            ..client
        }),
{
}

// -- what the backend reports -----------------------------------------------------------------

/// The frontend hears of the connection, of the session, of a list that changed and of a
/// question as they are reported; a session that reports itself is the live one.
pub proof fn the_frontend_hears_what_is_reported<C>(
    client: ClientView<C>,
    event: AgentEvent,
    sending: bool,
)
    ensures
        ({
            let after = client.applied(event, sending).0;
            let left = client.applied(event, sending).1;
            &&& event is Connected ==> left == Applied::Done && after == client.told(
                connection_view("connected"@),
            )
            &&& event is Disconnected ==> left == Applied::Done && after == client.told(
                connection_view("disconnected"@),
            )
            &&& event is SessionsChanged ==> left == Applied::Done && after == client.told(
                sessions_changed_view(),
            )
            &&& event matches AgentEvent::SessionInfo(id) ==> left == Applied::Done
                && after.open.live_id == Some(id@) && after.open.stored_id == client.open.stored_id
                && after.open.conversation == client.open.conversation && after.events == queued(
                client.events,
                session_view(id@),
            )
            &&& event matches AgentEvent::Clarify { question, choices, request_id } ==> left
                == Applied::Done && after == client.told(
                clarify_view(
                    request_id@,
                    question@,
                    choices@.map_values(|choice: String| choice@),
                ),
            )
        }),
{
}

/// A failure ends the turn that runs, which reports it; where none runs it is reported at
/// once. What belongs to a turn is folded in where it belongs to what is on screen, and is
/// dropped otherwise; neither tells the frontend anything yet.
pub proof fn a_failure_ends_the_turn<C>(client: ClientView<C>, event: AgentEvent, sending: bool)
    ensures
        ({
            let after = client.applied(event, sending).0;
            let left = client.applied(event, sending).1;
            &&& event is Failed && sending ==> left == Applied::FinishTurn && after == client
            &&& event matches AgentEvent::Failed(message) ==> !sending ==> left == Applied::Done
                && after == client.told(error_view(message@))
            &&& event is Turn ==> after == client && (left == Applied::Fold
                <==> client.open.live_id is Some || client.open.stored_id is None) && (left
                == Applied::Dropped <==> client.open.live_id is None
                && client.open.stored_id is Some)
        }),
{
}

/// A request that did not reach the backend is reported by what was asked.
pub proof fn a_failed_request_is_named()
    ensures
        Request::Prompt.failure() == "could not send the prompt: "@,
        Request::Interrupt.failure() == "could not interrupt: "@,
        Request::Answer.failure() == "could not answer: "@,
{
}

// -- the session on screen ------------------------------------------------------------------

/// A switch brings the conversation of the session on screen: the one that was kept for it,
/// the one on screen where it is that one's, and a fresh one where it was never seen. The ids
/// are left to the caller.
pub proof fn a_switch_brings_the_sessions_conversation<C>(
    open: OpenView<C>,
    id: Option<Seq<char>>,
    fresh: C,
    after: OpenView<C>,
)
    requires
        open.switched(id, fresh, after),
    ensures
        after.live_id == open.live_id,
        after.stored_id == open.stored_id,
        ({
            let own = if open.stored_id is Some {
                open.stored_id
            } else {
                open.live_id
            };
            &&& id is None ==> after.conversation == fresh
            &&& id is Some && id == own ==> after.conversation == open.conversation
            &&& id is Some && id != own && open.parked.contains_key(id->0) ==> after.conversation
                == open.parked[id->0]
            &&& id is Some && id != own && !open.parked.contains_key(id->0)
                ==> after.conversation == fresh
        }),
{
}

/// A switch keeps the conversation that was left, and all that were kept before; where that is
/// one too many, the one that goes is the first in order among the others.
pub proof fn a_switch_keeps_what_was_left<C>(
    open: OpenView<C>,
    id: Option<Seq<char>>,
    fresh: C,
    after: OpenView<C>,
    key: Seq<char>,
)
    requires
        open.switched(id, fresh, after),
        open.parked.dom().finite(),
        open.parked.dom().len() <= PARKED_LIMIT,
        id != Some(key),
    ensures
        ({
            let own = if open.stored_id is Some {
                open.stored_id
            } else {
                open.live_id
            };
            &&& own == Some(key) ==> after.parked.contains_key(key) && after.parked[key]
                == open.conversation
            &&& own != Some(key) && after.parked.contains_key(key) ==> open.parked.contains_key(key)
                && after.parked[key] == open.parked[key]
            &&& own != Some(key) && open.parked.contains_key(key) && open.parked.dom().len()
                < PARKED_LIMIT ==> after.parked.contains_key(key)
            &&& own is None && open.parked.contains_key(key) ==> after.parked.contains_key(key)
            &&& own != Some(key) && open.parked.contains_key(key) && !after.parked.contains_key(key)
                ==> forall|other: Seq<char>| #[trigger]
                text_before_in_order(key, other) || other == key || !(open.parked.contains_key(
                    other,
                ) && Some(other) != own && Some(other) != id)
        }),
        id is Some ==> !after.parked.contains_key(id->0),
{
    let rest = open.left_behind(id);
    let own = open.key();
    let all = open.filed();
    assert(all.dom().finite());
    if own is Some {
        assert(all.dom() =~= open.parked.dom().insert(own->0));
    }
    if id is Some {
        assert(rest.dom() =~= all.dom().remove(id->0));
    } else {
        assert(rest.dom() =~= all.dom());
    }
    assert(rest.dom().len() <= all.dom().len());
    if rest.dom().len() > PARKED_LIMIT {
        let gone = choose|gone: Seq<char>|
            #[trigger] crate::keyed::is_first_key(rest.dom().remove(open.key()->0), gone)
                && after.parked == rest.remove(gone);
        assert(own is Some);
        assert(gone != own->0);
        assert(own != Some(key) && open.parked.contains_key(key) ==> rest.dom().contains(key));
        assert forall|other: Seq<char>|
            own != Some(key) && open.parked.contains_key(key) && !after.parked.contains_key(key)
                implies #[trigger] text_before_in_order(key, other) || other == key || !(
        open.parked.contains_key(other) && Some(other) != own && Some(other) != id) by {
            assert(key == gone);
            if open.parked.contains_key(other) && Some(other) != own && Some(other) != id {
                assert(rest.dom().remove(own->0).contains(other));
            }
        }
    }
}

/// A conversation belongs to its session by the key on the backend, and by the live id only
/// where it has none.
pub proof fn a_conversation_goes_by_its_stored_key<C>(open: OpenView<C>)
    ensures
        open.stored_id is Some ==> open.key() == open.stored_id,
        open.stored_id is None ==> open.key() == open.live_id,
        open.accepts_turn_events() <==> open.live_id is Some || open.stored_id is None,
{
}

// -- settings --------------------------------------------------------------------------------

/// A session is remembered with the backend that issued it, and nothing else changes; one
/// that was saved is found exactly on the backend that issued it.
pub proof fn a_session_is_remembered_with_its_backend(settings: SettingsView, id: Seq<char>)
    ensures
        settings.remembering(id) == (SettingsView {
            last_session: Some(SavedView { backend: settings.backend_kind.id_of(), id }),
            ..settings
        }),
        settings.last_session is None ==> settings.saved_session() is None,
        settings.last_session matches Some(saved) ==> (settings.saved_session() is Some
            <==> saved.backend == settings.backend_kind.id_of()) && (settings.saved_session()
            is Some ==> settings.saved_session() == Some(saved.id)),
{
}

/// A client reaches its backend with what was set up.
pub proof fn a_client_reaches_its_backend_as_set_up(settings: SettingsView)
    ensures
        settings.config().base_url == settings.base_url,
        settings.config().credential == settings.session_token,
        settings.config().profile == settings.profile,
        settings.config().workspace == settings.workspace,
{
}

} // verus!
