//! Where a prompt that waits, an answer and a held prompt end up.

use crate::effects::{EffectView, QueuedView};
use crate::models::{AttachmentView, SessionView};
use crate::prompts::submitted;
use crate::sending::queue_place;
use crate::state::{AppView, HeldView};
use crate::words::trimmed;
use vstd::prelude::*;

verus! {

/// Whether the prompt at `place` is the first in the queue under `id`.
pub open spec fn first_under(queue: Seq<QueuedView>, id: Seq<char>, place: int) -> bool {
    &&& 0 <= place < queue.len()
    &&& queue[place].id == id
    &&& forall|i: int| 0 <= i < place ==> (#[trigger] queue[i]).id != id
}

/// Whether nothing but the queue and the composer differs between two states.
pub open spec fn same_but_for_prompts(before: AppView, after: AppView) -> bool {
    after == (AppView {
        queue: after.queue,
        composer_text: after.composer_text,
        composer_attachments: after.composer_attachments,
        ..before
    })
}

/// How many prompts the effects submit.
pub open spec fn submissions(effects: Seq<EffectView>) -> nat {
    effects.filter(|effect: EffectView| effect is Submit).len()
}

proof fn lemma_place(queue: Seq<QueuedView>, id: Seq<char>, place: int)
    requires
        first_under(queue, id, place),
    ensures
        queue_place(queue, id) == Some(place),
    decreases queue.len(),
{
    if place > 0 {
        assert(queue[0].id != id);
        let rest = queue.drop_first();
        assert forall|i: int| 0 <= i < place - 1 implies (#[trigger] rest[i]).id != id by {
            assert(rest[i] == queue[i + 1]);
        }
        lemma_place(rest, id, place - 1);
    }
}

proof fn lemma_no_place(queue: Seq<QueuedView>, id: Seq<char>)
    requires
        forall|i: int| 0 <= i < queue.len() ==> (#[trigger] queue[i]).id != id,
    ensures
        queue_place(queue, id) is None,
    decreases queue.len(),
{
    if queue.len() > 0 {
        assert(queue[0].id != id);
        let rest = queue.drop_first();
        assert forall|i: int| 0 <= i < rest.len() implies (#[trigger] rest[i]).id != id by {
            assert(rest[i] == queue[i + 1]);
        }
        lemma_no_place(rest, id);
    }
}

/// A prompt that is sent begins a turn with its text and then submits the text with its
/// attached files to the session, once; the state stays as it was.
pub proof fn a_sent_prompt_is_submitted(
    state: AppView,
    text: Seq<char>,
    attachments: Seq<AttachmentView>,
    session: Seq<char>,
)
    ensures
        ({
            let step = state.perform_send(text, attachments, session);
            &&& step.state == state
            &&& step.effects.len() > 0
            &&& step.effects[0] == EffectView::BeginTurn(text)
            &&& step.effects.contains(EffectView::ScheduleSave)
            &&& step.effects.last() == (EffectView::Submit {
                session_id: session,
                prompt: submitted(text, attachments),
            })
            &&& submissions(step.effects) == 1
        }),
{
    reveal(AppView::perform_send);
    reveal(Seq::filter);
    let step = state.perform_send(text, attachments, session);
    assert(step.effects[1] == EffectView::ScheduleSave);
    let only_submit = |effect: EffectView| effect is Submit;
    assert(step.effects.len() == 3);
    let two = step.effects.drop_last();
    let one = two.drop_last();
    assert(two.last() == step.effects[1]);
    assert(one.last() == step.effects[0]);
    assert(one.drop_last() =~= Seq::<EffectView>::empty());
    assert(one.drop_last().filter(only_submit).len() == 0);
    assert(one.filter(only_submit).len() == 0);
    assert(two.filter(only_submit).len() == 0);
}

/// A waiting prompt that is sent now while a turn runs leaves the queue, and the turn is
/// stopped for it. Once the turn has stopped, and whatever else has happened until then, the
/// prompt goes with its attached files to the session that is live.
pub proof fn a_prompt_sent_now_is_submitted_once_the_turn_has_stopped(
    state: AppView,
    id: Seq<char>,
    place: int,
    later: AppView,
)
    requires
        first_under(state.queue, id, place),
        state.live is Some,
        state.conversation.sending,
        later.live is Some,
    ensures
        ({
            let asked = state.send_queued_now(id);
            let item = state.queue[place];
            &&& asked.state.queue == state.queue.remove(place)
            &&& same_but_for_prompts(state, asked.state)
            &&& asked.state.composer_text == state.composer_text
            &&& asked.effects.len() == 1
            &&& asked.effects[0] == (EffectView::Interrupt {
                session_id: state.live->0,
                queued: Some(item),
            })
            &&& later.interrupted_for(item, Ok(())).state == later
            &&& later.interrupted_for(item, Ok(())).effects.contains(
                EffectView::BeginTurn(item.text),
            )
            &&& later.interrupted_for(item, Ok(())).effects.last() == (EffectView::Submit {
                session_id: later.live->0,
                prompt: submitted(item.text, item.attachments),
            })
            &&& submissions(later.interrupted_for(item, Ok(())).effects) == 1
        }),
{
    lemma_place(state.queue, id, place);
    let item = state.queue[place];
    a_sent_prompt_is_submitted(later, item.text, item.attachments, later.live->0);
    assert(later.interrupted_for(item, Ok(())).effects[0] == EffectView::BeginTurn(item.text));
}

/// A waiting prompt that is sent now while no turn runs goes to the live session at once.
pub proof fn a_prompt_sent_now_goes_at_once_where_no_turn_runs(
    state: AppView,
    id: Seq<char>,
    place: int,
)
    requires
        first_under(state.queue, id, place),
        state.live is Some,
        !state.conversation.sending,
    ensures
        ({
            let step = state.send_queued_now(id);
            let item = state.queue[place];
            &&& step.state.queue == state.queue.remove(place)
            &&& same_but_for_prompts(state, step.state)
            &&& step.state.composer_text == state.composer_text
            &&& step.state.composer_attachments == state.composer_attachments
            &&& step.effects[0] == EffectView::BeginTurn(item.text)
            &&& step.effects.last() == (EffectView::Submit {
                session_id: state.live->0,
                prompt: submitted(item.text, item.attachments),
            })
            &&& submissions(step.effects) == 1
        }),
{
    lemma_place(state.queue, id, place);
    let item = state.queue[place];
    a_sent_prompt_is_submitted(
        state.without_queued(place),
        item.text,
        item.attachments,
        state.live->0,
    );
}

/// Where a turn cannot be stopped for a waiting prompt, that is reported and nothing is
/// submitted. Without a live session nothing is submitted either.
pub proof fn a_turn_that_cannot_be_stopped_is_reported(
    state: AppView,
    item: QueuedView,
    error: Seq<char>,
)
    ensures
        state.interrupted_for(item, Err(error)).effects.len() == 0,
        state.interrupted_for(item, Err(error)).state == (AppView {
            last_error: Some("Could not interrupt before sending queued: "@ + error),
            ..state
        }),
        state.live is None ==> state.interrupted_for(item, Ok(())).effects.len() == 0
            && state.interrupted_for(item, Ok(())).state == state,
{
}

/// Without a live session a waiting prompt cannot be sent now, which is reported in the
/// backend's name; an id that nothing waits under changes nothing.
pub proof fn a_prompt_without_a_session_cannot_be_sent_now(
    state: AppView,
    id: Seq<char>,
    place: int,
)
    ensures
        first_under(state.queue, id, place) && state.live is None ==> state.send_queued_now(
            id,
        ).effects.len() == 0 && state.send_queued_now(id).state == (AppView {
            queue: state.queue.remove(place),
            last_error: Some(state.settings.backend_kind.name_of() + " session is not ready yet."@),
            ..state
        }),
        (forall|i: int| 0 <= i < state.queue.len() ==> (#[trigger] state.queue[i]).id != id)
            ==> state.send_queued_now(id).effects.len() == 0 && state.send_queued_now(id).state
            == state,
{
    if first_under(state.queue, id, place) {
        lemma_place(state.queue, id, place);
    }
    if forall|i: int| 0 <= i < state.queue.len() ==> (#[trigger] state.queue[i]).id != id {
        lemma_no_place(state.queue, id);
    }
}

/// A waiting prompt that is edited is in the composer, with its attached files, and no
/// longer in the queue; the others wait on in their order.
pub proof fn an_edited_prompt_is_in_the_composer(state: AppView, id: Seq<char>, place: int)
    ensures
        first_under(state.queue, id, place) ==> {
            let after = state.edit_queued(id);
            &&& after.composer_text == state.queue[place].text
            &&& after.composer_attachments == state.queue[place].attachments
            &&& after.queue == state.queue.take(place) + state.queue.skip(place + 1)
            &&& same_but_for_prompts(state, after)
        },
        (forall|i: int| 0 <= i < state.queue.len() ==> (#[trigger] state.queue[i]).id != id)
            ==> state.edit_queued(id) == state,
{
    if first_under(state.queue, id, place) {
        lemma_place(state.queue, id, place);
        assert(state.queue.remove(place) =~= state.queue.take(place) + state.queue.skip(
            place + 1,
        ));
    }
    if forall|i: int| 0 <= i < state.queue.len() ==> (#[trigger] state.queue[i]).id != id {
        lemma_no_place(state.queue, id);
    }
}

/// The next prompt is the one that has waited longest, and only that one goes.
pub proof fn the_longest_waiting_prompt_goes_first(state: AppView)
    ensures
        state.queue.len() == 0 ==> state.send_next_queued().effects.len() == 0
            && state.send_next_queued().state == state,
        state.queue.len() > 0 ==> state.send_next_queued().state == (AppView {
            queue: state.queue.skip(1),
            ..state
        }),
        state.queue.len() > 0 && state.live is Some ==> {
            let step = state.send_next_queued();
            &&& step.effects[0] == EffectView::BeginTurn(state.queue[0].text)
            &&& step.effects.last() == (EffectView::Submit {
                session_id: state.live->0,
                prompt: submitted(state.queue[0].text, state.queue[0].attachments),
            })
            &&& submissions(step.effects) == 1
        },
        state.queue.len() > 0 && state.live is None ==> state.send_next_queued().effects.len()
            == 0,
{
    reveal(AppView::send_next_queued);
    if state.queue.len() > 0 {
        assert(state.queue.remove(0) =~= state.queue.skip(1));
        if state.live is Some {
            a_sent_prompt_is_submitted(
                state.without_queued(0),
                state.queue[0].text,
                state.queue[0].attachments,
                state.live->0,
            );
            reveal(AppView::perform_send);
        }
    }
}

/// The running turn of the live session is stopped when the user asks for it, and nothing is
/// sent after it. Where none runs there is nothing to stop.
pub proof fn a_running_turn_is_stopped(state: AppView)
    ensures
        state.interrupt_running().state == state,
        state.live is Some && state.conversation.sending
            ==> state.interrupt_running().effects.len() == 1
            && state.interrupt_running().effects[0] == (EffectView::Interrupt {
            session_id: state.live->0,
            queued: None,
        }),
        state.live is None || !state.conversation.sending
            ==> state.interrupt_running().effects.len() == 0,
{
}

/// An answer goes to the question that is open, without the white space around it, and
/// closes it; it is shown as a turn of its own after the one that asked. An empty answer, or
/// one to no question, goes nowhere.
pub proof fn an_answer_goes_to_the_open_question(state: AppView, answer: Seq<char>)
    ensures
        state.clarify is Some && trimmed(answer).len() > 0 ==> {
            let step = state.answer_clarify(answer);
            &&& step.state == (AppView { clarify: None, ..state })
            &&& step.effects.len() == 4
            &&& step.effects[0] == EffectView::FinishTurn
            &&& step.effects[1] == EffectView::BeginTurn(trimmed(answer))
            &&& step.effects[2] == EffectView::ScheduleSave
            &&& step.effects[3] == (EffectView::Respond {
                request_id: state.clarify->0.request_id,
                answer: trimmed(answer),
            })
        },
        state.clarify is None || trimmed(answer).len() == 0 ==> state.answer_clarify(
            answer,
        ).effects.len() == 0 && state.answer_clarify(answer).state == state,
{
    reveal(AppView::answer_clarify);
}

/// A question that is dismissed is closed, and the backend hears which one it was.
pub proof fn a_dismissed_question_is_closed(state: AppView)
    ensures
        state.dismiss_clarify().state == (AppView { clarify: None, ..state }),
        state.clarify is Some ==> state.dismiss_clarify().effects.len() == 1
            && state.dismiss_clarify().effects[0] == (EffectView::Dismiss {
            request_id: state.clarify->0.request_id,
        }),
        state.clarify is None ==> state.dismiss_clarify().effects.len() == 0,
{
}

/// What is typed while a question is open answers it, and the composer is empty again; no
/// prompt is submitted or queued for it.
pub proof fn typing_answers_an_open_question(state: AppView, id: Seq<char>)
    requires
        state.clarify is Some,
    ensures
        trimmed(state.composer_text).len() > 0 ==> {
            let step = state.send_composer(id);
            &&& step.state == (AppView {
                clarify: None,
                composer_text: seq![],
                composer_attachments: seq![],
                ..state
            })
            &&& step.effects.last() == (EffectView::Respond {
                request_id: state.clarify->0.request_id,
                answer: trimmed(state.composer_text),
            })
            &&& forall|i: int|
                0 <= i < step.effects.len() ==> !((#[trigger] step.effects[i]) is Submit)
        },
        trimmed(state.composer_text).len() == 0 ==> state.send_composer(id).effects.len() == 0
            && state.send_composer(id).state == state,
{
    reveal(AppView::answer_clarify);
    lemma_trimmed_twice(state.composer_text);
}

proof fn lemma_trimmed_twice(text: Seq<char>)
    ensures
        trimmed(trimmed(text)) == trimmed(text),
{
    let _ = crate::word_laws::every_text_can_be_trimmed(text);
    let bare = trimmed(text);
    crate::word_laws::trimming_takes_white_space_alone(seq![], bare, seq![]);
    assert(Seq::<char>::empty() + bare + Seq::<char>::empty() =~= bare);
}

/// What is sent while a session is live and no turn runs goes to that session as it was
/// typed, without the white space around it, and the composer is empty again.
pub proof fn what_is_typed_goes_to_the_live_session(state: AppView, id: Seq<char>)
    requires
        state.clarify is None,
        state.live is Some,
        state.transport_ready,
        !state.conversation.sending,
        trimmed(state.composer_text).len() > 0 || state.composer_attachments.len() > 0,
    ensures
        ({
            let step = state.send_composer(id);
            &&& step.state == (AppView {
                composer_text: seq![],
                composer_attachments: seq![],
                ..state
            })
            &&& step.effects[0] == EffectView::BeginTurn(trimmed(state.composer_text))
            &&& step.effects.last() == (EffectView::Submit {
                session_id: state.live->0,
                prompt: submitted(trimmed(state.composer_text), state.composer_attachments),
            })
            &&& submissions(step.effects) == 1
        }),
{
    a_sent_prompt_is_submitted(
        state.composer_cleared(),
        trimmed(state.composer_text),
        state.composer_attachments,
        state.live->0,
    );
}

/// An empty composer sends nothing.
pub proof fn an_empty_composer_sends_nothing(state: AppView, id: Seq<char>)
    requires
        trimmed(state.composer_text).len() == 0,
        state.composer_attachments.len() == 0,
    ensures
        state.send_composer(id).effects.len() == 0,
        state.send_composer(id).state == state,
{
}

/// A prompt that is typed while a turn runs waits whole, under its own id, behind those that
/// wait already, and the composer is empty again.
pub proof fn a_prompt_waits_whole(state: AppView, id: Seq<char>)
    requires
        state.clarify is None,
        state.live is Some,
        state.transport_ready,
        state.conversation.sending,
        trimmed(state.composer_text).len() > 0 || state.composer_attachments.len() > 0,
    ensures
        state.send_composer(id).effects.len() == 0,
        state.send_composer(id).state == (AppView {
            queue: state.queue.push(
                QueuedView {
                    id,
                    text: trimmed(state.composer_text),
                    attachments: state.composer_attachments,
                },
            ),
            composer_text: seq![],
            composer_attachments: seq![],
            ..state
        }),
{
}

/// A prompt for a session on screen that is no longer to be found stays in the composer, and
/// that is reported.
pub proof fn a_prompt_for_a_lost_session_stays(state: AppView, id: Seq<char>)
    requires
        state.clarify is None,
        state.live is None || !state.transport_ready,
        trimmed(state.composer_text).len() > 0 || state.composer_attachments.len() > 0,
        state.selected is None,
        state.stored is Some,
        forall|i: int|
            0 <= i < state.sessions.len() ==> Some((#[trigger] state.sessions[i]).id)
                != state.stored,
    ensures
        state.send_composer(id).effects.len() == 0,
        state.send_composer(id).state == (AppView {
            composer_text: trimmed(state.composer_text),
            last_error: Some("That session is no longer in the list."@),
            ..state
        }),
{
    crate::word_laws::the_first_session_counts(
        state.sessions,
        state.stored->0,
        state.sessions.len() as int,
    );
}

/// A prompt for a listed session that is not live brings that session on screen and asks for
/// it to be resumed; the prompt is held for it.
pub proof fn a_prompt_brings_its_session_back(
    state: AppView,
    id: Seq<char>,
    session: SessionView,
    place: int,
)
    requires
        state.clarify is None,
        state.live is None || !state.transport_ready,
        trimmed(state.composer_text).len() > 0 || state.composer_attachments.len() > 0,
        state.selected is Some && session == state.selected->0 || state.selected is None && 0
            <= place < state.sessions.len() && session == state.sessions[place] && (forall|i: int|
            0 <= i < place ==> (#[trigger] state.sessions[i]).id != session.id) && state.stored
            == Some(session.id),
    ensures
        ({
            let step = state.send_composer(id);
            &&& step.state.selected == Some(session)
            &&& step.state.held == Some(
                HeldView {
                    session: Some(
                        if state.stored is Some {
                            state.stored->0
                        } else {
                            session.id
                        },
                    ),
                    text: trimmed(state.composer_text),
                    attachments: state.composer_attachments,
                },
            )
            &&& step.effects.last() is Resume
            &&& step.effects.last()->Resume_session_id == session.id
            &&& step.effects.last()->Resume_generation == step.state.generation
            &&& step.state.generation != state.generation
            &&& submissions(step.effects) == 0
        }),
{
    reveal(AppView::resume_session);
    reveal(AppView::connect_gateway);
    if state.selected is None {
        crate::word_laws::the_first_session_counts(state.sessions, session.id, place);
    }
    let step = state.send_composer(id);
    assert forall|i: int| 0 <= i < step.effects.len() implies !((#[trigger] step.effects[i]) is Submit) by {}
    lemma_no_submission(step.effects);
}

proof fn lemma_no_submission(effects: Seq<EffectView>)
    requires
        forall|i: int| 0 <= i < effects.len() ==> !((#[trigger] effects[i]) is Submit),
    ensures
        submissions(effects) == 0,
    decreases effects.len(),
{
    reveal(Seq::filter);
    if effects.len() > 0 {
        let rest = effects.drop_last();
        assert forall|i: int| 0 <= i < rest.len() implies !((#[trigger] rest[i]) is Submit) by {
            assert(rest[i] == effects[i]);
        }
        lemma_no_submission(rest);
        assert(!(effects[effects.len() - 1] is Submit));
    }
}

/// A prompt that is typed with nothing on screen is held for a new chat, which is asked for.
pub proof fn a_prompt_asks_for_a_new_chat(state: AppView, id: Seq<char>)
    requires
        state.clarify is None,
        state.live is None || !state.transport_ready,
        trimmed(state.composer_text).len() > 0 || state.composer_attachments.len() > 0,
        state.selected is None,
        state.stored is None,
    ensures
        ({
            let step = state.send_composer(id);
            &&& step.state.held == Some(
                HeldView {
                    session: None,
                    text: trimmed(state.composer_text),
                    attachments: state.composer_attachments,
                },
            )
            &&& step.effects.last() is Create
            &&& step.effects.last()->Create_generation == step.state.generation
            &&& step.effects.last()->Create_backend == state.settings.backend_kind
            &&& step.effects.last()->Create_profile == state.settings.profile
            &&& step.state.generation != state.generation
            &&& step.state.selected is None
        }),
{
    reveal(AppView::start_fresh_chat);
    reveal(AppView::connect_gateway);
}

} // verus!
