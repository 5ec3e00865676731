//! The events that wait for the frontend, and what they look like.

use crate::json::{
    field, flag_member, integer_view, json_equal, json_fields, json_flag, json_integer, json_items,
    json_list, json_maybe, json_member, json_null, json_object, json_str, json_view, member,
    member_flag, member_text, members_of, object_of, same_value, text_member, text_or_null,
    JsonView,
};
use crate::models::{ChatMessage, MessageRole, MessageView, ToolCall, ToolCallView};
use crate::words::{maybe_text, same_text};
use serde_json::Value;
use vstd::prelude::*;

verus! {

/// Cap on the queue, so that a frontend that stops polling cannot grow it without bound.
pub const MAX_QUEUED_EVENTS: usize = 512;

// -- the queue -----------------------------------------------------------------

/// Whether an event carries the text of a reply that is still being written.
pub open spec fn is_delta(event: JsonView) -> bool {
    &&& member_text(event, "event"@) == Some("assistant"@)
    &&& member_flag(event, "done"@) == Some(false)
}

/// Whether two events are of the same message.
pub open spec fn same_message(left: JsonView, right: JsonView) -> bool {
    match (json_member(left, "id"@), json_member(right, "id"@)) {
        (Some(left), Some(right)) => if left is Text || right is Text {
            left == right
        } else {
            json_equal(left, right)
        },
        (None, None) => true,
        _ => false,
    }
}

/// Whether `event` takes the place of `last`: both are deltas of one message.
pub open spec fn supersedes(event: JsonView, last: JsonView) -> bool {
    is_delta(event) && is_delta(last) && same_message(last, event)
}

/// The queue with `event` at its end, before it is cut to size.
pub open spec fn extended(queue: Seq<JsonView>, event: JsonView) -> Seq<JsonView> {
    if queue.len() > 0 && supersedes(event, queue.last()) {
        queue.drop_last().push(event)
    } else {
        queue.push(event)
    }
}

/// The queue with `event` at its end. The oldest events go where there are too many.
pub open spec fn queued(queue: Seq<JsonView>, event: JsonView) -> Seq<JsonView> {
    let all = extended(queue, event);
    if all.len() > MAX_QUEUED_EVENTS {
        all.skip(all.len() - MAX_QUEUED_EVENTS)
    } else {
        all
    }
}

fn is_delta_event(event: &Value) -> (delta: bool)
    ensures
        delta == is_delta(json_view(*event)),
{
    let named: bool = match text_member(event, "event") {
        Some(name) => same_text(name, "assistant"),
        None => false,
    };
    let writing: bool = match flag_member(event, "done") {
        Some(done) => !done,
        None => false,
    };
    named && writing
}

fn of_same_message(left: &Value, right: &Value) -> (same: bool)
    ensures
        same == same_message(json_view(*left), json_view(*right)),
{
    match (member(left, "id"), member(right, "id")) {
        (Some(left), Some(right)) => same_value(left, right),
        (None, None) => true,
        _ => false,
    }
}

/// Put an event into the queue. A streaming delta replaces the previous one for the same
/// message instead of queueing behind it.
pub fn push(queue: &mut Vec<Value>, event: Value)
    ensures
        json_items(final(queue)@) == queued(json_items(old(queue)@), json_view(event)),
{
    let ghost before = json_items(queue@);
    let count: usize = queue.len();
    if count > 0 && is_delta_event(&event) && is_delta_event(&queue[count - 1]) && of_same_message(
        &queue[count - 1],
        &event,
    ) {
        let _ = queue.pop();
        assert(json_items(queue@) =~= before.drop_last());
    }
    let ghost shorter = json_items(queue@);
    queue.push(event);
    assert(json_items(queue@) =~= shorter.push(json_view(event)));
    let ghost all = queue@;
    if queue.len() > MAX_QUEUED_EVENTS {
        let overflow: usize = queue.len() - MAX_QUEUED_EVENTS;
        let kept: Vec<Value> = queue.split_off(overflow);
        *queue = kept;
        assert(json_items(queue@) =~= json_items(all).skip(overflow as int));
    }
}

/// Take everything that was queued.
pub fn poll(queue: &mut Vec<Value>) -> (taken: Vec<Value>)
    ensures
        taken@ == old(queue)@,
        final(queue)@ == Seq::<Value>::empty(),
{
    let mut taken: Vec<Value> = Vec::new();
    core::mem::swap(queue, &mut taken);
    taken
}

/// The queue never holds more than its cap, and what was put in last is in it.
pub proof fn the_queue_is_capped(queue: Seq<JsonView>, event: JsonView)
    ensures
        0 < queued(queue, event).len() <= MAX_QUEUED_EVENTS,
        queued(queue, event).last() == event,
{
}

/// Nothing is swallowed but the delta that the event continues: every other event that
/// was waiting still waits, in its place.
pub proof fn only_the_previous_delta_is_swallowed(queue: Seq<JsonView>, event: JsonView)
    requires
        queue.len() < MAX_QUEUED_EVENTS,
    ensures
        queue.len() == 0 || !supersedes(event, queue.last()) ==> queued(queue, event)
            == queue.push(event),
        queue.len() > 0 && supersedes(event, queue.last()) ==> queued(queue, event)
            == queue.drop_last().push(event) && is_delta(queue.last()),
{
}

/// An event that is no delta survives the deltas around it.
pub proof fn an_event_between_deltas_is_kept(
    queue: Seq<JsonView>,
    first: JsonView,
    between: JsonView,
    second: JsonView,
)
    requires
        queue.len() + 3 <= MAX_QUEUED_EVENTS,
        !is_delta(between),
    ensures
        queued(queued(queued(queue, first), between), second) == queued(queue, first).push(
            between,
        ).push(second),
{
}

/// A finished reply takes no other event's place, and no later event takes its place.
pub proof fn a_finished_reply_is_kept(queue: Seq<JsonView>, reply: JsonView, later: JsonView)
    requires
        member_flag(reply, "done"@) == Some(true),
    ensures
        extended(queue, reply) == queue.push(reply),
        extended(queue.push(reply), later) == queue.push(reply).push(later),
{
}

/// However many deltas of one message arrive in a row, one slot holds the last of them.
pub proof fn deltas_of_one_message_take_one_slot(
    queue: Seq<JsonView>,
    id: Seq<char>,
    first: Seq<char>,
    second: Seq<char>,
)
    requires
        queue.len() < MAX_QUEUED_EVENTS,
    ensures
        queued(queue.push(delta_view(id, first)), delta_view(id, second)) == queue.push(
            delta_view(id, second),
        ),
{
    lemma_delta_members(id, first);
    lemma_delta_members(id, second);
    let held = queue.push(delta_view(id, first));
    assert(supersedes(delta_view(id, second), held.last()));
    assert(held.drop_last() =~= queue);
}

proof fn lemma_delta_members(id: Seq<char>, text: Seq<char>)
    ensures
        is_delta(delta_view(id, text)),
        json_member(delta_view(id, text), "id"@) == Some(JsonView::Text(id)),
{
    reveal_strlit("event");
    reveal_strlit("id");
    reveal_strlit("text");
    reveal_strlit("done");
    assert("event"@.len() == 5 && "id"@.len() == 2 && "text"@.len() == 4 && "done"@.len() == 4);
    assert("text"@[0] != "done"@[0]);
    let fields = seq![
        ("event"@, JsonView::Text("assistant"@)),
        ("id"@, JsonView::Text(id)),
        ("text"@, JsonView::Text(text)),
        ("done"@, JsonView::Flag(false)),
    ];
    let three = fields.drop_last();
    let two = three.drop_last();
    let one = two.drop_last();
    assert(one.drop_last() =~= Seq::<(Seq<char>, JsonView)>::empty());
    assert(members_of(one) == members_of(one.drop_last()).insert(one.last().0, one.last().1));
    assert(members_of(two) == members_of(one).insert(two.last().0, two.last().1));
    assert(members_of(three) == members_of(two).insert(three.last().0, three.last().1));
    assert(members_of(fields) == members_of(three).insert(fields.last().0, fields.last().1));
}

// -- what events look like -------------------------------------------------------

pub open spec fn connection_view(state: Seq<char>) -> JsonView {
    object_of(
        seq![("event"@, JsonView::Text("connection"@)), ("state"@, JsonView::Text(state))],
    )
}

pub open spec fn session_view(id: Seq<char>) -> JsonView {
    object_of(seq![("event"@, JsonView::Text("session"@)), ("id"@, JsonView::Text(id))])
}

pub open spec fn sessions_changed_view() -> JsonView {
    object_of(seq![("event"@, JsonView::Text("sessions_changed"@))])
}

pub open spec fn clarify_view(
    request_id: Seq<char>,
    question: Seq<char>,
    choices: Seq<Seq<char>>,
) -> JsonView {
    object_of(
        seq![
            ("event"@, JsonView::Text("clarify"@)),
            ("request_id"@, JsonView::Text(request_id)),
            ("question"@, JsonView::Text(question)),
            (
                "choices"@,
                JsonView::List(choices.map_values(|choice: Seq<char>| JsonView::Text(choice))),
            ),
        ],
    )
}

pub open spec fn delta_view(id: Seq<char>, text: Seq<char>) -> JsonView {
    object_of(
        seq![
            ("event"@, JsonView::Text("assistant"@)),
            ("id"@, JsonView::Text(id)),
            ("text"@, JsonView::Text(text)),
            ("done"@, JsonView::Flag(false)),
        ],
    )
}

pub open spec fn error_view(message: Seq<char>) -> JsonView {
    object_of(seq![("event"@, JsonView::Text("error"@)), ("message"@, JsonView::Text(message))])
}

fn named_event(name: &str) -> (fields: Vec<(String, Value)>)
    ensures
        json_fields(fields@) == seq![("event"@, JsonView::Text(name@))],
{
    let event: Value = json_str(name);
    let fields: Vec<(String, Value)> = vec![field("event", event)];
    assert(json_fields(fields@) =~= seq![("event"@, JsonView::Text(name@))]);
    fields
}

fn add_field(fields: &mut Vec<(String, Value)>, key: &str, value: Value)
    ensures
        json_fields(final(fields)@) == json_fields(old(fields)@).push((key@, json_view(value))),
{
    fields.push(field(key, value));
    assert(json_fields(fields@) =~= json_fields(old(fields)@).push((key@, json_view(value))));
}

pub fn connection_event(state: &str) -> (event: Value)
    ensures
        json_view(event) == connection_view(state@),
{
    let mut fields: Vec<(String, Value)> = named_event("connection");
    add_field(&mut fields, "state", json_str(state));
    assert(json_fields(fields@) =~= seq![
        ("event"@, JsonView::Text("connection"@)),
        ("state"@, JsonView::Text(state@)),
    ]);
    json_object(fields)
}

pub fn session_event(id: &str) -> (event: Value)
    ensures
        json_view(event) == session_view(id@),
{
    let mut fields: Vec<(String, Value)> = named_event("session");
    add_field(&mut fields, "id", json_str(id));
    assert(json_fields(fields@) =~= seq![
        ("event"@, JsonView::Text("session"@)),
        ("id"@, JsonView::Text(id@)),
    ]);
    json_object(fields)
}

pub fn sessions_changed_event() -> (event: Value)
    ensures
        json_view(event) == sessions_changed_view(),
{
    json_object(named_event("sessions_changed"))
}

pub fn clarify_event(request_id: &str, question: &str, choices: &Vec<String>) -> (event: Value)
    ensures
        json_view(event) == clarify_view(
            request_id@,
            question@,
            choices@.map_values(|choice: String| choice@),
        ),
{
    let mut items: Vec<Value> = Vec::new();
    let mut index: usize = 0;
    while index < choices.len()
        invariant
            index <= choices@.len(),
            items@.len() == index,
            forall|i: int|
                0 <= i < index ==> json_view(#[trigger] items@[i]) == JsonView::Text(choices@[i]@),
        decreases choices@.len() - index,
    {
        items.push(json_str(choices[index].as_str()));
        index += 1;
    }
    let ghost said = choices@.map_values(|choice: String| choice@);
    assert(json_items(items@) =~= said.map_values(|choice: Seq<char>| JsonView::Text(choice)));
    let mut fields: Vec<(String, Value)> = named_event("clarify");
    add_field(&mut fields, "request_id", json_str(request_id));
    add_field(&mut fields, "question", json_str(question));
    add_field(&mut fields, "choices", json_list(items));
    assert(json_fields(fields@) =~= seq![
        ("event"@, JsonView::Text("clarify"@)),
        ("request_id"@, JsonView::Text(request_id@)),
        ("question"@, JsonView::Text(question@)),
        (
            "choices"@,
            JsonView::List(said.map_values(|choice: Seq<char>| JsonView::Text(choice))),
        ),
    ]);
    json_object(fields)
}

pub fn delta_event(id: &str, text: &str) -> (event: Value)
    ensures
        json_view(event) == delta_view(id@, text@),
{
    let mut fields: Vec<(String, Value)> = named_event("assistant");
    add_field(&mut fields, "id", json_str(id));
    add_field(&mut fields, "text", json_str(text));
    add_field(&mut fields, "done", json_flag(false));
    assert(json_fields(fields@) =~= seq![
        ("event"@, JsonView::Text("assistant"@)),
        ("id"@, JsonView::Text(id@)),
        ("text"@, JsonView::Text(text@)),
        ("done"@, JsonView::Flag(false)),
    ]);
    json_object(fields)
}

pub fn error_event(message: &str) -> (event: Value)
    ensures
        json_view(event) == error_view(message@),
{
    let mut fields: Vec<(String, Value)> = named_event("error");
    add_field(&mut fields, "message", json_str(message));
    assert(json_fields(fields@) =~= seq![
        ("event"@, JsonView::Text("error"@)),
        ("message"@, JsonView::Text(message@)),
    ]);
    json_object(fields)
}

// -- transcripts -------------------------------------------------------------------

pub open spec fn role_name_of(role: MessageRole) -> Seq<char> {
    match role {
        MessageRole::User => "user"@,
        MessageRole::Assistant => "assistant"@,
        MessageRole::System => "system"@,
        MessageRole::Tool => "tool"@,
    }
}

pub fn role_name(role: MessageRole) -> (name: &'static str)
    ensures
        name@ == role_name_of(role),
{
    match role {
        MessageRole::User => "user",
        MessageRole::Assistant => "assistant",
        MessageRole::System => "system",
        MessageRole::Tool => "tool",
    }
}

pub open spec fn tool_item(call: ToolCallView) -> JsonView {
    object_of(
        seq![
            ("name"@, JsonView::Text(call.name)),
            ("status"@, JsonView::Text(call.status)),
            ("detail"@, JsonView::Text(call.detail)),
        ],
    )
}

pub open spec fn message_item(message: MessageView) -> JsonView {
    object_of(
        seq![
            ("id"@, JsonView::Text(message.id)),
            ("role"@, JsonView::Text(role_name_of(message.role))),
            ("content"@, JsonView::Text(message.content)),
            ("streaming"@, JsonView::Flag(message.is_streaming)),
            (
                "tools"@,
                JsonView::List(message.tool_calls.map_values(|call: ToolCallView| tool_item(call))),
            ),
        ],
    )
}

/// The messages that are drawn: all but the empty shells.
pub open spec fn transcript_items(messages: Seq<ChatMessage>) -> Seq<JsonView>
    decreases messages.len(),
{
    if messages.len() == 0 {
        seq![]
    } else if messages.last()@.empty_shell {
        transcript_items(messages.drop_last())
    } else {
        transcript_items(messages.drop_last()).push(message_item(messages.last()@))
    }
}

pub open spec fn transcript_view(messages: Seq<ChatMessage>) -> JsonView {
    object_of(
        seq![
            ("event"@, JsonView::Text("transcript"@)),
            ("items"@, JsonView::List(transcript_items(messages))),
        ],
    )
}

fn tool_value(call: &ToolCall) -> (value: Value)
    ensures
        json_view(value) == tool_item(call@),
{
    let name: Value = json_str(call.name.as_str());
    let status: Value = json_str(call.status.as_str());
    let detail: Value = json_str(call.detail.as_str());
    let fields: Vec<(String, Value)> = vec![
        field("name", name),
        field("status", status),
        field("detail", detail),
    ];
    assert(json_fields(fields@) =~= seq![
        ("name"@, json_view(name)),
        ("status"@, json_view(status)),
        ("detail"@, json_view(detail)),
    ]);
    json_object(fields)
}

fn message_value(message: &ChatMessage) -> (value: Value)
    ensures
        json_view(value) == message_item(message@),
{
    let mut items: Vec<Value> = Vec::new();
    let mut index: usize = 0;
    while index < message.tool_calls.len()
        invariant
            index <= message.tool_calls@.len(),
            items@.len() == index,
            forall|i: int|
                0 <= i < index ==> json_view(#[trigger] items@[i]) == tool_item(
                    message.tool_calls@[i]@,
                ),
        decreases message.tool_calls@.len() - index,
    {
        items.push(tool_value(&message.tool_calls[index]));
        index += 1;
    }
    assert(json_items(items@) =~= message@.tool_calls.map_values(
        |call: ToolCallView| tool_item(call),
    ));
    let id: Value = json_str(message.id.as_str());
    let role: Value = json_str(role_name(message.role));
    let content: Value = json_str(message.content.as_str());
    let streaming: Value = json_flag(message.is_streaming);
    let tools: Value = json_list(items);
    let fields: Vec<(String, Value)> = vec![
        field("id", id),
        field("role", role),
        field("content", content),
        field("streaming", streaming),
        field("tools", tools),
    ];
    assert(json_fields(fields@) =~= seq![
        ("id"@, json_view(id)),
        ("role"@, json_view(role)),
        ("content"@, json_view(content)),
        ("streaming"@, json_view(streaming)),
        ("tools"@, json_view(tools)),
    ]);
    json_object(fields)
}

/// The messages that are drawn, as the frontend draws them.
pub fn transcript(messages: &Vec<ChatMessage>) -> (items: Vec<Value>)
    ensures
        json_items(items@) == transcript_items(messages@),
{
    let mut items: Vec<Value> = Vec::new();
    let mut index: usize = 0;
    proof {
        assert(messages@.take(0) =~= Seq::<ChatMessage>::empty());
        assert(json_items(items@) =~= seq![]);
    }
    while index < messages.len()
        invariant
            index <= messages@.len(),
            json_items(items@) == transcript_items(messages@.take(index as int)),
        decreases messages@.len() - index,
    {
        let ghost before = items@;
        if !messages[index].empty_shell {
            let item: Value = message_value(&messages[index]);
            items.push(item);
            assert(json_items(items@) =~= json_items(before).push(json_view(item)));
        }
        proof {
            assert(messages@.take(index + 1).drop_last() =~= messages@.take(index as int));
        }
        index += 1;
    }
    assert(messages@.take(messages@.len() as int) =~= messages@);
    items
}

/// The whole message list as one event.
pub fn transcript_event(messages: &Vec<ChatMessage>) -> (event: Value)
    ensures
        json_view(event) == transcript_view(messages@),
{
    let mut fields: Vec<(String, Value)> = named_event("transcript");
    add_field(&mut fields, "items", json_list(transcript(messages)));
    assert(json_fields(fields@) =~= seq![
        ("event"@, JsonView::Text("transcript"@)),
        ("items"@, JsonView::List(transcript_items(messages@))),
    ]);
    json_object(fields)
}

// -- the session list --------------------------------------------------------------

/// A session as the frontend lists it.
pub struct SessionRow {
    pub id: String,
    pub title: String,
    pub model: Option<String>,
    pub cwd: Option<String>,
    /// When the session was last active, as a JSON number or null.
    pub last_active: Value,
    pub messages: Option<i64>,
}

/// A count, or null where there is none.
pub open spec fn count_or_null(count: Option<i64>) -> JsonView {
    match count {
        Some(count) => integer_view(count),
        None => JsonView::Null,
    }
}

pub open spec fn session_item(row: SessionRow) -> JsonView {
    object_of(
        seq![
            ("id"@, JsonView::Text(row.id@)),
            ("title"@, JsonView::Text(row.title@)),
            ("model"@, text_or_null(maybe_text(row.model))),
            ("cwd"@, text_or_null(maybe_text(row.cwd))),
            ("last_active"@, json_view(row.last_active)),
            ("messages"@, count_or_null(row.messages)),
        ],
    )
}

pub open spec fn sessions_list_view(rows: Seq<SessionRow>) -> JsonView {
    object_of(
        seq![
            ("event"@, JsonView::Text("sessions"@)),
            ("items"@, JsonView::List(rows.map_values(|row: SessionRow| session_item(row)))),
        ],
    )
}

fn session_value(row: SessionRow) -> (value: Value)
    ensures
        json_view(value) == session_item(row),
{
    let id: Value = json_str(row.id.as_str());
    let title: Value = json_str(row.title.as_str());
    let model: Value = json_maybe(&row.model);
    let cwd: Value = json_maybe(&row.cwd);
    let last_active: Value = row.last_active;
    let messages: Value = match row.messages {
        Some(count) => json_integer(count),
        None => json_null(),
    };
    let fields: Vec<(String, Value)> = vec![
        field("id", id),
        field("title", title),
        field("model", model),
        field("cwd", cwd),
        field("last_active", last_active),
        field("messages", messages),
    ];
    assert(json_fields(fields@) =~= seq![
        ("id"@, json_view(id)),
        ("title"@, json_view(title)),
        ("model"@, json_view(model)),
        ("cwd"@, json_view(cwd)),
        ("last_active"@, json_view(last_active)),
        ("messages"@, json_view(messages)),
    ]);
    json_object(fields)
}

/// The session list as one event.
pub fn sessions_event(rows: Vec<SessionRow>) -> (event: Value)
    ensures
        json_view(event) == sessions_list_view(rows@),
{
    let ghost all = rows@;
    let mut items: Vec<Value> = Vec::new();
    for row in iter: rows
        invariant
            iter.seq() == all,
            items@.len() == iter.index(),
            forall|i: int|
                0 <= i < items@.len() ==> json_view(#[trigger] items@[i]) == session_item(all[i]),
    {
        items.push(session_value(row));
    }
    assert(json_items(items@) =~= all.map_values(|row: SessionRow| session_item(row)));
    let mut fields: Vec<(String, Value)> = named_event("sessions");
    add_field(&mut fields, "items", json_list(items));
    assert(json_fields(fields@) =~= seq![
        ("event"@, JsonView::Text("sessions"@)),
        ("items"@, JsonView::List(all.map_values(|row: SessionRow| session_item(row)))),
    ]);
    json_object(fields)
}

} // verus!
