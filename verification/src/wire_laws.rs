//! What a frontend finds in what it is sent, and what it can ask for.

use crate::command::{
    accepted_view, command_of, refused_view, settled_view, CommandErrorView, CommandView,
    ConfigurationView,
};
use crate::json::{
    json_member, json_view, member_flag, member_number, member_text, object_of, text_or_null,
    JsonView,
};
use crate::models::{BackendKind, ChatMessage, MessageRole, MessageView, ToolCallView};
use crate::queue::{
    clarify_view, connection_view, delta_view, error_view, message_item, session_item, session_view,
    sessions_changed_view, sessions_list_view, tool_item, transcript_items, transcript_view,
    SessionRow,
};
use crate::settings::SettingsView;
use crate::words::{maybe_text, quoted};
use vstd::prelude::*;

verus! {

// -- members ---------------------------------------------------------------------

/// Whether no two fields share a key.
pub open spec fn keys_differ(fields: Seq<(Seq<char>, JsonView)>) -> bool {
    forall|i: int, j: int|
        #![trigger fields[i], fields[j]]
        0 <= i < j < fields.len() ==> fields[i].0 != fields[j].0
}

pub proof fn lemma_member(fields: Seq<(Seq<char>, JsonView)>, index: int)
    requires
        keys_differ(fields),
        0 <= index < fields.len(),
    ensures
        json_member(object_of(fields), fields[index].0) == Some(fields[index].1),
    decreases fields.len(),
{
    let rest = fields.drop_last();
    if index < rest.len() {
        assert forall|i: int, j: int|
            #![trigger rest[i], rest[j]]
            0 <= i < j < rest.len() implies rest[i].0 != rest[j].0 by {
            assert(fields[i].0 != fields[j].0);
        }
        lemma_member(rest, index);
        assert(rest[index] == fields[index]);
        assert(fields[index].0 != fields[fields.len() - 1].0);
    }
}

/// A member that no field names is not there.
pub proof fn lemma_no_member(fields: Seq<(Seq<char>, JsonView)>, key: Seq<char>)
    requires
        forall|i: int| 0 <= i < fields.len() ==> (#[trigger] fields[i]).0 != key,
    ensures
        json_member(object_of(fields), key) is None,
    decreases fields.len(),
{
    if fields.len() > 0 {
        let rest = fields.drop_last();
        assert forall|i: int| 0 <= i < rest.len() implies (#[trigger] rest[i]).0 != key by {
            assert(rest[i] == fields[i]);
        }
        lemma_no_member(rest, key);
        assert(fields[fields.len() - 1].0 != key);
    }
}

// -- messages ----------------------------------------------------------------------

/// An item of a transcript says who wrote the message, what it says, whether it is still
/// being written, and which tools were run, in the order in which they were.
pub proof fn an_item_says_what_its_message_does(message: MessageView)
    ensures
        json_member(message_item(message), "id"@) == Some(JsonView::Text(message.id)),
        json_member(message_item(message), "role"@) == Some(
            JsonView::Text(
                match message.role {
                    MessageRole::User => "user"@,
                    MessageRole::Assistant => "assistant"@,
                    MessageRole::System => "system"@,
                    MessageRole::Tool => "tool"@,
                },
            ),
        ),
        json_member(message_item(message), "content"@) == Some(JsonView::Text(message.content)),
        json_member(message_item(message), "streaming"@) == Some(
            JsonView::Flag(message.is_streaming),
        ),
        ({
            let tools = json_member(message_item(message), "tools"@);
            &&& tools matches Some(JsonView::List(items))
            &&& tools->0->List_0.len() == message.tool_calls.len()
            &&& forall|i: int|
                0 <= i < message.tool_calls.len() ==> #[trigger] tools->0->List_0[i] == tool_item(
                    message.tool_calls[i],
                )
        }),
{
    reveal_strlit("id");
    reveal_strlit("role");
    reveal_strlit("content");
    reveal_strlit("streaming");
    reveal_strlit("tools");
    let fields = seq![
        ("id"@, JsonView::Text(message.id)),
        ("role"@, JsonView::Text(crate::queue::role_name_of(message.role))),
        ("content"@, JsonView::Text(message.content)),
        ("streaming"@, JsonView::Flag(message.is_streaming)),
        (
            "tools"@,
            JsonView::List(message.tool_calls.map_values(|call: ToolCallView| tool_item(call))),
        ),
    ];
    assert("id"@.len() == 2 && "role"@.len() == 4 && "content"@.len() == 7 && "streaming"@.len()
        == 9 && "tools"@.len() == 5);
    assert(keys_differ(fields));
    lemma_member(fields, 0);
    lemma_member(fields, 1);
    lemma_member(fields, 2);
    lemma_member(fields, 3);
    lemma_member(fields, 4);
}

/// A tool call is sent with its name, how it went, and its detail.
pub proof fn a_tool_is_sent_whole(call: ToolCallView)
    ensures
        json_member(tool_item(call), "name"@) == Some(JsonView::Text(call.name)),
        json_member(tool_item(call), "status"@) == Some(JsonView::Text(call.status)),
        json_member(tool_item(call), "detail"@) == Some(JsonView::Text(call.detail)),
{
    reveal_strlit("name");
    reveal_strlit("status");
    reveal_strlit("detail");
    let fields = seq![
        ("name"@, JsonView::Text(call.name)),
        ("status"@, JsonView::Text(call.status)),
        ("detail"@, JsonView::Text(call.detail)),
    ];
    assert("name"@.len() == 4 && "status"@.len() == 6 && "detail"@.len() == 6);
    assert("status"@[0] != "detail"@[0]);
    assert(keys_differ(fields));
    lemma_member(fields, 0);
    lemma_member(fields, 1);
    lemma_member(fields, 2);
}

/// How many of the first `count` messages are drawn.
pub open spec fn drawn_before(messages: Seq<ChatMessage>, count: int) -> int
    decreases count,
{
    if count <= 0 {
        0
    } else {
        drawn_before(messages, count - 1) + if messages[count - 1].empty_shell {
            0int
        } else {
            1
        }
    }
}

proof fn lemma_drawn_prefix(messages: Seq<ChatMessage>, longer: Seq<ChatMessage>, count: int)
    requires
        0 <= count <= messages.len() <= longer.len(),
        messages == longer.take(messages.len() as int),
    ensures
        drawn_before(messages, count) == drawn_before(longer, count),
        0 <= drawn_before(messages, count) <= count,
    decreases count,
{
    if count > 0 {
        lemma_drawn_prefix(messages, longer, count - 1);
        assert(messages[count - 1] == longer[count - 1]);
    }
}

/// The items of a transcript keep the order of the conversation: the item of a drawn message
/// stands behind exactly as many items as there are drawn messages before it, and there is
/// no item besides.
pub proof fn a_transcript_keeps_the_order(messages: Seq<ChatMessage>, index: int)
    requires
        0 <= index < messages.len(),
    ensures
        transcript_items(messages).len() == drawn_before(messages, messages.len() as int),
        !messages[index].empty_shell ==> 0 <= drawn_before(messages, index)
            < transcript_items(messages).len() && transcript_items(messages)[drawn_before(
            messages,
            index,
        )] == message_item(messages[index]@),
    decreases messages.len(),
{
    let rest = messages.drop_last();
    assert(rest == messages.take(rest.len() as int)) by {
        assert(rest =~= messages.take(rest.len() as int));
    }
    lemma_drawn_prefix(rest, messages, rest.len() as int);
    if rest.len() > 0 {
        a_transcript_keeps_the_order(
            rest,
            if index < rest.len() {
                index
            } else {
                0
            },
        );
    }
    if index < rest.len() {
        lemma_drawn_prefix(rest, messages, index);
        assert(rest[index] == messages[index]);
    }
}

/// Of two drawn messages the item of the earlier one comes first.
pub proof fn an_earlier_message_comes_first(
    messages: Seq<ChatMessage>,
    earlier: int,
    later: int,
)
    requires
        0 <= earlier < later < messages.len(),
        !messages[earlier].empty_shell,
        !messages[later].empty_shell,
    ensures
        drawn_before(messages, earlier) < drawn_before(messages, later),
        transcript_items(messages)[drawn_before(messages, earlier)] == message_item(
            messages[earlier]@,
        ),
        transcript_items(messages)[drawn_before(messages, later)] == message_item(
            messages[later]@,
        ),
    decreases later - earlier,
{
    a_transcript_keeps_the_order(messages, earlier);
    a_transcript_keeps_the_order(messages, later);
    lemma_drawn_grows(messages, earlier + 1, later);
}

proof fn lemma_drawn_grows(messages: Seq<ChatMessage>, less: int, more: int)
    requires
        0 <= less <= more,
    ensures
        drawn_before(messages, less) <= drawn_before(messages, more),
    decreases more - less,
{
    if less < more {
        lemma_drawn_grows(messages, less, more - 1);
    }
}

/// A message that is added to a conversation adds its item at the end, or none where there
/// is nothing in it to draw; every item before it stays where it was.
pub proof fn a_new_message_comes_last(messages: Seq<ChatMessage>, message: ChatMessage)
    ensures
        message.empty_shell ==> transcript_items(messages.push(message)) == transcript_items(
            messages,
        ),
        !message.empty_shell ==> transcript_items(messages.push(message)) == transcript_items(
            messages,
        ).push(message_item(message@)),
{
    assert(messages.push(message).drop_last() =~= messages);
}

/// A transcript event carries the items under their name.
pub proof fn a_transcript_event_carries_the_items(messages: Seq<ChatMessage>)
    ensures
        json_member(transcript_view(messages), "event"@) == Some(JsonView::Text("transcript"@)),
        json_member(transcript_view(messages), "items"@) == Some(
            JsonView::List(transcript_items(messages)),
        ),
{
    lemma_event_fields("items"@, JsonView::List(transcript_items(messages)), "transcript"@);
}

proof fn lemma_event_fields(key: Seq<char>, member: JsonView, name: Seq<char>)
    requires
        key == "items"@ || key == "id"@ || key == "state"@ || key == "message"@,
    ensures
        ({
            let event = object_of(seq![("event"@, JsonView::Text(name)), (key, member)]);
            &&& json_member(event, "event"@) == Some(JsonView::Text(name))
            &&& json_member(event, key) == Some(member)
        }),
{
    reveal_strlit("event");
    reveal_strlit("items");
    reveal_strlit("id");
    reveal_strlit("state");
    reveal_strlit("message");
    assert("event"@.len() == 5 && "items"@.len() == 5 && "id"@.len() == 2 && "state"@.len() == 5
        && "message"@.len() == 7);
    assert("event"@[0] != "items"@[0] && "event"@[0] != "state"@[0]);
    let fields = seq![("event"@, JsonView::Text(name)), (key, member)];
    assert(keys_differ(fields));
    lemma_member(fields, 0);
    lemma_member(fields, 1);
}

// -- events --------------------------------------------------------------------------

/// Every event names itself and carries what it was made from.
pub proof fn an_event_carries_what_it_was_made_from(
    state: Seq<char>,
    id: Seq<char>,
    text: Seq<char>,
    message: Seq<char>,
)
    ensures
        json_member(connection_view(state), "event"@) == Some(JsonView::Text("connection"@)),
        json_member(connection_view(state), "state"@) == Some(JsonView::Text(state)),
        json_member(session_view(id), "event"@) == Some(JsonView::Text("session"@)),
        json_member(session_view(id), "id"@) == Some(JsonView::Text(id)),
        json_member(error_view(message), "event"@) == Some(JsonView::Text("error"@)),
        json_member(error_view(message), "message"@) == Some(JsonView::Text(message)),
        json_member(sessions_changed_view(), "event"@) == Some(
            JsonView::Text("sessions_changed"@),
        ),
        json_member(delta_view(id, text), "event"@) == Some(JsonView::Text("assistant"@)),
        json_member(delta_view(id, text), "id"@) == Some(JsonView::Text(id)),
        json_member(delta_view(id, text), "text"@) == Some(JsonView::Text(text)),
        json_member(delta_view(id, text), "done"@) == Some(JsonView::Flag(false)),
{
    lemma_event_fields("state"@, JsonView::Text(state), "connection"@);
    lemma_event_fields("id"@, JsonView::Text(id), "session"@);
    lemma_event_fields("message"@, JsonView::Text(message), "error"@);
    lemma_member(seq![("event"@, JsonView::Text("sessions_changed"@))], 0);
    reveal_strlit("event");
    reveal_strlit("id");
    reveal_strlit("text");
    reveal_strlit("done");
    assert("event"@.len() == 5 && "id"@.len() == 2 && "text"@.len() == 4 && "done"@.len() == 4);
    assert("text"@[0] != "done"@[0]);
    let fields = seq![
        ("event"@, JsonView::Text("assistant"@)),
        ("id"@, JsonView::Text(id)),
        ("text"@, JsonView::Text(text)),
        ("done"@, JsonView::Flag(false)),
    ];
    assert(keys_differ(fields));
    lemma_member(fields, 0);
    lemma_member(fields, 1);
    lemma_member(fields, 2);
    lemma_member(fields, 3);
}

/// A question is sent with its choices in their order, and with what an answer has to name.
pub proof fn a_question_is_sent_whole(
    request_id: Seq<char>,
    question: Seq<char>,
    choices: Seq<Seq<char>>,
)
    ensures
        ({
            let event = clarify_view(request_id, question, choices);
            &&& json_member(event, "event"@) == Some(JsonView::Text("clarify"@))
            &&& json_member(event, "request_id"@) == Some(JsonView::Text(request_id))
            &&& json_member(event, "question"@) == Some(JsonView::Text(question))
            &&& json_member(event, "choices"@) matches Some(JsonView::List(items))
            &&& json_member(event, "choices"@)->0->List_0.len() == choices.len()
            &&& forall|i: int|
                0 <= i < choices.len() ==> #[trigger] json_member(
                    event,
                    "choices"@,
                )->0->List_0[i] == JsonView::Text(choices[i])
        }),
{
    reveal_strlit("event");
    reveal_strlit("request_id");
    reveal_strlit("question");
    reveal_strlit("choices");
    assert("event"@.len() == 5 && "request_id"@.len() == 10 && "question"@.len() == 8
        && "choices"@.len() == 7);
    let fields = seq![
        ("event"@, JsonView::Text("clarify"@)),
        ("request_id"@, JsonView::Text(request_id)),
        ("question"@, JsonView::Text(question)),
        (
            "choices"@,
            JsonView::List(choices.map_values(|choice: Seq<char>| JsonView::Text(choice))),
        ),
    ];
    assert(keys_differ(fields));
    lemma_member(fields, 0);
    lemma_member(fields, 1);
    lemma_member(fields, 2);
    lemma_member(fields, 3);
}

/// A session is listed with all that is known of it, and the sessions in their order.
pub proof fn sessions_are_listed_whole(rows: Seq<SessionRow>, index: int)
    requires
        0 <= index < rows.len(),
    ensures
        json_member(sessions_list_view(rows), "event"@) == Some(JsonView::Text("sessions"@)),
        ({
            let items = json_member(sessions_list_view(rows), "items"@);
            let row = rows[index];
            &&& items matches Some(JsonView::List(listed))
            &&& items->0->List_0.len() == rows.len()
            &&& json_member(items->0->List_0[index], "id"@) == Some(JsonView::Text(row.id@))
            &&& json_member(items->0->List_0[index], "title"@) == Some(JsonView::Text(row.title@))
            &&& json_member(items->0->List_0[index], "model"@) == Some(
                match row.model {
                    Some(model) => JsonView::Text(model@),
                    None => JsonView::Null,
                },
            )
            &&& json_member(items->0->List_0[index], "cwd"@) == Some(
                match row.cwd {
                    Some(cwd) => JsonView::Text(cwd@),
                    None => JsonView::Null,
                },
            )
            &&& json_member(items->0->List_0[index], "last_active"@) == Some(
                json_view(row.last_active),
            )
            &&& json_member(items->0->List_0[index], "messages"@) == Some(
                match row.messages {
                    Some(count) => if count < 0 {
                        JsonView::Negative(count)
                    } else {
                        JsonView::Natural(count as u64)
                    },
                    None => JsonView::Null,
                },
            )
        }),
{
    lemma_event_fields(
        "items"@,
        JsonView::List(rows.map_values(|row: SessionRow| session_item(row))),
        "sessions"@,
    );
    reveal_strlit("id");
    reveal_strlit("title");
    reveal_strlit("model");
    reveal_strlit("cwd");
    reveal_strlit("last_active");
    reveal_strlit("messages");
    assert("id"@.len() == 2 && "title"@.len() == 5 && "model"@.len() == 5 && "cwd"@.len() == 3
        && "last_active"@.len() == 11 && "messages"@.len() == 8);
    assert("title"@[0] != "model"@[0]);
    let row = rows[index];
    let fields = seq![
        ("id"@, JsonView::Text(row.id@)),
        ("title"@, JsonView::Text(row.title@)),
        ("model"@, text_or_null(maybe_text(row.model))),
        ("cwd"@, text_or_null(maybe_text(row.cwd))),
        ("last_active"@, json_view(row.last_active)),
        ("messages"@, crate::queue::count_or_null(row.messages)),
    ];
    assert(keys_differ(fields));
    lemma_member(fields, 0);
    lemma_member(fields, 1);
    lemma_member(fields, 2);
    lemma_member(fields, 3);
    lemma_member(fields, 4);
    lemma_member(fields, 5);
}

/// The settings are sent with every preference the frontend draws from.
pub proof fn settings_are_sent_whole(settings: SettingsView)
    ensures
        json_member(settings.payload(), "event"@) == Some(JsonView::Text("settings"@)),
        json_member(settings.payload(), "backend"@) == Some(
            JsonView::Text(settings.backend_kind.id_of()),
        ),
        json_member(settings.payload(), "host"@) == Some(JsonView::Text(settings.backend_host)),
        json_member(settings.payload(), "port"@) == Some(
            JsonView::Natural(settings.backend_port as u64),
        ),
        json_member(settings.payload(), "use_tls"@) == Some(
            JsonView::Flag(settings.backend_use_tls),
        ),
        json_member(settings.payload(), "credential"@) == Some(
            JsonView::Text(settings.session_token),
        ),
        json_member(settings.payload(), "workspace"@) == Some(
            JsonView::Text(settings.workspace_path),
        ),
        json_member(settings.payload(), "font_size"@) == Some(JsonView::Text(settings.font_size)),
        json_member(settings.payload(), "show_tool_calls"@) == Some(
            JsonView::Flag(settings.show_tool_calls),
        ),
{
    reveal_strlit("event");
    reveal_strlit("backend");
    reveal_strlit("host");
    reveal_strlit("port");
    reveal_strlit("use_tls");
    reveal_strlit("credential");
    reveal_strlit("workspace");
    reveal_strlit("font_size");
    reveal_strlit("show_tool_calls");
    assert("event"@.len() == 5 && "backend"@.len() == 7 && "host"@.len() == 4 && "port"@.len() == 4
        && "use_tls"@.len() == 7 && "credential"@.len() == 10 && "workspace"@.len() == 9
        && "font_size"@.len() == 9 && "show_tool_calls"@.len() == 15);
    assert("host"@[0] != "port"@[0] && "backend"@[0] != "use_tls"@[0] && "workspace"@[0]
        != "font_size"@[0]);
    let fields = seq![
        ("event"@, JsonView::Text("settings"@)),
        ("backend"@, JsonView::Text(settings.backend_kind.id_of())),
        ("host"@, JsonView::Text(settings.backend_host)),
        ("port"@, JsonView::Natural(settings.backend_port as u64)),
        ("use_tls"@, JsonView::Flag(settings.backend_use_tls)),
        ("credential"@, JsonView::Text(settings.session_token)),
        ("workspace"@, JsonView::Text(settings.workspace_path)),
        ("font_size"@, JsonView::Text(settings.font_size)),
        ("show_tool_calls"@, JsonView::Flag(settings.show_tool_calls)),
    ];
    assert(keys_differ(fields));
    lemma_member(fields, 0);
    lemma_member(fields, 1);
    lemma_member(fields, 2);
    lemma_member(fields, 3);
    lemma_member(fields, 4);
    lemma_member(fields, 5);
    lemma_member(fields, 6);
    lemma_member(fields, 7);
    lemma_member(fields, 8);
}

// -- replies -----------------------------------------------------------------------------

/// A reply says whether the command was carried out: one that was refused says why, and one
/// that was not brings what it gives back.
pub proof fn a_reply_says_how_it_went(
    message: Seq<char>,
    ok: bool,
    payload: Map<Seq<char>, JsonView>,
    key: Seq<char>,
)
    ensures
        json_member(refused_view(message), "ok"@) == Some(JsonView::Flag(false)),
        json_member(refused_view(message), "error"@) == Some(JsonView::Text(message)),
        json_member(settled_view(ok), "ok"@) == Some(JsonView::Flag(ok)),
        json_member(accepted_view(None), "ok"@) == Some(JsonView::Flag(true)),
        !payload.contains_key("ok"@) ==> json_member(
            accepted_view(Some(JsonView::Object(payload))),
            "ok"@,
        ) == Some(JsonView::Flag(true)),
        payload.contains_key(key) ==> json_member(
            accepted_view(Some(JsonView::Object(payload))),
            key,
        ) == Some(payload[key]),
{
    reveal_strlit("ok");
    reveal_strlit("error");
    assert("ok"@.len() == 2 && "error"@.len() == 5);
    let refused = seq![("ok"@, JsonView::Flag(false)), ("error"@, JsonView::Text(message))];
    assert(keys_differ(refused));
    lemma_member(refused, 0);
    lemma_member(refused, 1);
    lemma_member(seq![("ok"@, JsonView::Flag(ok))], 0);
    lemma_member(seq![("ok"@, JsonView::Flag(true))], 0);
}

// -- commands ------------------------------------------------------------------------------

proof fn lemma_command_names()
    ensures
        "settings"@.len() == 8,
        "configure"@.len() == 9,
        "set_ui"@.len() == 6,
        "connect"@.len() == 7,
        "ensure_connected"@.len() == 16,
        "disconnect"@.len() == 10,
        "list_sessions"@.len() == 13,
        "open_session"@.len() == 12,
        "new_session"@.len() == 11,
        "send"@.len() == 4,
        "interrupt"@.len() == 9,
        "answer"@.len() == 6,
        "markdown"@.len() == 8,
        "settings"@[0] == 's',
        "markdown"@[0] == 'm',
        "configure"@[0] == 'c',
        "interrupt"@[0] == 'i',
        "set_ui"@[0] == 's',
        "answer"@[0] == 'a',
{
    reveal_strlit("settings");
    reveal_strlit("configure");
    reveal_strlit("set_ui");
    reveal_strlit("connect");
    reveal_strlit("ensure_connected");
    reveal_strlit("disconnect");
    reveal_strlit("list_sessions");
    reveal_strlit("open_session");
    reveal_strlit("new_session");
    reveal_strlit("send");
    reveal_strlit("interrupt");
    reveal_strlit("answer");
    reveal_strlit("markdown");
}

/// A command that needs no argument is what its name says, whatever else the document holds.
pub proof fn a_command_is_what_it_is_called(value: JsonView)
    ensures
        member_text(value, "cmd"@) == Some("settings"@) ==> command_of(value) == Ok::<
            CommandView,
            CommandErrorView,
        >(CommandView::Settings),
        member_text(value, "cmd"@) == Some("connect"@) ==> command_of(value) == Ok::<
            CommandView,
            CommandErrorView,
        >(CommandView::Connect { force: false }),
        member_text(value, "cmd"@) == Some("disconnect"@) ==> command_of(value) == Ok::<
            CommandView,
            CommandErrorView,
        >(CommandView::Disconnect),
        member_text(value, "cmd"@) == Some("list_sessions"@) ==> command_of(value) == Ok::<
            CommandView,
            CommandErrorView,
        >(CommandView::ListSessions),
        member_text(value, "cmd"@) == Some("new_session"@) ==> command_of(value) == Ok::<
            CommandView,
            CommandErrorView,
        >(CommandView::NewSession),
        member_text(value, "cmd"@) == Some("interrupt"@) ==> command_of(value) == Ok::<
            CommandView,
            CommandErrorView,
        >(CommandView::Interrupt),
{
    lemma_command_names();
}

/// A reconnect is forced exactly where the document says so.
pub proof fn a_reconnect_is_forced_on_demand(value: JsonView)
    requires
        member_text(value, "cmd"@) == Some("ensure_connected"@),
    ensures
        command_of(value) matches Ok(CommandView::Connect { force }),
        command_of(value)->Ok_0->force <==> member_flag(value, "force"@) == Some(true),
{
    lemma_command_names();
}

/// A command that needs an argument takes it as it stands, and is refused by the name of the
/// argument where that is missing.
pub proof fn a_command_takes_its_argument(value: JsonView, text: Seq<char>)
    ensures
        member_text(value, "cmd"@) == Some("send"@) && member_text(value, "text"@) == Some(text)
            ==> command_of(value) == Ok::<CommandView, CommandErrorView>(
            CommandView::Send { text },
        ),
        member_text(value, "cmd"@) == Some("markdown"@) && member_text(value, "text"@) == Some(
            text,
        ) ==> command_of(value) == Ok::<CommandView, CommandErrorView>(
            CommandView::Markdown { text },
        ),
        member_text(value, "cmd"@) == Some("open_session"@) && member_text(value, "id"@) == Some(
            text,
        ) ==> command_of(value) == Ok::<CommandView, CommandErrorView>(
            CommandView::OpenSession { id: text },
        ),
        (member_text(value, "cmd"@) == Some("send"@) || member_text(value, "cmd"@) == Some(
            "markdown"@,
        )) && member_text(value, "text"@) is None ==> command_of(value) == Err::<
            CommandView,
            CommandErrorView,
        >(CommandErrorView::Needs("text"@)),
        member_text(value, "cmd"@) == Some("open_session"@) && member_text(value, "id"@) is None
            ==> command_of(value) == Err::<CommandView, CommandErrorView>(
            CommandErrorView::Needs("id"@),
        ),
{
    lemma_command_names();
}

/// An answer names the question it belongs to.
pub proof fn an_answer_names_its_question(
    value: JsonView,
    request: Seq<char>,
    answer: Seq<char>,
)
    requires
        member_text(value, "cmd"@) == Some("answer"@),
    ensures
        member_text(value, "request_id"@) == Some(request) && member_text(value, "answer"@)
            == Some(answer) ==> command_of(value) == Ok::<CommandView, CommandErrorView>(
            CommandView::Answer { request_id: request, answer },
        ),
        member_text(value, "request_id"@) is None ==> command_of(value) == Err::<
            CommandView,
            CommandErrorView,
        >(CommandErrorView::Needs("request_id"@)),
        member_text(value, "request_id"@) is Some && member_text(value, "answer"@) is None
            ==> command_of(value) == Err::<CommandView, CommandErrorView>(
            CommandErrorView::Needs("answer"@),
        ),
{
    lemma_command_names();
}

/// A configuration sets what its document names and nothing else.
pub proof fn a_configuration_sets_what_it_names(value: JsonView, kind: BackendKind)
    requires
        member_text(value, "cmd"@) == Some("configure"@),
        member_text(value, "backend"@) == Some(kind.id_of()),
        kind == BackendKind::Hermes || kind == BackendKind::OpenCode || kind
            == BackendKind::MiMoCode || kind == BackendKind::OpenClaw,
    ensures
        command_of(value) matches Ok(CommandView::Configure(configuration)),
        ({
            let configuration = command_of(value)->Ok_0->Configure_0;
            &&& configuration.kind == kind
            &&& configuration.host == member_text(value, "host"@)
            &&& configuration.port == member_number(value, "port"@)
            &&& configuration.use_tls == member_flag(value, "use_tls"@)
            &&& configuration.credential == member_text(value, "credential"@)
            &&& configuration.workspace == member_text(value, "workspace"@)
        }),
{
    lemma_command_names();
    kind.ids_are_distinct(BackendKind::Hermes);
    kind.ids_are_distinct(BackendKind::OpenCode);
    kind.ids_are_distinct(BackendKind::MiMoCode);
    kind.ids_are_distinct(BackendKind::OpenClaw);
}

/// A configuration that is put in place changes what it names, keeps the rest, and leaves
/// its backend as the only one that is switched on.
pub proof fn a_configuration_keeps_what_it_does_not_name(
    configuration: ConfigurationView,
    settings: SettingsView,
    other: BackendKind,
)
    ensures
        ({
            let after = configuration.applied_to(settings);
            &&& after.backend_kind == configuration.kind
            &&& after.enabled.contains(other) <==> other == configuration.kind
            &&& configuration.host is None ==> after.backend_host == settings.backend_host
            &&& configuration.host is Some ==> after.backend_host == configuration.host->0
            &&& configuration.port is None ==> after.backend_port == settings.backend_port
            &&& configuration.port matches Some(port) ==> after.backend_port == port % 65536
            &&& configuration.use_tls is None ==> after.backend_use_tls
                == settings.backend_use_tls
            &&& configuration.use_tls is Some ==> after.backend_use_tls
                == configuration.use_tls->0
            &&& configuration.credential is None ==> after.session_token == settings.session_token
            &&& configuration.credential is Some ==> after.session_token
                == configuration.credential->0
            &&& configuration.workspace is None ==> after.workspace_path
                == settings.workspace_path
            &&& configuration.workspace is Some ==> after.workspace_path
                == configuration.workspace->0
            &&& after.font_size == settings.font_size
            &&& after.show_tool_calls == settings.show_tool_calls
            &&& after.last_session == settings.last_session
        }),
{
}

/// Interface preferences are asked for one by one.
pub proof fn a_preference_is_asked_for_by_name(value: JsonView)
    requires
        member_text(value, "cmd"@) == Some("set_ui"@),
    ensures
        command_of(value) matches Ok(CommandView::SetUi { font_size, show_tool_calls }),
        command_of(value)->Ok_0->font_size == member_text(value, "font_size"@),
        command_of(value)->Ok_0->show_tool_calls == member_flag(value, "show_tool_calls"@),
{
    lemma_command_names();
}

/// A configuration without a backend is refused, and so is one of a backend that cannot be
/// reached over the network, by its id.
pub proof fn a_configuration_needs_a_network_backend(value: JsonView, id: Seq<char>)
    requires
        member_text(value, "cmd"@) == Some("configure"@),
    ensures
        member_text(value, "backend"@) is None ==> command_of(value) == Err::<
            CommandView,
            CommandErrorView,
        >(CommandErrorView::NeedsBackend),
        member_text(value, "backend"@) == Some(id) && id != "hermes"@ && id != "opencode"@ && id
            != "mimocode"@ && id != "openclaw"@ ==> command_of(value) == Err::<
            CommandView,
            CommandErrorView,
        >(CommandErrorView::LocalOnly(id)),
{
    lemma_command_names();
}

/// What is called by no known name is refused by the name it has, if it has one.
pub proof fn an_unknown_command_is_refused(value: JsonView)
    requires
        ({
            let name = member_text(value, "cmd"@);
            &&& name != Some("settings"@) && name != Some("configure"@) && name != Some("set_ui"@)
            &&& name != Some("connect"@) && name != Some("ensure_connected"@)
            &&& name != Some("disconnect"@) && name != Some("list_sessions"@)
            &&& name != Some("open_session"@) && name != Some("new_session"@)
            &&& name != Some("send"@) && name != Some("interrupt"@) && name != Some("answer"@)
            &&& name != Some("markdown"@)
        }),
    ensures
        command_of(value) == Err::<CommandView, CommandErrorView>(
            CommandErrorView::Unknown(member_text(value, "cmd"@)),
        ),
{
}

/// A refusal says what was wrong in words, with what it was about.
pub proof fn a_refusal_says_what_was_wrong(text: Seq<char>)
    ensures
        CommandErrorView::NotJson(text).message() == "command was not JSON: "@ + text,
        CommandErrorView::Needs(text).message() == "command needs a "@ + text,
        CommandErrorView::NeedsBackend.message() == "configure needs a backend"@,
        CommandErrorView::LocalOnly(text).message() == text
            + " runs as a local process and is not available on mobile"@,
        CommandErrorView::UnknownFontSize(text).message() == "unknown font size "@ + quoted(text),
        CommandErrorView::Unknown(Some(text)).message() == "unknown command Some("@ + quoted(text)
            + ")"@,
        CommandErrorView::Unknown(None).message() == "unknown command None"@,
{
}

/// A member is read as what it is: a text, a truth value or a natural number; one of another
/// kind, or one that is not there, is not read. Only an object has members.
pub proof fn a_member_is_read_by_its_kind(value: JsonView, key: Seq<char>)
    ensures
        value is Object && value->Object_0.contains_key(key) ==> json_member(value, key) == Some(
            value->Object_0[key],
        ),
        !(value is Object && value->Object_0.contains_key(key)) ==> json_member(value, key) is None,
        json_member(value, key) matches Some(JsonView::Text(text)) ==> member_text(value, key)
            == Some(text),
        json_member(value, key) matches Some(JsonView::Flag(flag)) ==> member_flag(value, key)
            == Some(flag),
        json_member(value, key) matches Some(JsonView::Natural(number)) ==> member_number(
            value,
            key,
        ) == Some(number),
        member_text(value, key) is Some ==> json_member(value, key) is Some && json_member(
            value,
            key,
        )->0 is Text,
        member_flag(value, key) is Some ==> json_member(value, key) is Some && json_member(
            value,
            key,
        )->0 is Flag,
        member_number(value, key) is Some ==> json_member(value, key) is Some && json_member(
            value,
            key,
        )->0 is Natural,
{
}

/// Backends go by these ids in settings, cache keys and commands.
pub proof fn backends_have_ids()
    ensures
        BackendKind::Hermes.id_of() == "hermes"@,
        BackendKind::OpenCode.id_of() == "opencode"@,
        BackendKind::MiMoCode.id_of() == "mimocode"@,
        BackendKind::Codex.id_of() == "codex"@,
        BackendKind::ClaudeCode.id_of() == "claudecode"@,
        BackendKind::Pi.id_of() == "pi"@,
        BackendKind::OpenClaw.id_of() == "openclaw"@,
{
}

// -- nothing else ---------------------------------------------------------------------------

/// Nothing is sent besides what is named: an item of a transcript, a tool call, a listed
/// session and the settings have no other members.
pub proof fn nothing_else_is_sent(
    message: MessageView,
    call: ToolCallView,
    row: SessionRow,
    settings: SettingsView,
    key: Seq<char>,
)
    ensures
        key != "id"@ && key != "role"@ && key != "content"@ && key != "streaming"@ && key
            != "tools"@ ==> json_member(message_item(message), key) is None,
        key != "name"@ && key != "status"@ && key != "detail"@ ==> json_member(
            tool_item(call),
            key,
        ) is None,
        key != "id"@ && key != "title"@ && key != "model"@ && key != "cwd"@ && key
            != "last_active"@ && key != "messages"@ ==> json_member(session_item(row), key) is None,
        key != "event"@ && key != "backend"@ && key != "host"@ && key != "port"@ && key
            != "use_tls"@ && key != "credential"@ && key != "workspace"@ && key != "font_size"@
            && key != "show_tool_calls"@ ==> json_member(settings.payload(), key) is None,
{
    if key != "id"@ && key != "role"@ && key != "content"@ && key != "streaming"@ && key
        != "tools"@ {
        lemma_no_member(
            seq![
                ("id"@, JsonView::Text(message.id)),
                ("role"@, JsonView::Text(crate::queue::role_name_of(message.role))),
                ("content"@, JsonView::Text(message.content)),
                ("streaming"@, JsonView::Flag(message.is_streaming)),
                (
                    "tools"@,
                    JsonView::List(
                        message.tool_calls.map_values(|call: ToolCallView| tool_item(call)),
                    ),
                ),
            ],
            key,
        );
    }
    if key != "name"@ && key != "status"@ && key != "detail"@ {
        lemma_no_member(
            seq![
                ("name"@, JsonView::Text(call.name)),
                ("status"@, JsonView::Text(call.status)),
                ("detail"@, JsonView::Text(call.detail)),
            ],
            key,
        );
    }
    if key != "id"@ && key != "title"@ && key != "model"@ && key != "cwd"@ && key
        != "last_active"@ && key != "messages"@ {
        lemma_no_member(
            seq![
                ("id"@, JsonView::Text(row.id@)),
                ("title"@, JsonView::Text(row.title@)),
                ("model"@, text_or_null(maybe_text(row.model))),
                ("cwd"@, text_or_null(maybe_text(row.cwd))),
                ("last_active"@, json_view(row.last_active)),
                ("messages"@, crate::queue::count_or_null(row.messages)),
            ],
            key,
        );
    }
    if key != "event"@ && key != "backend"@ && key != "host"@ && key != "port"@ && key
        != "use_tls"@ && key != "credential"@ && key != "workspace"@ && key != "font_size"@ && key
        != "show_tool_calls"@ {
        lemma_no_member(
            seq![
                ("event"@, JsonView::Text("settings"@)),
                ("backend"@, JsonView::Text(settings.backend_kind.id_of())),
                ("host"@, JsonView::Text(settings.backend_host)),
                ("port"@, JsonView::Natural(settings.backend_port as u64)),
                ("use_tls"@, JsonView::Flag(settings.backend_use_tls)),
                ("credential"@, JsonView::Text(settings.session_token)),
                ("workspace"@, JsonView::Text(settings.workspace_path)),
                ("font_size"@, JsonView::Text(settings.font_size)),
                ("show_tool_calls"@, JsonView::Flag(settings.show_tool_calls)),
            ],
            key,
        );
    }
}

} // verus!
