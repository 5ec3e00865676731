//! Prompts: what is submitted, and how much of the context it takes.

use crate::models::{
    attachments_view, messages_view, sessions_view, tools_view, AgentSession, AttachmentView,
    ChatMessage, ComposerAttachment, ContextUsage, MessageView, SessionView, ToolCall, ToolCallView,
};
use crate::sessions::{find_session, session_under};
use crate::text::{byte_len, utf8_len};
use crate::words::{join, join3};
use vstd::prelude::*;
use vstd::string::*;

verus! {

// -- what is submitted ---------------------------------------------------------------

/// One line for each attached file.
pub open spec fn attachment_lines(attachments: Seq<AttachmentView>) -> Seq<char>
    decreases attachments.len(),
{
    if attachments.len() == 0 {
        seq![]
    } else if attachments.len() == 1 {
        "- @"@ + attachments[0].path
    } else {
        attachment_lines(attachments.drop_last()) + "\n"@ + ("- @"@ + attachments.last().path)
    }
}

/// The prompt that is submitted: the text, and the attached files below it.
pub open spec fn submitted(text: Seq<char>, attachments: Seq<AttachmentView>) -> Seq<char> {
    if attachments.len() == 0 {
        text
    } else if text.len() == 0 {
        "Attached files:\n"@ + attachment_lines(attachments)
    } else {
        text + "\n\nAttached files:\n"@ + attachment_lines(attachments)
    }
}

/// The prompt that is submitted.
pub fn submitted_prompt(text: &str, attachments: &Vec<ComposerAttachment>) -> (prompt: String)
    ensures
        prompt@ == submitted(text@, attachments_view(attachments@)),
{
    if attachments.len() == 0 {
        return text.to_owned();
    }
    let ghost all = attachments_view(attachments@);
    let mut lines: String = join("- @", attachments[0].path.as_str());
    let mut index: usize = 1;
    proof {
        assert(all.take(1)[0] == attachments@[0]@);
    }
    while index < attachments.len()
        invariant
            all == attachments_view(attachments@),
            1 <= index <= attachments@.len(),
            lines@ == attachment_lines(all.take(index as int)),
        decreases attachments@.len() - index,
    {
        proof {
            let longer = all.take(index + 1);
            assert(longer.drop_last() =~= all.take(index as int));
            assert(longer.last() == attachments@[index as int]@);
        }
        lines.append("\n");
        let line: String = join("- @", attachments[index].path.as_str());
        lines.append(line.as_str());
        index += 1;
    }
    assert(all.take(all.len() as int) =~= all);
    if text.is_empty() {
        join("Attached files:\n", lines.as_str())
    } else {
        join3(text, "\n\nAttached files:\n", lines.as_str())
    }
}

// -- how full the context is -----------------------------------------------------------

/// The accounting that the backend reported for the session on screen, if it reported
/// both halves of it. The listed row is the fresh one; the copy that the session was
/// opened with may be older than the reading.
pub open spec fn reported_usage(
    selected: Option<SessionView>,
    sessions: Seq<SessionView>,
) -> Option<ContextUsage> {
    match selected {
        None => None,
        Some(selected) => {
            let row = match session_under(sessions, selected.id) {
                Some(row) => row,
                None => selected,
            };
            match (row.used_tokens, row.context_tokens) {
                (Some(used), Some(max)) => if max > 0 {
                    Some(
                        ContextUsage { used_tokens: used, max_tokens: max, measured: true },
                    )
                } else {
                    None
                },
                _ => None,
            }
        },
    }
}

/// The accounting that the backend reported for the session on screen.
pub fn reported_context_usage(
    selected: Option<&AgentSession>,
    sessions: &Vec<AgentSession>,
) -> (usage: Option<ContextUsage>)
    ensures
        usage == reported_usage(
            match selected {
                Some(session) => Some(session@),
                None => None,
            },
            sessions_view(sessions@),
        ),
{
    let selected: &AgentSession = match selected {
        Some(selected) => selected,
        None => {
            return None;
        },
    };
    let row: &AgentSession = match find_session(sessions, selected.id.as_str()) {
        Some(row) => row,
        None => selected,
    };
    match (row.used_tokens, row.context_tokens) {
        (Some(used), Some(max)) => if max > 0 {
            Some(ContextUsage::measured(used, max))
        } else {
            None
        },
        _ => None,
    }
}

/// Tokens that every prompt takes before anything is said.
pub const FIXED_PROMPT_TOKENS: i64 = 17_400;

/// Bytes of a tool's detail that are counted at most.
pub const COUNTED_DETAIL_BYTES: usize = 2_000;

/// The bytes that attachments count for.
pub open spec fn attachment_bytes(attachments: Seq<AttachmentView>) -> nat
    decreases attachments.len(),
{
    if attachments.len() == 0 {
        0
    } else {
        attachment_bytes(attachments.drop_last()) + utf8_len(attachments.last().path) + 8
    }
}

/// The bytes that tool calls count for.
pub open spec fn tool_bytes(calls: Seq<ToolCallView>) -> nat
    decreases calls.len(),
{
    if calls.len() == 0 {
        0
    } else {
        let detail = utf8_len(calls.last().detail);
        tool_bytes(calls.drop_last()) + if detail < COUNTED_DETAIL_BYTES {
            detail
        } else {
            COUNTED_DETAIL_BYTES as nat
        }
    }
}

/// The bytes that messages count for.
pub open spec fn message_bytes(messages: Seq<MessageView>) -> nat
    decreases messages.len(),
{
    if messages.len() == 0 {
        0
    } else {
        message_bytes(messages.drop_last()) + utf8_len(messages.last().content) + attachment_bytes(
            messages.last().attachments,
        ) + tool_bytes(messages.last().tool_calls)
    }
}

/// What the conversation and the composer count for together.
pub open spec fn counted_bytes(
    messages: Seq<MessageView>,
    composer: Seq<char>,
    attachments: Seq<AttachmentView>,
) -> nat {
    message_bytes(messages) + utf8_len(composer) + attachment_bytes(attachments)
}

proof fn lemma_attachment_bytes_grow(attachments: Seq<AttachmentView>, count: int)
    requires
        0 <= count <= attachments.len(),
    ensures
        attachment_bytes(attachments.take(count)) <= attachment_bytes(attachments),
    decreases attachments.len() - count,
{
    if count < attachments.len() {
        lemma_attachment_bytes_grow(attachments, count + 1);
        assert(attachments.take(count + 1).drop_last() =~= attachments.take(count));
    } else {
        assert(attachments.take(count) =~= attachments);
    }
}

proof fn lemma_tool_bytes_grow(calls: Seq<ToolCallView>, count: int)
    requires
        0 <= count <= calls.len(),
    ensures
        tool_bytes(calls.take(count)) <= tool_bytes(calls),
    decreases calls.len() - count,
{
    if count < calls.len() {
        lemma_tool_bytes_grow(calls, count + 1);
        assert(calls.take(count + 1).drop_last() =~= calls.take(count));
    } else {
        assert(calls.take(count) =~= calls);
    }
}

proof fn lemma_message_bytes_grow(messages: Seq<MessageView>, count: int)
    requires
        0 <= count <= messages.len(),
    ensures
        message_bytes(messages.take(count)) <= message_bytes(messages),
    decreases messages.len() - count,
{
    if count < messages.len() {
        lemma_message_bytes_grow(messages, count + 1);
        assert(messages.take(count + 1).drop_last() =~= messages.take(count));
    } else {
        assert(messages.take(count) =~= messages);
    }
}

fn count_attachments(attachments: &Vec<ComposerAttachment>) -> (bytes: usize)
    requires
        attachment_bytes(attachments_view(attachments@)) <= usize::MAX,
    ensures
        bytes == attachment_bytes(attachments_view(attachments@)),
{
    let ghost all = attachments_view(attachments@);
    let mut bytes: usize = 0;
    let mut index: usize = 0;
    proof {
        assert(all.take(0) =~= Seq::<AttachmentView>::empty());
    }
    while index < attachments.len()
        invariant
            all == attachments_view(attachments@),
            attachment_bytes(all) <= usize::MAX,
            index <= attachments@.len(),
            bytes == attachment_bytes(all.take(index as int)),
        decreases attachments@.len() - index,
    {
        proof {
            let longer = all.take(index + 1);
            assert(longer.drop_last() =~= all.take(index as int));
            assert(longer.last() == attachments@[index as int]@);
            lemma_attachment_bytes_grow(all, index + 1);
        }
        bytes += byte_len(attachments[index].path.as_str()) + 8;
        index += 1;
    }
    assert(all.take(all.len() as int) =~= all);
    bytes
}

fn count_tools(calls: &Vec<ToolCall>) -> (bytes: usize)
    requires
        tool_bytes(tools_view(calls@)) <= usize::MAX,
    ensures
        bytes == tool_bytes(tools_view(calls@)),
{
    let ghost all = tools_view(calls@);
    let mut bytes: usize = 0;
    let mut index: usize = 0;
    proof {
        assert(all.take(0) =~= Seq::<ToolCallView>::empty());
    }
    while index < calls.len()
        invariant
            all == tools_view(calls@),
            tool_bytes(all) <= usize::MAX,
            index <= calls@.len(),
            bytes == tool_bytes(all.take(index as int)),
        decreases calls@.len() - index,
    {
        proof {
            let longer = all.take(index + 1);
            assert(longer.drop_last() =~= all.take(index as int));
            assert(longer.last() == calls@[index as int]@);
            lemma_tool_bytes_grow(all, index + 1);
        }
        let detail: usize = byte_len(calls[index].detail.as_str());
        bytes += if detail < COUNTED_DETAIL_BYTES {
            detail
        } else {
            COUNTED_DETAIL_BYTES
        };
        index += 1;
    }
    assert(all.take(all.len() as int) =~= all);
    bytes
}

/// How many tokens the conversation and the composer take, at four bytes a token on top
/// of what every prompt takes.
pub fn estimated_context_tokens(
    messages: &Vec<ChatMessage>,
    composer: &str,
    attachments: &Vec<ComposerAttachment>,
) -> (tokens: i64)
    requires
        counted_bytes(messages_view(messages@), composer@, attachments_view(attachments@))
            <= usize::MAX,
    ensures
        tokens == FIXED_PROMPT_TOKENS + counted_bytes(
            messages_view(messages@),
            composer@,
            attachments_view(attachments@),
        ) / 4,
{
    let ghost all = messages_view(messages@);
    let mut bytes: usize = 0;
    let mut index: usize = 0;
    proof {
        assert(all.take(0) =~= Seq::<MessageView>::empty());
    }
    while index < messages.len()
        invariant
            all == messages_view(messages@),
            message_bytes(all) <= usize::MAX,
            index <= messages@.len(),
            bytes == message_bytes(all.take(index as int)),
        decreases messages@.len() - index,
    {
        proof {
            let longer = all.take(index + 1);
            assert(longer.drop_last() =~= all.take(index as int));
            assert(longer.last() == messages@[index as int]@);
            lemma_message_bytes_grow(all, index + 1);
        }
        let message: &ChatMessage = &messages[index];
        bytes += byte_len(message.content.as_str()) + count_attachments(&message.attachments)
            + count_tools(&message.tool_calls);
        index += 1;
    }
    assert(all.take(all.len() as int) =~= all);
    let total: usize = bytes + byte_len(composer) + count_attachments(attachments);
    let quarter: usize = total / 4;
    FIXED_PROMPT_TOKENS + quarter as i64
}

// -- laws --------------------------------------------------------------------------------

/// Half a reading is no reading: what is reported as measured has both halves, and a
/// window that is one.
pub proof fn a_reading_has_both_halves(
    selected: Option<SessionView>,
    sessions: Seq<SessionView>,
)
    ensures
        reported_usage(selected, sessions) matches Some(usage) ==> usage.measured
            && usage.max_tokens > 0 && selected is Some,
{
}

/// The text that was typed is what the prompt begins with.
pub proof fn a_prompt_begins_with_what_was_typed(
    text: Seq<char>,
    attachments: Seq<AttachmentView>,
)
    ensures
        submitted(text, attachments).len() >= text.len(),
        submitted(text, attachments).take(text.len() as int) == text,
{
    let prompt = submitted(text, attachments);
    assert(prompt.take(text.len() as int) =~= text);
}

} // verus!
