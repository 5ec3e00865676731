//! What the transcript does as messages come, as the pointer moves and as text is quoted.

use crate::chat::{
    quoted_draft, signature_of, toggled, CopyButton, HoverView, ListChange, ListView,
};
use crate::ids::{lemma_wrapped_sum, wrapped_product, wrapped_sum};
use crate::models::{MessageRole, MessageView};
use crate::text::utf8_len;
use crate::words::trimmed;
use vstd::prelude::*;

verus! {

/// The messages of another session start the list over and move nothing.
pub proof fn another_session_starts_the_list_over(
    list: ListView,
    identity: Option<Seq<char>>,
    messages: Seq<MessageView>,
    asking: bool,
)
    requires
        messages.len() <= usize::MAX,
    ensures
        ({
            let sync = list.sync_with(identity, messages, asking);
            &&& sync.other_session <==> identity != list.identity
            &&& identity != list.identity ==> sync.change == ListChange::Reset(
                messages.len() as usize,
            ) && !sync.scroll_to_latest
        }),
{
}

/// New messages are added behind those that were measured, and only what the user wrote
/// among them is scrolled to. Messages that went away have the list measured again.
pub proof fn new_messages_are_added_behind(
    list: ListView,
    messages: Seq<MessageView>,
    asking: bool,
)
    requires
        messages.len() <= usize::MAX,
    ensures
        ({
            let sync = list.sync_with(list.identity, messages, asking);
            &&& messages.len() > list.count ==> sync.change == (ListChange::Splice {
                start: list.count,
                end: list.count,
                count: (messages.len() - list.count) as usize,
            })
            &&& messages.len() < list.count ==> sync.change == (ListChange::Splice {
                start: 0,
                end: list.count,
                count: messages.len() as usize,
            })
            &&& sync.scroll_to_latest <==> messages.len() > list.count && exists|i: int|
                list.count <= i < messages.len() && (#[trigger] messages[i]).role
                    == MessageRole::User
        }),
{
}

/// A reply that grew while it streams has its item measured again; one that is finished, or
/// has not changed, does not.
pub proof fn a_growing_reply_is_measured_again(
    list: ListView,
    messages: Seq<MessageView>,
    asking: bool,
)
    requires
        messages.len() == list.count,
    ensures
        ({
            let sync = list.sync_with(list.identity, messages, asking);
            let grew = messages.len() > 0 && messages[messages.len() - 1].is_streaming
                && signature_of(messages, asking) != list.signature;
            &&& grew ==> sync.change == (ListChange::Splice {
                start: (list.count - 1) as usize,
                end: list.count,
                count: 1,
            })
            &&& !grew ==> sync.change == ListChange::Keep
        }),
{
}

/// What the list is in step with is what it was given.
pub proof fn a_list_is_in_step_with_what_it_was_given(
    identity: Option<Seq<char>>,
    messages: Seq<MessageView>,
    asking: bool,
)
    requires
        messages.len() <= usize::MAX,
    ensures
        ({
            let list = ListView::in_step(identity, messages, asking);
            &&& list.count == messages.len()
            &&& list.identity == identity
            &&& list.signature == signature_of(messages, asking)
            &&& list.synced
        }),
        ListView::fresh().count == 0,
        ListView::fresh().identity is None,
        !ListView::fresh().synced,
{
}

/// Text that was added to the last message shows in the signature, and so does the end of its
/// stream, and a question that is asked.
pub proof fn growth_shows_in_the_signature(
    messages: Seq<MessageView>,
    longer: Seq<char>,
    asking: bool,
)
    requires
        0 < messages.len() <= usize::MAX,
        utf8_len(longer) <= usize::MAX,
        utf8_len(messages.last().content) <= usize::MAX,
    ensures
        ({
            let last = messages.last();
            let grown = messages.drop_last().push(MessageView { content: longer, ..last });
            let ended = messages.drop_last().push(
                MessageView { is_streaming: !last.is_streaming, ..last },
            );
            &&& utf8_len(longer) != utf8_len(last.content) ==> signature_of(grown, asking)
                != signature_of(messages, asking)
            &&& signature_of(ended, asking) != signature_of(messages, asking)
            &&& signature_of(messages, true) != signature_of(messages, false)
        }),
{
    let last = messages.last();
    let count = wrapped_product(messages.len() as u64, 31);
    let tools = wrapped_product(last.tool_calls.len() as u64, 13);
    let (size, other) = (utf8_len(last.content) as u64, utf8_len(longer) as u64);
    let (mark, unmark) = if last.is_streaming {
        (7u64, 0u64)
    } else {
        (0u64, 7u64)
    };
    lemma_wrapped_sum(count, size);
    lemma_wrapped_sum(count, other);
    let (texts, others) = (wrapped_sum(count, size), wrapped_sum(count, other));
    lemma_wrapped_sum(texts, mark);
    lemma_wrapped_sum(texts, unmark);
    lemma_wrapped_sum(others, mark);
    lemma_wrapped_sum(wrapped_sum(texts, mark), tools);
    lemma_wrapped_sum(wrapped_sum(texts, unmark), tools);
    lemma_wrapped_sum(wrapped_sum(others, mark), tools);
    lemma_wrapped_sum(wrapped_sum(wrapped_sum(texts, mark), tools), 1_000_003);
    lemma_wrapped_sum(wrapped_sum(wrapped_sum(texts, unmark), tools), 1_000_003);
    lemma_wrapped_sum(wrapped_sum(wrapped_sum(others, mark), tools), 1_000_003);
    let grown = messages.drop_last().push(MessageView { content: longer, ..last });
    let ended = messages.drop_last().push(
        MessageView { is_streaming: !last.is_streaming, ..last },
    );
    assert(grown.last().content == longer);
    assert(ended.last().content == last.content);
}

/// The signature counts the messages, the bytes and the tools of the last one, its stream and
/// the question, modulo two to the sixty-fourth.
pub proof fn a_signature_counts_what_is_drawn(messages: Seq<MessageView>)
    requires
        0 < messages.len() <= usize::MAX,
        utf8_len(messages.last().content) <= usize::MAX,
        messages.last().tool_calls.len() <= usize::MAX,
    ensures
        signature_of(messages, false) == (messages.len() * 31 + utf8_len(messages.last().content)
            + messages.last().tool_calls.len() * 13 + if messages.last().is_streaming {
            7int
        } else {
            0
        }) % 18446744073709551616,
        signature_of(seq![], false) == 0,
        signature_of(seq![], true) == 1_000_003,
{
    reveal(wrapped_product);
    let last = messages.last();
    let count = messages.len() * 31int;
    let size = utf8_len(last.content);
    let mark: u64 = if last.is_streaming {
        7
    } else {
        0
    };
    let first = wrapped_product(messages.len() as u64, 31);
    lemma_counted(count, first, size as u64);
    let second = wrapped_sum(first, size as u64);
    lemma_counted(count + size, second, mark);
    let third = wrapped_sum(second, mark);
    let tools = wrapped_product(last.tool_calls.len() as u64, 13);
    lemma_counted(count + size + mark, third, tools);
    vstd::arithmetic::div_mod::lemma_add_mod_noop(
        count + size + mark,
        last.tool_calls.len() * 13int,
        18446744073709551616,
    );
    vstd::arithmetic::div_mod::lemma_add_mod_noop(
        count + size + mark,
        tools as int,
        18446744073709551616,
    );
    vstd::arithmetic::div_mod::lemma_small_mod(tools as nat, 18446744073709551616);
    lemma_wrapped_sum(0, 1_000_003);
}

proof fn lemma_counted(total: int, counted: u64, more: u64)
    requires
        counted == total % 18446744073709551616,
    ensures
        wrapped_sum(counted, more) == (total + more) % 18446744073709551616,
{
    reveal(wrapped_sum);
    vstd::arithmetic::div_mod::lemma_add_mod_noop(total, more as int, 18446744073709551616);
    vstd::arithmetic::div_mod::lemma_small_mod(more as nat, 18446744073709551616);
}

/// The button of a message confirms a copy of it, else shows while the pointer is on it, else
/// is hidden; a copy of one message is not confirmed on another.
pub proof fn a_button_belongs_to_its_message(hover: HoverView, id: Seq<char>)
    ensures
        hover.button_of(id) == CopyButton::Copied <==> hover.copied == Some(id),
        hover.button_of(id) == CopyButton::Revealed <==> hover.copied != Some(id) && hover.hovered
            == Some(id),
        hover.button_of(id) == CopyButton::Hidden <==> hover.copied != Some(id) && hover.hovered
            != Some(id),
{
}

/// The pointer is on the message it came to, and a hide that was pending is off. Where it
/// leaves, a hide is pending if there was something to hide; and once it was away for long
/// enough, nothing is under it. A copy that is being confirmed is not touched by any of this.
pub proof fn the_pointer_moves_the_button(hover: HoverView, id: Seq<char>)
    ensures
        hover.moved_to(Some(id)) == (HoverView {
            hovered: Some(id),
            hide_pending: false,
            copied: hover.copied,
        }),
        hover.moved_to(None).hovered == hover.hovered,
        hover.moved_to(None).copied == hover.copied,
        hover.hovered is Some ==> hover.moved_to(None).hide_pending,
        hover.hovered is None ==> hover.moved_to(None).hide_pending == hover.hide_pending,
        hover.hide_pending ==> hover.timed_out() == (HoverView {
            hovered: None,
            hide_pending: false,
            copied: hover.copied,
        }),
        !hover.hide_pending ==> hover.timed_out() == hover,
{
}

/// Folding or unfolding one message leaves the others as they are.
pub proof fn only_one_message_is_toggled(
    expanded: Set<Seq<char>>,
    id: Seq<char>,
    other: Seq<char>,
)
    ensures
        toggled(expanded, id).contains(id) <==> !expanded.contains(id),
        other != id ==> (toggled(expanded, id).contains(other) <==> expanded.contains(other)),
{
}

/// Quoted text stands between a rule and a line break, in front of what was typed so far; what
/// is nothing but white space is not kept.
pub proof fn a_quote_goes_before_the_draft(text: Seq<char>, draft: Seq<char>)
    ensures
        trimmed(draft).len() > 0 ==> quoted_draft(text, draft) == "----\n"@ + text + "\n"@ + draft,
        trimmed(draft).len() == 0 ==> quoted_draft(text, draft) == "----\n"@ + text + "\n"@,
{
}

} // verus!
