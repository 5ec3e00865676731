//! What trimming, joining, counting and ordering texts come to.

use crate::models::{AttachmentView, MessageView, SessionView, ToolCallView};
use crate::prompts::{
    attachment_bytes, attachment_lines, counted_bytes, reported_usage, submitted, tool_bytes,
};
use crate::sending::paths_wanted;
use crate::sessions::session_under;
use crate::text::utf8_len;
use crate::words::{
    bytes_before, decimal, joined_with, trimmed, trimmed_end, trimmed_start, whitespace,
};
use vstd::prelude::*;

verus! {

// -- trimming --------------------------------------------------------------------

/// Whether a text is nothing but white space.
pub open spec fn is_blank(text: Seq<char>) -> bool {
    forall|i: int| 0 <= i < text.len() ==> whitespace(#[trigger] text[i])
}

/// Whether a text neither begins nor ends with white space.
pub open spec fn is_bare(text: Seq<char>) -> bool {
    text.len() > 0 ==> !whitespace(text[0]) && !whitespace(text.last())
}

/// White space in front of a text that begins with none is all that is taken.
pub proof fn lemma_trim_start(before: Seq<char>, rest: Seq<char>)
    requires
        is_blank(before),
        rest.len() > 0 ==> !whitespace(rest[0]),
    ensures
        trimmed_start(before + rest) == rest,
    decreases before.len(),
{
    let text = before + rest;
    if before.len() > 0 {
        assert(text[0] == before[0]);
        assert(text.drop_first() =~= before.drop_first() + rest);
        assert(is_blank(before.drop_first()));
        lemma_trim_start(before.drop_first(), rest);
    } else {
        assert(text =~= rest);
    }
}

proof fn lemma_trim_end(rest: Seq<char>, after: Seq<char>)
    requires
        is_blank(after),
        rest.len() > 0 ==> !whitespace(rest.last()),
    ensures
        trimmed_end(rest + after) == rest,
    decreases after.len(),
{
    let text = rest + after;
    if after.len() > 0 {
        assert(text.last() == after[after.len() - 1]);
        assert(text.drop_last() =~= rest + after.drop_last());
        assert(is_blank(after.drop_last()));
        lemma_trim_end(rest, after.drop_last());
    } else {
        assert(text =~= rest);
    }
}

/// Trimming takes the white space around a text and nothing else.
pub proof fn trimming_takes_white_space_alone(
    before: Seq<char>,
    middle: Seq<char>,
    after: Seq<char>,
)
    requires
        is_blank(before),
        is_blank(after),
        is_bare(middle),
    ensures
        trimmed(before + middle + after) == middle,
        middle.len() > 0 ==> trimmed_start(before + middle + after) == middle + after,
{
    if middle.len() > 0 {
        assert(before + middle + after =~= before + (middle + after));
        assert((middle + after)[0] == middle[0]);
        lemma_trim_start(before, middle + after);
        lemma_trim_end(middle, after);
    } else {
        let text = before + middle + after;
        assert(text =~= text + Seq::<char>::empty());
        assert(is_blank(text));
        lemma_trim_start(text, Seq::<char>::empty());
        assert(trimmed_end(Seq::<char>::empty()) =~= middle);
    }
}

/// Every text is white space, a bare text, and white space; what is trimmed is the bare
/// text.
pub proof fn every_text_can_be_trimmed(text: Seq<char>) -> (parts: (Seq<char>, Seq<char>))
    ensures
        is_blank(parts.0),
        is_blank(parts.1),
        is_bare(trimmed(text)),
        text == parts.0 + trimmed(text) + parts.1,
    decreases text.len(),
{
    if text.len() > 0 && whitespace(text[0]) {
        let (before, after) = every_text_can_be_trimmed(text.drop_first());
        assert(text =~= seq![text[0]] + text.drop_first());
        assert(trimmed(text) == trimmed(text.drop_first()));
        assert(text =~= (seq![text[0]] + before) + trimmed(text) + after);
        (seq![text[0]] + before, after)
    } else {
        let after = trim_tail(text);
        assert(text =~= Seq::<char>::empty() + trimmed(text) + after);
        (Seq::empty(), after)
    }
}

proof fn trim_tail(text: Seq<char>) -> (after: Seq<char>)
    ensures
        is_blank(after),
        text == trimmed_end(text) + after,
        trimmed_end(text).len() > 0 ==> !whitespace(trimmed_end(text).last())
            && trimmed_end(text)[0] == text[0],
    decreases text.len(),
{
    if text.len() > 0 && whitespace(text.last()) {
        let after = trim_tail(text.drop_last());
        assert(text =~= text.drop_last().push(text.last()));
        assert(text =~= trimmed_end(text) + after.push(text.last()));
        after.push(text.last())
    } else {
        assert(text =~= text + Seq::<char>::empty());
        Seq::empty()
    }
}

// -- numbers -----------------------------------------------------------------------

/// The number that decimal digits stand for.
pub open spec fn number_of(digits: Seq<char>) -> int
    decreases digits.len(),
{
    if digits.len() == 0 {
        0
    } else {
        10 * number_of(digits.drop_last()) + (digits.last() as u32 as int - 48)
    }
}

/// A number is written in decimal digits that stand for it, without a zero in front.
pub proof fn a_number_reads_as_itself(value: nat)
    ensures
        number_of(decimal(value)) == value,
        decimal(value).len() > 0,
        forall|i: int| 0 <= i < decimal(value).len() ==> '0' <= #[trigger] decimal(value)[i] <= '9',
        decimal(value).len() > 1 ==> decimal(value)[0] != '0',
    decreases value,
{
    if value < 10 {
        let one = decimal(value);
        assert(one.drop_last() =~= Seq::<char>::empty());
        assert(number_of(one.drop_last()) == 0);
    } else {
        a_number_reads_as_itself(value / 10);
        let head = decimal(value / 10);
        assert(decimal(value).drop_last() =~= head);
        assert(decimal(value)[0] == head[0]);
        if head.len() == 1 {
            assert(head.drop_last() =~= Seq::<char>::empty());
            assert(number_of(head.drop_last()) == 0);
            assert(head[0] != '0');
        }
    }
}

// -- joining ------------------------------------------------------------------------

/// Texts are joined in their order, with the separator between each two: what is joined of
/// two lists is what is joined of the first, the separator, and what is joined of the
/// second.
pub proof fn joining_keeps_the_order(
    left: Seq<Seq<char>>,
    right: Seq<Seq<char>>,
    separator: Seq<char>,
    text: Seq<char>,
)
    ensures
        joined_with(seq![text], separator) == text,
        left.len() > 0 && right.len() > 0 ==> joined_with(left + right, separator) == joined_with(
            left,
            separator,
        ) + separator + joined_with(right, separator),
    decreases right.len(),
{
    if left.len() > 0 && right.len() > 0 {
        let all = left + right;
        assert(all.drop_last() =~= left + right.drop_last());
        assert(all.last() == right.last());
        if right.len() == 1 {
            assert(all.drop_last() =~= left);
        } else {
            joining_keeps_the_order(left, right.drop_last(), separator, text);
            assert(joined_with(left, separator) + separator + joined_with(
                right.drop_last(),
                separator,
            ) + separator + right.last() =~= joined_with(left, separator) + separator + (joined_with(
                right.drop_last(),
                separator,
            ) + separator + right.last()));
        }
    }
}

// -- order ----------------------------------------------------------------------------

/// The first byte in which two texts differ decides which of them comes first; a text comes
/// before every longer one that begins with it.
pub proof fn the_first_difference_decides(
    shared: Seq<u8>,
    less: u8,
    more: u8,
    left: Seq<u8>,
    right: Seq<u8>,
)
    requires
        less < more,
    ensures
        bytes_before(shared.push(less) + left, shared.push(more) + right),
        !bytes_before(shared.push(more) + right, shared.push(less) + left),
        bytes_before(shared, shared.push(less) + left),
        !bytes_before(shared.push(less) + left, shared),
        !bytes_before(shared, shared),
    decreases shared.len(),
{
    let first = shared.push(less) + left;
    let second = shared.push(more) + right;
    if shared.len() > 0 {
        let rest = shared.drop_first();
        the_first_difference_decides(rest, less, more, left, right);
        assert(first.drop_first() =~= rest.push(less) + left);
        assert(second.drop_first() =~= rest.push(more) + right);
        assert(first[0] == shared[0] && second[0] == shared[0]);
    } else {
        assert(first[0] == less && second[0] == more);
    }
}

// -- prompts ------------------------------------------------------------------------------

/// Attached files are listed in their order, one line each.
pub proof fn attached_files_are_listed_in_order(
    left: Seq<AttachmentView>,
    right: Seq<AttachmentView>,
    one: AttachmentView,
)
    ensures
        attachment_lines(seq![one]) == "- @"@ + one.path,
        left.len() > 0 && right.len() > 0 ==> attachment_lines(left + right) == attachment_lines(
            left,
        ) + "\n"@ + attachment_lines(right),
    decreases right.len(),
{
    if left.len() > 0 && right.len() > 0 {
        let all = left + right;
        assert(all.drop_last() =~= left + right.drop_last());
        assert(all.last() == right.last());
        if right.len() == 1 {
            assert(all.drop_last() =~= left);
        } else {
            attached_files_are_listed_in_order(left, right.drop_last(), one);
            assert(attachment_lines(left) + "\n"@ + attachment_lines(right.drop_last()) + "\n"@ + (
            "- @"@ + right.last().path) =~= attachment_lines(left) + "\n"@ + (attachment_lines(
                right.drop_last(),
            ) + "\n"@ + ("- @"@ + right.last().path)));
        }
    }
}

/// A prompt without attached files is what was typed; with some, what was typed, a gap and a
/// heading, and the files; and the heading and the files alone where nothing was typed.
pub proof fn a_prompt_names_its_files(text: Seq<char>, attachments: Seq<AttachmentView>)
    ensures
        attachments.len() == 0 ==> submitted(text, attachments) == text,
        attachments.len() > 0 ==> submitted(text, attachments) == text + (if text.len() > 0 {
            "\n\n"@
        } else {
            seq![]
        }) + "Attached files:\n"@ + attachment_lines(attachments),
{
    reveal_strlit("\n\n");
    reveal_strlit("Attached files:\n");
    reveal_strlit("\n\nAttached files:\n");
    assert("\n\nAttached files:\n"@ =~= "\n\n"@ + "Attached files:\n"@);
    let lines = attachment_lines(attachments);
    if attachments.len() > 0 {
        if text.len() > 0 {
            assert(text + "\n\nAttached files:\n"@ + lines =~= text + "\n\n"@
                + "Attached files:\n"@ + lines);
        } else {
            assert("Attached files:\n"@ + lines =~= text + seq![] + "Attached files:\n"@ + lines);
        }
    }
}

/// A file is attached once, without the white space around its path, and not again; what is
/// asked for later comes later.
pub proof fn a_file_is_attached_once(
    attached: Seq<Seq<char>>,
    paths: Seq<Seq<char>>,
    path: Seq<char>,
    more: Seq<char>,
)
    ensures
        paths_wanted(attached, paths).contains(path) <==> path.len() > 0 && !attached.contains(path)
            && exists|i: int| 0 <= i < paths.len() && trimmed(#[trigger] paths[i]) == path,
        paths_wanted(attached, paths).no_duplicates(),
        paths_wanted(attached, paths.push(more)).len() >= paths_wanted(attached, paths).len(),
        paths_wanted(attached, paths.push(more)).take(
            paths_wanted(attached, paths).len() as int,
        ) == paths_wanted(attached, paths),
    decreases paths.len(),
{
    let wanted = paths_wanted(attached, paths);
    assert(paths.push(more).drop_last() =~= paths);
    let longer = paths_wanted(attached, paths.push(more));
    assert(longer.take(wanted.len() as int) =~= wanted);
    if paths.len() > 0 {
        let rest = paths.drop_last();
        let last = trimmed(paths.last());
        let earlier = paths_wanted(attached, rest);
        a_file_is_attached_once(attached, rest, path, more);
        a_file_is_attached_once(attached, rest, last, more);
        if exists|i: int| 0 <= i < rest.len() && trimmed(#[trigger] rest[i]) == path {
            let i = choose|i: int| 0 <= i < rest.len() && trimmed(#[trigger] rest[i]) == path;
            assert(paths[i] == rest[i]);
        }
        if exists|i: int| 0 <= i < paths.len() && trimmed(#[trigger] paths[i]) == path {
            let i = choose|i: int| 0 <= i < paths.len() && trimmed(#[trigger] paths[i]) == path;
            if i < rest.len() {
                assert(paths[i] == rest[i]);
            }
        }
        if wanted != earlier {
            assert(wanted == earlier.push(last));
            assert(wanted[wanted.len() - 1] == last);
            if earlier.contains(path) {
                let i = choose|i: int| 0 <= i < earlier.len() && earlier[i] == path;
                assert(wanted[i] == path);
            }
            if wanted.contains(path) {
                let i = choose|i: int| 0 <= i < wanted.len() && wanted[i] == path;
                if i < earlier.len() {
                    assert(earlier[i] == path);
                }
            }
            assert(paths[paths.len() - 1] == paths.last());
        }
        if path == last {
            assert(trimmed(paths[paths.len() - 1]) == path);
        }
    }
}

// -- the context ----------------------------------------------------------------------------

/// Each attached file counts for its path and eight bytes more, each tool call for its
/// detail up to two thousand bytes, and each message for its text with both.
pub proof fn everything_said_is_counted(
    messages: Seq<MessageView>,
    message: MessageView,
    attachments: Seq<AttachmentView>,
    file: AttachmentView,
    calls: Seq<ToolCallView>,
    call: ToolCallView,
    composer: Seq<char>,
)
    ensures
        attachment_bytes(attachments.push(file)) == attachment_bytes(attachments) + utf8_len(
            file.path,
        ) + 8,
        utf8_len(call.detail) <= 2000 ==> tool_bytes(calls.push(call)) == tool_bytes(calls)
            + utf8_len(call.detail),
        utf8_len(call.detail) > 2000 ==> tool_bytes(calls.push(call)) == tool_bytes(calls) + 2000,
        counted_bytes(messages.push(message), composer, attachments) == counted_bytes(
            messages,
            composer,
            attachments,
        ) + utf8_len(message.content) + attachment_bytes(message.attachments) + tool_bytes(
            message.tool_calls,
        ),
        counted_bytes(messages, composer, attachments.push(file)) == counted_bytes(
            messages,
            composer,
            attachments,
        ) + utf8_len(file.path) + 8,
        counted_bytes(seq![], composer, seq![]) == utf8_len(composer),
{
    assert(attachments.push(file).drop_last() =~= attachments);
    assert(calls.push(call).drop_last() =~= calls);
    assert(messages.push(message).drop_last() =~= messages);
}

/// The session under an id is the first one that has it.
pub proof fn the_first_session_counts(sessions: Seq<SessionView>, id: Seq<char>, place: int)
    requires
        0 <= place <= sessions.len(),
        forall|i: int| 0 <= i < place ==> (#[trigger] sessions[i]).id != id,
        place < sessions.len() ==> sessions[place].id == id,
    ensures
        session_under(sessions, id) == if place < sessions.len() {
            Some(sessions[place])
        } else {
            None
        },
    decreases sessions.len(),
{
    if place > 0 {
        assert(sessions[0].id != id);
        let rest = sessions.drop_first();
        assert forall|i: int| 0 <= i < place - 1 implies (#[trigger] rest[i]).id != id by {
            assert(rest[i] == sessions[i + 1]);
        }
        the_first_session_counts(rest, id, place - 1);
    }
}

/// The reading for the session on screen comes from its row in the list, and from the copy
/// on screen only where it is not listed. Where a half of it is missing, or the window is
/// none, there is no reading.
pub proof fn the_listed_reading_counts(
    selected: SessionView,
    sessions: Seq<SessionView>,
    place: int,
)
    requires
        0 <= place <= sessions.len(),
        forall|i: int| 0 <= i < place ==> (#[trigger] sessions[i]).id != selected.id,
        place < sessions.len() ==> sessions[place].id == selected.id,
    ensures
        ({
            let row = if place < sessions.len() {
                sessions[place]
            } else {
                selected
            };
            let usage = reported_usage(Some(selected), sessions);
            &&& usage is Some <==> row.used_tokens is Some && row.context_tokens is Some
                && row.context_tokens->0 > 0
            &&& usage is Some ==> usage->0.measured && Some(usage->0.used_tokens)
                == row.used_tokens && Some(usage->0.max_tokens) == row.context_tokens
        }),
        reported_usage(None, sessions) is None,
{
    the_first_session_counts(sessions, selected.id, place);
}

} // verus!
