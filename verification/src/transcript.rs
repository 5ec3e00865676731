//! What is drawn of the messages: bubbles, tool calls, and the question card.

use crate::chat::CopyButton;
use crate::ids::{hash_id, hash_of, sum, wrapped_sum};
use crate::models::{
    attachments_view, AttachmentView, ChatMessage, ComposerAttachment, MessageRole, MessageView,
    ToolCall, ToolCallView,
};
use crate::state::{AppState, ClarifyView, PendingClarify};
use crate::text::{
    byte_len, characters, lemma_ends_are_boundaries, on_boundary, slice, text_between, utf8_len,
};
use crate::words::{
    all_texts, decimal, join, join3, lowercase, maybe_text, number_text, to_lowercase, to_uppercase,
    trim, trimmed, uppercase,
};
use vstd::prelude::*;
use vstd::utf8::encode_utf8;

verus! {

// -- tool calls ----------------------------------------------------------------------

/// How many tool calls of a message are shown.
pub const MAX_TOOL_CALLS: usize = 12;

/// How many bytes of a tool call's detail are shown.
pub const MAX_DETAIL_BYTES: usize = 3000;

/// A tool call as it is drawn.
#[derive(Debug)]
pub struct ToolRow {
    pub title: String,
    pub detail: String,
}

pub struct ToolRowView {
    pub title: Seq<char>,
    pub detail: Seq<char>,
}

impl View for ToolRow {
    type V = ToolRowView;

    open spec fn view(&self) -> ToolRowView {
        ToolRowView { title: self.title@, detail: self.detail@ }
    }
}

/// Whether a detail can be shown: one that is too long has to be cut between characters.
pub open spec fn detail_can_be_cut(detail: Seq<char>) -> bool {
    utf8_len(detail) > MAX_DETAIL_BYTES ==> on_boundary(detail, MAX_DETAIL_BYTES as int)
}

/// The detail of a tool call as it is drawn.
pub open spec fn shown_detail(detail: Seq<char>) -> Seq<char> {
    if utf8_len(detail) > MAX_DETAIL_BYTES {
        text_between(detail, 0, MAX_DETAIL_BYTES as int) + "\n..."@
    } else if detail.len() == 0 {
        "No detail"@
    } else {
        detail
    }
}

/// The tool call at `index` as it is drawn.
pub open spec fn tool_row_of(index: int, call: ToolCallView) -> ToolRowView {
    ToolRowView {
        title: decimal((index + 1) as nat) + ". "@ + call.name + " · "@ + call.status,
        detail: shown_detail(call.detail),
    }
}

/// How many tool calls are drawn: none while they are folded away.
pub open spec fn shown_calls(calls: Seq<ToolCallView>, expanded: bool) -> int {
    if !expanded {
        0
    } else if calls.len() > MAX_TOOL_CALLS {
        MAX_TOOL_CALLS as int
    } else {
        calls.len() as int
    }
}

/// What the agent did for a message.
#[derive(Debug)]
pub struct Activity {
    pub thinking: String,
    /// What the tool calls are unfolded with, if there are any.
    pub pill: Option<String>,
    pub rows: Vec<ToolRow>,
    /// What says how many tool calls are left out, if any are.
    pub hidden_note: Option<String>,
}

pub struct ActivityView {
    pub thinking: Seq<char>,
    pub pill: Option<Seq<char>>,
    pub rows: Seq<ToolRowView>,
    pub hidden_note: Option<Seq<char>>,
}

impl View for Activity {
    type V = ActivityView;

    open spec fn view(&self) -> ActivityView {
        ActivityView {
            thinking: self.thinking@,
            pill: maybe_text(self.pill),
            rows: self.rows@.map_values(|row: ToolRow| row@),
            hidden_note: maybe_text(self.hidden_note),
        }
    }
}

/// What is drawn of the agent's work on a message; `duration` says how long it took so far.
pub open spec fn activity_of(message: MessageView, expanded: bool, duration: Seq<char>) -> ActivityView {
    let calls = message.tool_calls;
    ActivityView {
        thinking: (if message.is_streaming {
            "Thinking · "@
        } else {
            "Thought for "@
        }) + duration,
        pill: if calls.len() > 0 {
            Some(
                "Tool calls · "@ + decimal(calls.len()) + (if expanded {
                    " · hide"@
                } else {
                    " · show"@
                }),
            )
        } else {
            None
        },
        rows: Seq::new(
            shown_calls(calls, expanded) as nat,
            |index: int| tool_row_of(index, calls[index]),
        ),
        hidden_note: if expanded && calls.len() > MAX_TOOL_CALLS {
            Some(decimal((calls.len() - MAX_TOOL_CALLS) as nat) + " more tool event(s) hidden"@)
        } else {
            None
        },
    }
}

/// Whether the details that are drawn can be cut.
pub open spec fn details_can_be_cut(message: MessageView, expanded: bool) -> bool {
    forall|i: int|
        0 <= i < shown_calls(message.tool_calls, expanded) ==> detail_can_be_cut(
            (#[trigger] message.tool_calls[i]).detail,
        )
}

fn detail_text(detail: &str) -> (shown: String)
    requires
        detail_can_be_cut(detail@),
    ensures
        shown@ == shown_detail(detail@),
{
    if byte_len(detail) > MAX_DETAIL_BYTES {
        proof {
            lemma_ends_are_boundaries(detail@);
        }
        join(slice(detail, 0, MAX_DETAIL_BYTES).as_str(), "\n...")
    } else if detail.is_empty() {
        "No detail".to_owned()
    } else {
        detail.to_owned()
    }
}

fn tool_row(index: usize, call: &ToolCall) -> (row: ToolRow)
    requires
        index < MAX_TOOL_CALLS,
        detail_can_be_cut(call@.detail),
    ensures
        row@ == tool_row_of(index as int, call@),
{
    let mut title: String = number_text((index + 1) as u64);
    title.append(". ");
    title.append(call.name.as_str());
    title.append(" · ");
    title.append(call.status.as_str());
    ToolRow { title, detail: detail_text(call.detail.as_str()) }
}

/// What is drawn of the agent's work on a message; `duration` says how long it took so far.
pub fn activity(message: &ChatMessage, expanded: bool, duration: &str) -> (activity: Activity)
    requires
        details_can_be_cut(message@, expanded),
    ensures
        activity@ == activity_of(message@, expanded, duration@),
{
    let ghost calls = message@.tool_calls;
    let count: usize = message.tool_calls.len();
    let thinking: String = if message.is_streaming {
        join("Thinking · ", duration)
    } else {
        join("Thought for ", duration)
    };
    let pill: Option<String> = if count > 0 {
        Some(
            join3(
                "Tool calls · ",
                number_text(count as u64).as_str(),
                if expanded {
                    " · hide"
                } else {
                    " · show"
                },
            ),
        )
    } else {
        None
    };
    let shown: usize = if !expanded {
        0
    } else if count > MAX_TOOL_CALLS {
        MAX_TOOL_CALLS
    } else {
        count
    };
    let mut rows: Vec<ToolRow> = Vec::new();
    while rows.len() < shown
        invariant
            calls == message@.tool_calls,
            shown == shown_calls(calls, expanded),
            shown <= MAX_TOOL_CALLS,
            shown <= message.tool_calls@.len(),
            details_can_be_cut(message@, expanded),
            rows@.len() <= shown,
            forall|i: int| 0 <= i < rows@.len() ==> (#[trigger] rows@[i])@ == tool_row_of(i, calls[i]),
        decreases shown - rows@.len(),
    {
        let index: usize = rows.len();
        assert(calls[index as int] == message.tool_calls@[index as int]@);
        rows.push(tool_row(index, &message.tool_calls[index]));
    }
    let hidden_note: Option<String> = if expanded && count > MAX_TOOL_CALLS {
        Some(
            join(number_text((count - MAX_TOOL_CALLS) as u64).as_str(), " more tool event(s) hidden"),
        )
    } else {
        None
    };
    let activity = Activity { thinking, pill, rows, hidden_note };
    assert(activity@.rows =~= activity_of(message@, expanded, duration@).rows);
    activity
}

/// No tool call goes missing in silence: those that are drawn and those that the note
/// counts are all of them.
pub proof fn every_tool_call_is_accounted_for(message: MessageView, duration: Seq<char>)
    ensures
        ({
            let shown = activity_of(message, true, duration);
            let hidden = message.tool_calls.len() - shown.rows.len();
            &&& hidden >= 0
            &&& hidden > 0 <==> shown.hidden_note is Some
            &&& hidden > 0 ==> shown.hidden_note == Some(
                decimal(hidden as nat) + " more tool event(s) hidden"@,
            )
        }),
{
}

// -- bubbles ---------------------------------------------------------------------------

/// A message as it is drawn.
#[derive(Debug)]
pub enum Bubble {
    /// What the user wrote, with the names of what was attached to it.
    User { attachments: Vec<String> },
    Assistant {
        streaming: bool,
        activity: Option<Activity>,
        /// Whether there is text to draw.
        shows_text: bool,
        /// The copy button under a finished reply.
        copy: Option<CopyButton>,
    },
    /// Anything else, as plain text.
    Plain(String),
}

pub enum BubbleView {
    User { attachments: Seq<Seq<char>> },
    Assistant {
        streaming: bool,
        activity: Option<ActivityView>,
        shows_text: bool,
        copy: Option<CopyButton>,
    },
    Plain(Seq<char>),
}

impl View for Bubble {
    type V = BubbleView;

    open spec fn view(&self) -> BubbleView {
        match self {
            Bubble::User { attachments } => BubbleView::User { attachments: all_texts(attachments@) },
            Bubble::Assistant { streaming, activity, shows_text, copy } => BubbleView::Assistant {
                streaming: *streaming,
                activity: match activity {
                    Some(activity) => Some(activity@),
                    None => None,
                },
                shows_text: *shows_text,
                copy: *copy,
            },
            Bubble::Plain(content) => BubbleView::Plain(content@),
        }
    }
}

/// The names of what was attached, each marked as a file.
pub open spec fn attachment_names(attachments: Seq<AttachmentView>) -> Seq<Seq<char>> {
    attachments.map_values(|attachment: AttachmentView| "@"@ + attachment.name)
}

/// A message as it is drawn. A reply shows what the agent did while it streams and
/// wherever tools were used; its copy button comes once it is finished and says something.
pub open spec fn bubble_of(
    message: MessageView,
    expanded: bool,
    copy: CopyButton,
    duration: Seq<char>,
) -> BubbleView {
    match message.role {
        MessageRole::User => BubbleView::User { attachments: attachment_names(message.attachments) },
        MessageRole::Assistant => BubbleView::Assistant {
            streaming: message.is_streaming,
            activity: if message.is_streaming || message.tool_calls.len() > 0 {
                Some(activity_of(message, expanded, duration))
            } else {
                None
            },
            shows_text: trimmed(message.content).len() > 0,
            copy: if !message.is_streaming && trimmed(message.content).len() > 0 {
                Some(copy)
            } else {
                None
            },
        },
        _ => BubbleView::Plain(message.content),
    }
}

/// The names of what was attached, each marked as a file.
pub fn names(attachments: &Vec<ComposerAttachment>) -> (names: Vec<String>)
    ensures
        all_texts(names@) == attachment_names(attachments_view(attachments@)),
{
    let mut names: Vec<String> = Vec::new();
    while names.len() < attachments.len()
        invariant
            names@.len() <= attachments@.len(),
            forall|i: int|
                0 <= i < names@.len() ==> (#[trigger] names@[i])@ == "@"@ + attachments@[i].name@,
        decreases attachments@.len() - names@.len(),
    {
        let index: usize = names.len();
        names.push(join("@", attachments[index].name.as_str()));
    }
    assert(all_texts(names@) =~= attachment_names(attachments_view(attachments@)));
    names
}

/// A message as it is drawn.
pub fn message_bubble(
    message: &ChatMessage,
    expanded: bool,
    copy: CopyButton,
    duration: &str,
) -> (bubble: Bubble)
    requires
        message@.role == MessageRole::Assistant ==> details_can_be_cut(message@, expanded),
    ensures
        bubble@ == bubble_of(message@, expanded, copy, duration@),
{
    match message.role {
        MessageRole::User => Bubble::User { attachments: names(&message.attachments) },
        MessageRole::Assistant => {
            let shows_text: bool = !trim(message.content.as_str()).as_str().is_empty();
            let works: bool = message.is_streaming || message.tool_calls.len() > 0;
            Bubble::Assistant {
                streaming: message.is_streaming,
                activity: if works {
                    Some(activity(message, expanded, duration))
                } else {
                    None
                },
                shows_text,
                copy: if !message.is_streaming && shows_text {
                    Some(copy)
                } else {
                    None
                },
            }
        },
        _ => Bubble::Plain(message.content.clone()),
    }
}

/// The numbers that a message and the column it stands in are known by.
pub fn message_ids(id: &str) -> (ids: (u64, u64))
    ensures
        ids.0 == hash_of(encode_utf8(id@)),
        ids.1 == wrapped_sum(hash_of(encode_utf8(id@)), 1),
{
    let item: u64 = hash_id(id);
    (item, sum(item, 1))
}

/// A reply cannot be copied while it is still being written.
pub proof fn a_streaming_reply_has_no_copy_button(
    message: MessageView,
    expanded: bool,
    copy: CopyButton,
    duration: Seq<char>,
)
    requires
        message.role == MessageRole::Assistant,
        message.is_streaming,
    ensures
        bubble_of(message, expanded, copy, duration) matches BubbleView::Assistant {
            copy: None,
            activity: Some(_),
            ..
        },
{
}

// -- labels -------------------------------------------------------------------------------

/// `text` with each space replaced by a hyphen.
pub open spec fn hyphenated(text: Seq<char>) -> Seq<char> {
    text.map_values(
        |character: char|
            if character == ' ' {
                '-'
            } else {
                character
            },
    )
}

/// What an author's label is found by.
pub fn author_slug(author: &str) -> (slug: String)
    ensures
        slug@ == hyphenated(lowercase(author@)),
{
    let lower: String = to_lowercase(author);
    let all: Vec<char> = characters(lower.as_str());
    let mut slug = String::new();
    let mut index: usize = 0;
    while index < all.len()
        invariant
            all@ == lower@,
            index <= all@.len(),
            slug@ == hyphenated(all@.take(index as int)),
        decreases all@.len() - index,
    {
        let character: char = all[index];
        slug.push(
            if character == ' ' {
                '-'
            } else {
                character
            },
        );
        index += 1;
        assert(slug@ =~= hyphenated(all@.take(index as int)));
    }
    assert(all@.take(all@.len() as int) =~= all@);
    slug
}

impl AppState {
    /// What labels each reply. The transcript belongs to the active backend.
    pub fn author(&self) -> (author: String)
        ensures
            author@ == uppercase(self@.settings.backend_kind.name_of()),
    {
        to_uppercase(self.backend_display_name())
    }

    /// What stands in place of a transcript in which nothing was said.
    pub fn empty_text(&self) -> (text: String)
        ensures
            text@ == "Van-Goal is ready to use "@ + self@.settings.backend_kind.name_of()
                + ". Send a message or resume a session from the sidebar."@,
    {
        join3(
            "Van-Goal is ready to use ",
            self.backend_display_name(),
            ". Send a message or resume a session from the sidebar.",
        )
    }

    /// The card for the question the agent is waiting on.
    pub fn clarify_card(&self) -> (card: Option<ClarifyCard>)
        ensures
            match card {
                Some(card) => self@.clarify matches Some(clarify) && card@ == card_of(
                    clarify,
                    self@.settings.backend_kind.name_of(),
                ),
                None => self@.clarify is None,
            },
    {
        match &self.pending_clarify {
            Some(clarify) => Some(clarify_card(clarify, self.backend_display_name())),
            None => None,
        }
    }
}

// -- the question card -----------------------------------------------------------------------

/// A question as it is drawn.
#[derive(Debug)]
pub struct ClarifyCard {
    pub title: String,
    pub question: String,
    /// The choices, each with its number.
    pub choices: Vec<(String, String)>,
    pub hint: &'static str,
}

pub struct CardView {
    pub title: Seq<char>,
    pub question: Seq<char>,
    pub choices: Seq<(Seq<char>, Seq<char>)>,
    pub hint: Seq<char>,
}

impl View for ClarifyCard {
    type V = CardView;

    open spec fn view(&self) -> CardView {
        CardView {
            title: self.title@,
            question: self.question@,
            choices: self.choices@.map_values(|choice: (String, String)| (choice.0@, choice.1@)),
            hint: self.hint@,
        }
    }
}

/// A question as it is drawn: its choices numbered from one, and a hint that any answer can
/// be typed.
pub open spec fn card_of(clarify: ClarifyView, backend: Seq<char>) -> CardView {
    CardView {
        title: backend + " needs your confirmation"@,
        question: clarify.question,
        choices: Seq::new(
            clarify.choices.len(),
            |index: int| (decimal((index + 1) as nat), clarify.choices[index]),
        ),
        hint: if clarify.choices.len() == 0 {
            "Type your answer below and press Enter"@
        } else {
            "Or type a custom answer below and press Enter"@
        },
    }
}

/// A question as it is drawn.
pub fn clarify_card(clarify: &PendingClarify, backend: &str) -> (card: ClarifyCard)
    ensures
        card@ == card_of(clarify@, backend@),
{
    let mut choices: Vec<(String, String)> = Vec::new();
    while choices.len() < clarify.choices.len()
        invariant
            choices@.len() <= clarify.choices@.len(),
            forall|i: int|
                0 <= i < choices@.len() ==> (#[trigger] choices@[i]).0@ == decimal((i + 1) as nat)
                    && choices@[i].1@ == clarify.choices@[i]@,
        decreases clarify.choices@.len() - choices@.len(),
    {
        let index: usize = choices.len();
        choices.push((number_text((index + 1) as u64), clarify.choices[index].clone()));
    }
    let hint: &'static str = if clarify.choices.len() == 0 {
        "Type your answer below and press Enter"
    } else {
        "Or type a custom answer below and press Enter"
    };
    let card = ClarifyCard {
        title: join(backend, " needs your confirmation"),
        question: clarify.question.clone(),
        choices,
        hint,
    };
    assert(card@.choices =~= card_of(clarify@, backend@).choices);
    card
}

} // verus!
