//! What the transcript remembers between frames.
//!
//! The list of drawn messages has to be kept in step with the messages themselves; the copy
//! button of a message comes and goes with the pointer; one piece of text can be selected
//! at a time, and at most one menu is open.

use crate::ids::{product, sum, wrapped_product, wrapped_sum};
use crate::keyed::{TextMap, TextSet};
use crate::models::{messages_view, ChatMessage, MessageRole, MessageView};
use crate::text::{byte_len, utf8_len};
use crate::words::{
    borrow_text, copy_text, join, join3, maybe_str, maybe_text, same_maybe, same_text, trim,
    trimmed,
};
use std::ops::Range;
use vstd::prelude::*;

verus! {

// -- the list of drawn messages ----------------------------------------------------

/// What has to be done to the list of measured items.
#[derive(Clone, Copy, Debug, PartialEq, Eq, Structural)]
pub enum ListChange {
    Keep,
    /// Start over with this many items.
    Reset(usize),
    /// Put `count` items in the place of those from `start` to `end`.
    Splice { start: usize, end: usize, count: usize },
}

impl ListChange {
    /// How many items the list has after the change.
    pub open spec fn count_after(self, before: int) -> int {
        match self {
            ListChange::Keep => before,
            ListChange::Reset(count) => count as int,
            ListChange::Splice { start, end, count } => before - (end - start) + count,
        }
    }

    /// Whether the list has the items that the change names.
    pub open spec fn fits(self, before: int) -> bool {
        match self {
            ListChange::Splice { start, end, .. } => start <= end <= before,
            _ => true,
        }
    }
}

/// What to do after the messages changed.
#[derive(Clone, Copy, Debug, PartialEq, Eq, Structural)]
pub struct ListSync {
    pub change: ListChange,
    pub scroll_to_latest: bool,
    /// Another session is on screen: what was remembered of the old one's messages is of no
    /// use any more.
    pub other_session: bool,
}

/// What the list of drawn messages was last brought in step with.
pub struct TranscriptList {
    pub count: usize,
    pub signature: u64,
    /// The session whose messages are in the list.
    pub identity: Option<String>,
    /// Whether the list was ever brought in step.
    pub synced: bool,
}

pub struct ListView {
    pub count: usize,
    pub signature: u64,
    pub identity: Option<Seq<char>>,
    pub synced: bool,
}

impl View for TranscriptList {
    type V = ListView;

    open spec fn view(&self) -> ListView {
        ListView {
            count: self.count,
            signature: self.signature,
            identity: maybe_text(self.identity),
            synced: self.synced,
        }
    }
}

/// A number that changes when what is drawn grows: the messages, the text and the tools of
/// the last one, whether it is still streaming, and whether a question is open.
pub open spec fn signature_of(messages: Seq<MessageView>, asking: bool) -> u64 {
    let count = messages.len() as u64;
    let drawn = if messages.len() == 0 {
        count
    } else {
        let last = messages.last();
        let texts = wrapped_sum(wrapped_product(count, 31), utf8_len(last.content) as u64);
        let streamed = wrapped_sum(
            texts,
            if last.is_streaming {
                7
            } else {
                0
            },
        );
        wrapped_sum(streamed, wrapped_product(last.tool_calls.len() as u64, 13))
    };
    if asking {
        wrapped_sum(drawn, 1_000_003)
    } else {
        drawn
    }
}

/// Whether the last message is still streaming.
pub open spec fn ends_streaming(messages: Seq<MessageView>) -> bool {
    messages.len() > 0 && messages.last().is_streaming
}

/// Whether one of the messages from `start` on was written by the user.
pub open spec fn user_wrote_since(messages: Seq<MessageView>, start: int) -> bool {
    exists|i: int| start <= i < messages.len() && (#[trigger] messages[i]).role == MessageRole::User
}

impl ListView {
    pub open spec fn fresh() -> ListView {
        ListView { count: 0, signature: 0, identity: None, synced: false }
    }

    /// The list in step with the messages of a session.
    pub open spec fn in_step(
        identity: Option<Seq<char>>,
        messages: Seq<MessageView>,
        asking: bool,
    ) -> ListView {
        ListView {
            count: messages.len() as usize,
            signature: signature_of(messages, asking),
            identity,
            synced: true,
        }
    }

    /// What brings the list in step. Another session starts it over. New messages are
    /// appended, which keeps every measured height, and what the user sent is scrolled
    /// into view. A reply that is still growing has its last item measured again.
    pub open spec fn sync_with(
        self,
        identity: Option<Seq<char>>,
        messages: Seq<MessageView>,
        asking: bool,
    ) -> ListSync {
        let count = messages.len() as usize;
        if identity != self.identity {
            ListSync {
                change: ListChange::Reset(count),
                scroll_to_latest: false,
                other_session: true,
            }
        } else if count > self.count {
            ListSync {
                change: ListChange::Splice {
                    start: self.count,
                    end: self.count,
                    count: (count - self.count) as usize,
                },
                scroll_to_latest: user_wrote_since(messages, self.count as int),
                other_session: false,
            }
        } else if count < self.count {
            ListSync {
                change: ListChange::Splice { start: 0, end: self.count, count },
                scroll_to_latest: false,
                other_session: false,
            }
        } else if signature_of(messages, asking) != self.signature && ends_streaming(messages) {
            ListSync {
                change: ListChange::Splice { start: (count - 1) as usize, end: count, count: 1 },
                scroll_to_latest: false,
                other_session: false,
            }
        } else {
            ListSync { change: ListChange::Keep, scroll_to_latest: false, other_session: false }
        }
    }
}

/// A number that changes when what is drawn grows.
pub fn scroll_signature(messages: &Vec<ChatMessage>, asking: bool) -> (signature: u64)
    ensures
        signature == signature_of(messages_view(messages@), asking),
{
    let ghost views = messages_view(messages@);
    let mut signature: u64 = messages.len() as u64;
    if messages.len() > 0 {
        let last: &ChatMessage = &messages[messages.len() - 1];
        assert(views.last() == last@);
        let texts: u64 = sum(product(signature, 31), byte_len(last.content.as_str()) as u64);
        let streamed: u64 = sum(
            texts,
            if last.is_streaming {
                7
            } else {
                0
            },
        );
        signature = sum(streamed, product(last.tool_calls.len() as u64, 13));
    }
    if asking {
        signature = sum(signature, 1_000_003);
    }
    signature
}

fn user_wrote(messages: &Vec<ChatMessage>, start: usize) -> (wrote: bool)
    requires
        start <= messages@.len(),
    ensures
        wrote == user_wrote_since(messages_view(messages@), start as int),
{
    let ghost views = messages_view(messages@);
    let mut index: usize = start;
    while index < messages.len()
        invariant
            views == messages_view(messages@),
            start <= index <= messages@.len(),
            forall|i: int| start <= i < index ==> (#[trigger] views[i]).role != MessageRole::User,
        decreases messages@.len() - index,
    {
        assert(views[index as int] == messages@[index as int]@);
        if messages[index].role == MessageRole::User {
            return true;
        }
        index += 1;
    }
    false
}

impl TranscriptList {
    pub fn new() -> (list: TranscriptList)
        ensures
            list@ == ListView::fresh(),
    {
        TranscriptList { count: 0, signature: 0, identity: None, synced: false }
    }

    /// Bring the list in step with the messages of the session on screen.
    pub fn sync_list_state(
        &mut self,
        identity: Option<&str>,
        messages: &Vec<ChatMessage>,
        asking: bool,
    ) -> (sync: ListSync)
        ensures
            sync == old(self)@.sync_with(maybe_str(identity), messages_view(messages@), asking),
            final(self)@ == ListView::in_step(
                maybe_str(identity),
                messages_view(messages@),
                asking,
            ),
    {
        let ghost views = messages_view(messages@);
        let signature: u64 = scroll_signature(messages, asking);
        let count: usize = messages.len();
        let known: usize = self.count;
        let streaming: bool = count > 0 && messages[count - 1].is_streaming;
        proof {
            if count > 0 {
                assert(views.last() == messages@[count - 1]@);
            }
        }
        let other_session: bool = !same_maybe(identity, borrow_text(&self.identity));
        let mut scroll_to_latest: bool = false;
        let change: ListChange = if other_session {
            ListChange::Reset(count)
        } else if count > known {
            scroll_to_latest = user_wrote(messages, known);
            ListChange::Splice { start: known, end: known, count: count - known }
        } else if count < known {
            ListChange::Splice { start: 0, end: known, count }
        } else if signature != self.signature && streaming {
            ListChange::Splice { start: count - 1, end: count, count: 1 }
        } else {
            ListChange::Keep
        };
        if other_session {
            self.identity = match identity {
                Some(id) => Some(id.to_owned()),
                None => None,
            };
        }
        self.count = count;
        self.signature = signature;
        self.synced = true;
        ListSync { change, scroll_to_latest, other_session }
    }
}

/// The list always ends up with one item for each message, and no change names items that
/// the list does not have.
pub proof fn the_list_follows_the_messages(
    list: ListView,
    identity: Option<Seq<char>>,
    messages: Seq<MessageView>,
    asking: bool,
)
    requires
        messages.len() <= usize::MAX,
    ensures
        ({
            let change = list.sync_with(identity, messages, asking).change;
            &&& change.fits(list.count as int)
            &&& change.count_after(list.count as int) == messages.len()
        }),
{
}

/// Sending a prompt always moves the view to it, wherever the reader had scrolled to.
pub proof fn a_sent_prompt_is_scrolled_into_view(
    list: ListView,
    messages: Seq<MessageView>,
    asking: bool,
    sent: int,
)
    requires
        messages.len() <= usize::MAX,
        list.count <= sent < messages.len(),
        messages[sent].role == MessageRole::User,
    ensures
        list.sync_with(list.identity, messages, asking).scroll_to_latest,
{
}

/// A reply that streams in never moves the reader: as long as only it changes, nothing is
/// scrolled, and every item but the last keeps its measured height.
pub proof fn a_streaming_reply_does_not_move_the_reader(
    list: ListView,
    messages: Seq<MessageView>,
    asking: bool,
)
    requires
        messages.len() == list.count,
    ensures
        ({
            let sync = list.sync_with(list.identity, messages, asking);
            &&& !sync.scroll_to_latest
            &&& sync.change == ListChange::Keep || sync.change == (ListChange::Splice {
                start: (list.count - 1) as usize,
                end: list.count,
                count: 1,
            })
        }),
{
}

/// A list that is in step has nothing done to it.
pub proof fn a_list_in_step_is_left_alone(
    identity: Option<Seq<char>>,
    messages: Seq<MessageView>,
    asking: bool,
)
    requires
        messages.len() <= usize::MAX,
    ensures
        ({
            let sync = ListView::in_step(identity, messages, asking).sync_with(
                identity,
                messages,
                asking,
            );
            &&& sync.change == ListChange::Keep
            &&& !sync.scroll_to_latest
            &&& !sync.other_session
        }),
{
}

// -- parsed messages ---------------------------------------------------------------

/// How many parsed messages are kept.
pub const MEMO_LIMIT: usize = 512;

/// What messages were parsed to, with the text they were parsed from: a reply that has not
/// changed since the last frame is not parsed again.
pub struct MarkdownMemo<B> {
    pub entries: TextMap<(String, B)>,
}

impl<B> MarkdownMemo<B> {
    pub open spec fn wf(&self) -> bool {
        &&& self.entries.wf()
        &&& self.entries@.dom().len() <= MEMO_LIMIT
    }

    /// What the message `id` was parsed to, if it still reads `content`.
    pub open spec fn known(&self, id: Seq<char>, content: Seq<char>) -> Option<B> {
        if self.entries@.contains_key(id) && self.entries@[id].0@ == content {
            Some(self.entries@[id].1)
        } else {
            None
        }
    }

    pub fn new() -> (memo: MarkdownMemo<B>)
        ensures
            memo.wf(),
            memo.entries@ == Map::<Seq<char>, (String, B)>::empty(),
    {
        MarkdownMemo { entries: TextMap::new() }
    }

    /// What a message was parsed to, if it has not changed since.
    pub fn blocks(&self, id: &str, content: &str) -> (blocks: Option<&B>)
        requires
            self.wf(),
        ensures
            match blocks {
                Some(blocks) => self.known(id@, content@) == Some(*blocks),
                None => self.known(id@, content@) is None,
            },
    {
        match self.entries.get(id) {
            Some(entry) => if same_text(entry.0.as_str(), content) {
                Some(&entry.1)
            } else {
                None
            },
            None => None,
        }
    }

    /// Remember what a message was parsed to. A full memo is emptied first.
    pub fn remember(&mut self, id: String, content: String, blocks: B)
        requires
            old(self).wf(),
        ensures
            final(self).wf(),
            final(self).entries@ == (if old(self).entries@.dom().len() >= MEMO_LIMIT {
                Map::<Seq<char>, (String, B)>::empty()
            } else {
                old(self).entries@
            }).insert(id@, (content, blocks)),
            final(self).known(id@, content@) == Some(blocks),
    {
        if self.entries.len() >= MEMO_LIMIT {
            self.entries = TextMap::new();
            assert(self.entries@.dom() =~= Set::<Seq<char>>::empty());
        }
        let ghost before = self.entries@;
        proof {
            assert(before.dom().len() < MEMO_LIMIT && before.dom().finite());
            assert(before.insert(id@, (content, blocks)).dom() =~= before.dom().insert(id@));
        }
        self.entries.insert(id, (content, blocks));
    }

    pub fn forget(&mut self)
        ensures
            final(self).wf(),
            final(self).entries@ == Map::<Seq<char>, (String, B)>::empty(),
    {
        self.entries = TextMap::new();
        assert(self.entries@.dom() =~= Set::<Seq<char>>::empty());
    }
}

// -- the copy button -----------------------------------------------------------------

/// How long the copy button stays after the pointer leaves a message, so that it can be
/// reached, in milliseconds.
pub const COPY_HIDE_DELAY: u64 = 700;

/// How long the checkmark stays before the button returns to the copy icon, in
/// milliseconds.
pub const COPY_CONFIRMATION: u64 = 1400;

/// How the copy button of a message looks. It is hidden, not absent, while the pointer is
/// away: the header must not reflow every time the pointer crosses the transcript.
#[derive(Clone, Copy, Debug, PartialEq, Eq, Structural)]
pub enum CopyButton {
    Hidden,
    Revealed,
    Copied,
}

/// What to do after the pointer moved.
#[derive(Clone, Copy, Debug, PartialEq, Eq, Structural)]
pub enum HoverAction {
    Nothing,
    Redraw,
    /// Hide the button once the pointer has been away for long enough, unless it returns.
    HideLater,
}

/// Which message's copy button shows.
pub struct CopyHover {
    /// The message under the pointer. It stays for a while after the pointer has left.
    pub hovered: Option<String>,
    /// The pointer has left, and the button is to be hidden.
    pub hide_pending: bool,
    /// The message copied most recently, while that is being confirmed.
    pub copied: Option<String>,
}

pub struct HoverView {
    pub hovered: Option<Seq<char>>,
    pub hide_pending: bool,
    pub copied: Option<Seq<char>>,
}

impl View for CopyHover {
    type V = HoverView;

    open spec fn view(&self) -> HoverView {
        HoverView {
            hovered: maybe_text(self.hovered),
            hide_pending: self.hide_pending,
            copied: maybe_text(self.copied),
        }
    }
}

impl HoverView {
    /// The pointer came to a message, or left it.
    pub open spec fn moved_to(self, id: Option<Seq<char>>) -> HoverView {
        match id {
            Some(id) => HoverView { hovered: Some(id), hide_pending: false, ..self },
            None => HoverView { hide_pending: self.hide_pending || self.hovered is Some, ..self },
        }
    }

    /// The pointer has been away for long enough.
    pub open spec fn timed_out(self) -> HoverView {
        if self.hide_pending {
            HoverView { hovered: None, hide_pending: false, ..self }
        } else {
            self
        }
    }

    pub open spec fn button_of(self, id: Seq<char>) -> CopyButton {
        if self.copied == Some(id) {
            CopyButton::Copied
        } else if self.hovered == Some(id) {
            CopyButton::Revealed
        } else {
            CopyButton::Hidden
        }
    }
}

impl CopyHover {
    pub fn new() -> (hover: CopyHover)
        ensures
            hover@ == (HoverView { hovered: None, hide_pending: false, copied: None }),
    {
        CopyHover { hovered: None, hide_pending: false, copied: None }
    }

    /// Reveal or hide the copy button for a message. Leaving starts a timer rather than
    /// hiding at once; coming back cancels it.
    pub fn set_message_hovered(&mut self, id: Option<String>) -> (action: HoverAction)
        ensures
            final(self)@ == old(self)@.moved_to(maybe_text(id)),
            action == match id {
                Some(id) => if old(self)@.hovered == Some(id@) {
                    HoverAction::Nothing
                } else {
                    HoverAction::Redraw
                },
                None => if old(self)@.hovered is Some {
                    HoverAction::HideLater
                } else {
                    HoverAction::Nothing
                },
            },
    {
        match id {
            Some(id) => {
                self.hide_pending = false;
                if same_maybe(borrow_text(&self.hovered), Some(id.as_str())) {
                    HoverAction::Nothing
                } else {
                    self.hovered = Some(id);
                    HoverAction::Redraw
                }
            },
            None => {
                if self.hovered.is_none() {
                    return HoverAction::Nothing;
                }
                self.hide_pending = true;
                HoverAction::HideLater
            },
        }
    }

    /// The pointer has been away for long enough.
    pub fn hide_elapsed(&mut self)
        ensures
            final(self)@ == old(self)@.timed_out(),
    {
        if self.hide_pending {
            self.hovered = None;
            self.hide_pending = false;
        }
    }

    /// A message was put on the clipboard: confirm it on its button.
    pub fn copy_message(&mut self, id: &str)
        ensures
            final(self)@ == (HoverView { copied: Some(id@), ..old(self)@ }),
    {
        self.copied = Some(id.to_owned());
    }

    /// The copy has been confirmed for long enough.
    pub fn confirmation_elapsed(&mut self)
        ensures
            final(self)@ == (HoverView { copied: None, ..old(self)@ }),
    {
        self.copied = None;
    }

    pub fn button(&self, id: &str) -> (button: CopyButton)
        ensures
            button == self@.button_of(id@),
    {
        if same_maybe(borrow_text(&self.copied), Some(id)) {
            CopyButton::Copied
        } else if same_maybe(borrow_text(&self.hovered), Some(id)) {
            CopyButton::Revealed
        } else {
            CopyButton::Hidden
        }
    }
}

/// The button outlasts the pointer: it hides only once the pointer has been away for the
/// whole delay.
pub proof fn the_button_lingers(hover: HoverView, id: Seq<char>)
    requires
        hover.hovered == Some(id),
        hover.copied != Some(id),
    ensures
        hover.moved_to(None).button_of(id) == CopyButton::Revealed,
        hover.moved_to(None).timed_out().button_of(id) == CopyButton::Hidden,
{
}

/// Leaving and coming back cancels the pending hide.
pub proof fn returning_cancels_the_hide(hover: HoverView, id: Seq<char>)
    requires
        hover.copied != Some(id),
    ensures
        hover.moved_to(None).moved_to(Some(id)).timed_out().button_of(id) == CopyButton::Revealed,
{
}

// -- menus -----------------------------------------------------------------------------

/// The menu drawn over the composer.
#[derive(Clone, Copy, Debug, PartialEq, Eq, Structural)]
pub enum MenuOverlay {
    Absent,
    Permission,
    Model,
}

/// The menus of the composer.
#[derive(Clone, Copy, Debug, PartialEq, Eq, Structural)]
pub struct Menus {
    pub model_menu_open: bool,
    pub permission_menu_open: bool,
}

impl Menus {
    /// At most one menu is open.
    pub open spec fn wf(self) -> bool {
        !(self.model_menu_open && self.permission_menu_open)
    }

    pub fn new() -> (menus: Menus)
        ensures
            menus.wf(),
            !menus.model_menu_open,
            !menus.permission_menu_open,
    {
        Menus { model_menu_open: false, permission_menu_open: false }
    }

    /// The permission button was clicked.
    pub fn toggle_permission_menu(&mut self)
        ensures
            final(self).permission_menu_open == !old(self).permission_menu_open,
            !final(self).model_menu_open,
            final(self).wf(),
    {
        self.permission_menu_open = !self.permission_menu_open;
        self.model_menu_open = false;
    }

    /// The model button was clicked.
    pub fn toggle_model_menu(&mut self)
        ensures
            final(self).model_menu_open == !old(self).model_menu_open,
            !final(self).permission_menu_open,
            final(self).wf(),
    {
        self.model_menu_open = !self.model_menu_open;
        self.permission_menu_open = false;
    }

    /// Something beside the menus was clicked.
    pub fn close(&mut self)
        ensures
            !final(self).model_menu_open,
            !final(self).permission_menu_open,
            final(self).wf(),
    {
        self.model_menu_open = false;
        self.permission_menu_open = false;
    }

    /// A permission mode was picked.
    pub fn permission_picked(&mut self)
        ensures
            !final(self).permission_menu_open,
            final(self).model_menu_open == old(self).model_menu_open,
            final(self).wf(),
    {
        self.permission_menu_open = false;
    }

    /// A model was picked.
    pub fn model_picked(&mut self)
        ensures
            !final(self).model_menu_open,
            final(self).permission_menu_open == old(self).permission_menu_open,
            final(self).wf(),
    {
        self.model_menu_open = false;
    }

    pub fn overlay(&self) -> (overlay: MenuOverlay)
        ensures
            overlay == if self.permission_menu_open {
                MenuOverlay::Permission
            } else if self.model_menu_open {
                MenuOverlay::Model
            } else {
                MenuOverlay::Absent
            },
    {
        if self.permission_menu_open {
            MenuOverlay::Permission
        } else if self.model_menu_open {
            MenuOverlay::Model
        } else {
            MenuOverlay::Absent
        }
    }
}

// -- selected text ------------------------------------------------------------------------

/// A selected range of one block of text.
pub struct TextSelection {
    /// Which block the selection belongs to: a block only draws a range whose key is its
    /// own.
    pub key: u64,
    pub range: Range<usize>,
    pub text: String,
}

pub struct SelectionView {
    pub key: u64,
    pub range: Range<usize>,
    pub text: Seq<char>,
}

impl View for TextSelection {
    type V = SelectionView;

    open spec fn view(&self) -> SelectionView {
        SelectionView { key: self.key, range: self.range, text: self.text@ }
    }
}

/// The one selection across every block of the transcript, and the menu opened for it.
pub struct SelectionHost {
    pub selection: Option<TextSelection>,
    /// The text the open menu is for: the selection may have moved on since.
    pub menu: Option<String>,
}

pub struct HostView {
    pub selection: Option<SelectionView>,
    pub menu: Option<Seq<char>>,
}

impl View for SelectionHost {
    type V = HostView;

    open spec fn view(&self) -> HostView {
        HostView {
            selection: match self.selection {
                Some(selection) => Some(selection@),
                None => None,
            },
            menu: maybe_text(self.menu),
        }
    }
}

/// The selected text in front of what was typed so far: a rule above it, so that the next
/// prompt opens with what the agent is asked to look at.
pub open spec fn quoted_draft(text: Seq<char>, draft: Seq<char>) -> Seq<char> {
    let quoted = "----\n"@ + text + "\n"@;
    if trimmed(draft).len() == 0 {
        quoted
    } else {
        quoted + draft
    }
}

impl SelectionHost {
    pub fn new() -> (host: SelectionHost)
        ensures
            host@ == (HostView { selection: None, menu: None }),
    {
        SelectionHost { selection: None, menu: None }
    }

    /// The range to draw in the block with this key.
    pub fn range_in(&self, key: u64) -> (range: Option<Range<usize>>)
        ensures
            range == match self@.selection {
                Some(selection) => if selection.key == key {
                    Some(selection.range)
                } else {
                    None
                },
                None => None,
            },
    {
        match &self.selection {
            Some(selection) => if selection.key == key {
                Some(selection.range.start..selection.range.end)
            } else {
                None
            },
            None => None,
        }
    }

    /// Replace the selection; a menu that was open for the old one closes.
    pub fn set_selection(&mut self, key: u64, range: Range<usize>, text: String)
        ensures
            final(self)@ == (HostView {
                selection: Some(SelectionView { key, range, text: text@ }),
                menu: None,
            }),
    {
        self.selection = Some(TextSelection { key, range, text });
        self.menu = None;
    }

    /// The left button went down outside the block. That clears the selection, except on
    /// the open menu, whose items have yet to act on it.
    pub fn press_outside(&mut self, on_menu: bool)
        ensures
            final(self)@ == if on_menu && old(self)@.menu is Some {
                old(self)@
            } else {
                HostView { selection: None, menu: None }
            },
    {
        if on_menu && self.menu.is_some() {
            return;
        }
        self.selection = None;
        self.menu = None;
    }

    /// The right button went down on the block with this key: open the menu, if something
    /// in the block is selected.
    pub fn open_context_menu(&mut self, key: u64) -> (opened: bool)
        ensures
            match old(self)@.selection {
                Some(selection) => if selection.key == key && selection.text.len() > 0 {
                    opened && final(self)@ == (HostView {
                        menu: Some(selection.text),
                        ..old(self)@
                    })
                } else {
                    !opened && final(self)@ == old(self)@
                },
                None => !opened && final(self)@ == old(self)@,
            },
    {
        let text: Option<String> = match &self.selection {
            Some(selection) => if selection.key == key && !selection.text.as_str().is_empty() {
                Some(selection.text.clone())
            } else {
                None
            },
            None => None,
        };
        match text {
            Some(text) => {
                self.menu = Some(text);
                true
            },
            None => false,
        }
    }

    /// What goes on the clipboard when the selection is copied.
    pub fn copy_text_selection(&self) -> (copied: Option<String>)
        ensures
            maybe_text(copied) == match self@.selection {
                Some(selection) => if selection.text.len() > 0 {
                    Some(selection.text)
                } else {
                    None
                },
                None => None,
            },
    {
        match &self.selection {
            Some(selection) => if selection.text.as_str().is_empty() {
                None
            } else {
                Some(selection.text.clone())
            },
            None => None,
        }
    }

    /// What goes on the clipboard when the menu's copy is clicked, which closes the menu.
    pub fn copy_from_menu(&mut self) -> (copied: Option<String>)
        ensures
            final(self)@ == (HostView { menu: None, ..old(self)@ }),
            maybe_text(copied) == match old(self)@.menu {
                Some(text) => if text.len() > 0 {
                    Some(text)
                } else {
                    None
                },
                None => None,
            },
    {
        let text: Option<String> = copy_text(&self.menu);
        self.menu = None;
        match text {
            Some(text) => if text.as_str().is_empty() {
                None
            } else {
                Some(text)
            },
            None => None,
        }
    }

    /// Quote the selected text into the composer, which gives the new text of the composer.
    /// The selection is gone afterwards.
    pub fn quote_text_selection(&mut self, draft: &str) -> (combined: Option<String>)
        ensures
            match old(self)@.selection {
                Some(selection) => if selection.text.len() > 0 {
                    &&& final(self)@ == (HostView { selection: None, menu: None })
                    &&& maybe_text(combined) == Some(quoted_draft(selection.text, draft@))
                } else {
                    &&& final(self)@ == (HostView { selection: None, ..old(self)@ })
                    &&& combined is None
                },
                None => final(self)@ == old(self)@ && combined is None,
            },
    {
        let mut taken: Option<TextSelection> = None;
        core::mem::swap(&mut self.selection, &mut taken);
        match taken {
            Some(selection) => {
                if selection.text.as_str().is_empty() {
                    return None;
                }
                self.menu = None;
                let quoted: String = join3("----\n", selection.text.as_str(), "\n");
                if trim(draft).as_str().is_empty() {
                    Some(quoted)
                } else {
                    Some(join(quoted.as_str(), draft))
                }
            },
            None => None,
        }
    }
}

// -- the scrollbar ------------------------------------------------------------------------

/// Whether the overlay scrollbar shows.
#[derive(Clone, Copy, Debug, PartialEq, Eq, Structural)]
pub struct Scrollbar {
    pub hovered: bool,
    pub dragging: bool,
    /// What the fade is heading for.
    pub shown: bool,
    /// Which fade is running: an older one stops.
    pub fade: u64,
}

impl Scrollbar {
    pub fn new() -> (scrollbar: Scrollbar)
        ensures
            scrollbar == (Scrollbar { hovered: false, dragging: false, shown: false, fade: 0 }),
    {
        Scrollbar { hovered: false, dragging: false, shown: false, fade: 0 }
    }

    /// The scrollbar is shown under the pointer and while it is dragged, if there is
    /// anything to scroll. Says whether a fade has to start.
    pub fn refresh_scrollbar_target(&mut self, scrollable: bool) -> (starts: bool)
        ensures
            ({
                let shown = (old(self).hovered || old(self).dragging) && scrollable;
                &&& starts == (shown != old(self).shown)
                &&& *final(self) == (Scrollbar {
                    shown,
                    fade: if starts {
                        wrapped_sum(old(self).fade, 1)
                    } else {
                        old(self).fade
                    },
                    ..*old(self)
                })
            }),
    {
        let shown: bool = (self.hovered || self.dragging) && scrollable;
        if shown == self.shown {
            return false;
        }
        self.shown = shown;
        self.fade = sum(self.fade, 1);
        true
    }

    /// Whether a fade that began as number `fade` is still the one running.
    pub fn is_running(&self, fade: u64) -> (running: bool)
        ensures
            running == (fade == self.fade),
    {
        fade == self.fade
    }
}

// -- the view -------------------------------------------------------------------------------

/// What the transcript remembers between frames. `B` is what a message is parsed to.
pub struct ChatView<B> {
    pub list: TranscriptList,
    pub memo: MarkdownMemo<B>,
    /// The messages whose tool calls are shown in full.
    pub expanded_messages: TextSet,
    pub hover: CopyHover,
    pub menus: Menus,
    pub selection: SelectionHost,
    pub scrollbar: Scrollbar,
    /// The composer takes the focus once, on the first frame.
    pub needs_initial_focus: bool,
}

impl<B> ChatView<B> {
    pub open spec fn wf(&self) -> bool {
        &&& self.memo.wf()
        &&& self.expanded_messages.wf()
        &&& self.menus.wf()
    }

    pub fn new() -> (view: ChatView<B>)
        ensures
            view.wf(),
            view.list@ == ListView::fresh(),
            view.memo.entries@ == Map::<Seq<char>, (String, B)>::empty(),
            view.expanded_messages@ == Set::<Seq<char>>::empty(),
            view.hover@ == (HoverView { hovered: None, hide_pending: false, copied: None }),
            !view.menus.model_menu_open,
            !view.menus.permission_menu_open,
            view.selection@ == (HostView { selection: None, menu: None }),
            view.scrollbar == (Scrollbar {
                hovered: false,
                dragging: false,
                shown: false,
                fade: 0,
            }),
            view.needs_initial_focus,
    {
        ChatView {
            list: TranscriptList::new(),
            memo: MarkdownMemo::new(),
            expanded_messages: TextSet::new(),
            hover: CopyHover::new(),
            menus: Menus::new(),
            selection: SelectionHost::new(),
            scrollbar: Scrollbar::new(),
            needs_initial_focus: true,
        }
    }

    /// Bring the list in step with the messages of the session on screen. What was parsed
    /// of another session's messages is forgotten.
    pub fn sync_list_state(
        &mut self,
        identity: Option<&str>,
        messages: &Vec<ChatMessage>,
        asking: bool,
    ) -> (sync: ListSync)
        requires
            old(self).wf(),
        ensures
            final(self).wf(),
            sync == old(self).list@.sync_with(
                maybe_str(identity),
                messages_view(messages@),
                asking,
            ),
            final(self).list@ == ListView::in_step(
                maybe_str(identity),
                messages_view(messages@),
                asking,
            ),
            final(self).memo.entries@ == if sync.other_session {
                Map::<Seq<char>, (String, B)>::empty()
            } else {
                old(self).memo.entries@
            },
            final(self).expanded_messages == old(self).expanded_messages,
            final(self).hover == old(self).hover,
            final(self).menus == old(self).menus,
            final(self).selection == old(self).selection,
            final(self).scrollbar == old(self).scrollbar,
            final(self).needs_initial_focus == old(self).needs_initial_focus,
    {
        let sync: ListSync = self.list.sync_list_state(identity, messages, asking);
        if sync.other_session {
            self.memo.forget();
        }
        sync
    }

    /// Show or hide the tool calls of a message.
    pub fn toggle_expanded(&mut self, id: &str)
        requires
            old(self).wf(),
        ensures
            final(self).wf(),
            final(self).expanded_messages@ == toggled(old(self).expanded_messages@, id@),
            final(self).list == old(self).list,
            final(self).memo == old(self).memo,
            final(self).hover == old(self).hover,
            final(self).menus == old(self).menus,
            final(self).selection == old(self).selection,
            final(self).scrollbar == old(self).scrollbar,
            final(self).needs_initial_focus == old(self).needs_initial_focus,
    {
        if self.expanded_messages.contains(id) {
            self.expanded_messages.remove(id);
        } else {
            self.expanded_messages.insert(id.to_owned());
        }
    }
}

/// The messages shown in full after one of them was folded or unfolded.
pub open spec fn toggled(expanded: Set<Seq<char>>, id: Seq<char>) -> Set<Seq<char>> {
    if expanded.contains(id) {
        expanded.remove(id)
    } else {
        expanded.insert(id)
    }
}

/// Folding and unfolding undo each other.
pub proof fn toggling_twice_changes_nothing(expanded: Set<Seq<char>>, id: Seq<char>)
    ensures
        toggled(toggled(expanded, id), id) == expanded,
{
    assert(toggled(toggled(expanded, id), id) =~= expanded);
}

} // verus!
