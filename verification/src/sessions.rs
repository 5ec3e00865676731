//! Which sessions and messages are shown, and what the cache keeps of them.

use crate::keyed::TextSet;
use crate::models::{
    sessions_view, AgentSession, ChatMessage, MessageRole, MessageView, SessionView, Stamp,
};
use crate::models::messages_view;
use crate::words::{
    begins_with, decimal, join, join3, maybe_text, number_text, same_text, starts_with, trim_start,
    trimmed_start,
};
use vstd::prelude::*;

verus! {

// -- the cache -------------------------------------------------------------------

/// What the cache knows besides the transcripts themselves.
pub struct CachedState {
    pub sessions: Vec<AgentSession>,
    /// The keys that transcripts are filed under.
    pub transcripts: TextSet,
    pub archived: TextSet,
    pub deleted: TextSet,
    pub selected_session_id: Option<String>,
    pub updated_at: Option<Stamp>,
}

pub struct CacheView {
    pub sessions: Seq<SessionView>,
    pub transcripts: Set<Seq<char>>,
    pub archived: Set<Seq<char>>,
    pub deleted: Set<Seq<char>>,
    pub selected_session_id: Option<Seq<char>>,
    pub updated_at: Option<Stamp>,
}

impl View for CachedState {
    type V = CacheView;

    open spec fn view(&self) -> CacheView {
        CacheView {
            sessions: sessions_view(self.sessions@),
            transcripts: self.transcripts@,
            archived: self.archived@,
            deleted: self.deleted@,
            selected_session_id: maybe_text(self.selected_session_id),
            updated_at: self.updated_at,
        }
    }
}

/// The key under which a backend's session is cached.
pub open spec fn key_of(backend_id: Seq<char>, session_id: Seq<char>) -> Seq<char> {
    backend_id + "::"@ + session_id
}

/// The backend that a session belongs to. Sessions from before backends were told apart
/// are Hermes's.
pub open spec fn owner_of(session: SessionView) -> Seq<char> {
    match session.backend_id {
        Some(id) => id,
        None => "hermes"@,
    }
}

impl CacheView {
    pub open spec fn empty() -> CacheView {
        CacheView {
            sessions: seq![],
            transcripts: Set::empty(),
            archived: Set::empty(),
            deleted: Set::empty(),
            selected_session_id: None,
            updated_at: None,
        }
    }

    /// Whether a session is shown for a backend: it is the backend's own, and neither
    /// archived nor deleted.
    pub open spec fn shows(self, session: SessionView, backend_id: Seq<char>) -> bool {
        let key = key_of(backend_id, session.id);
        &&& owner_of(session) == backend_id
        &&& session.archived != Some(true)
        &&& !self.archived.contains(key)
        &&& !self.deleted.contains(key)
    }

    /// The sessions among `sessions` that are shown for a backend.
    pub open spec fn visible(self, sessions: Seq<SessionView>, backend_id: Seq<char>) -> Seq<
        SessionView,
    > {
        sessions.filter(|session: SessionView| self.shows(session, backend_id))
    }

    /// The cache with a backend's sessions replaced by `sessions`.
    pub open spec fn synced(
        self,
        sessions: Seq<SessionView>,
        backend_id: Seq<char>,
        now: Stamp,
    ) -> CacheView {
        CacheView {
            sessions: self.sessions.filter(
                |session: SessionView| owner_of(session) != backend_id,
            ) + sessions,
            updated_at: Some(now),
            ..self
        }
    }

    /// The cache with a session kept out of the list: archived, or deleted.
    pub open spec fn hiding(self, key: Seq<char>, deleted: bool) -> CacheView {
        if deleted {
            CacheView { deleted: self.deleted.insert(key), ..self }
        } else {
            CacheView { archived: self.archived.insert(key), ..self }
        }
    }

    /// How much is cached, in words.
    #[verifier::opaque]
    pub open spec fn summary(self) -> Seq<char> {
        decimal(self.sessions.len()) + " cached session(s), "@ + decimal(self.transcripts.len())
            + " cached transcript(s)"@
    }
}

/// The key under which a backend's session is cached.
pub fn session_key(backend_id: &str, session_id: &str) -> (key: String)
    ensures
        key@ == key_of(backend_id@, session_id@),
{
    join3(backend_id, "::", session_id)
}

pub fn cache_key(session: &AgentSession, backend_id: &str) -> (key: String)
    ensures
        key@ == key_of(backend_id@, session@.id),
{
    session_key(backend_id, session.id.as_str())
}

/// Whether a session belongs to a backend.
fn belongs_to(session: &AgentSession, backend_id: &str) -> (belongs: bool)
    ensures
        belongs == (owner_of(session@) == backend_id@),
{
    match &session.backend_id {
        Some(id) => same_text(id.as_str(), backend_id),
        None => same_text("hermes", backend_id),
    }
}

impl CachedState {
    #[verifier::opaque]
    pub open spec fn wf(&self) -> bool {
        &&& self.transcripts.wf()
        &&& self.archived.wf()
        &&& self.deleted.wf()
    }

    pub fn new() -> (cache: CachedState)
        ensures
            cache@ == CacheView::empty(),
            cache.wf(),
    {
        proof {
            reveal(CachedState::wf);
        }
        let cache = CachedState {
            sessions: Vec::new(),
            transcripts: TextSet::new(),
            archived: TextSet::new(),
            deleted: TextSet::new(),
            selected_session_id: None,
            updated_at: None,
        };
        assert(cache@.sessions =~= seq![]);
        cache
    }

    /// Whether a session is shown for a backend.
    pub fn shows(&self, session: &AgentSession, backend_id: &str) -> (shows: bool)
        ensures
            shows == self@.shows(session@, backend_id@),
    {
        let archived: bool = match session.archived {
            Some(archived) => archived,
            None => false,
        };
        if archived || !belongs_to(session, backend_id) {
            return false;
        }
        let key: String = cache_key(session, backend_id);
        !self.archived.contains(key.as_str()) && !self.deleted.contains(key.as_str())
    }

    /// The sessions among `sessions` that are shown for a backend, in order.
    pub fn filter_visible(&self, sessions: Vec<AgentSession>, backend_id: &str) -> (visible: Vec<
        AgentSession,
    >)
        ensures
            sessions_view(visible@) == self@.visible(sessions_view(sessions@), backend_id@),
    {
        let ghost all = sessions@;
        let ghost shown = |session: SessionView| self@.shows(session, backend_id@);
        let mut visible: Vec<AgentSession> = Vec::new();
        proof {
            reveal(Seq::filter);
            assert(sessions_view(all).take(0) =~= Seq::<SessionView>::empty());
            assert(sessions_view(visible@) =~= Seq::<SessionView>::empty());
        }
        for session in iter: sessions
            invariant
                iter.seq() == all,
                shown == (|session: SessionView| self@.shows(session, backend_id@)),
                sessions_view(visible@) == sessions_view(all).take(iter.index()).filter(shown),
        {
            let ghost before = visible@;
            let ghost index = iter.index();
            let ghost this = session@;
            if self.shows(&session, backend_id) {
                visible.push(session);
                assert(sessions_view(visible@) =~= sessions_view(before).push(this));
            }
            proof {
                reveal(Seq::filter);
                let longer = sessions_view(all).take(index + 1);
                assert(longer.drop_last() =~= sessions_view(all).take(index));
                assert(longer.last() == this);
            }
        }
        assert(sessions_view(all).take(all.len() as int) =~= sessions_view(all));
        visible
    }

    /// The cached sessions that are shown for a backend, in order.
    pub fn visible_sessions(&self, backend_id: &str) -> (visible: Vec<AgentSession>)
        ensures
            sessions_view(visible@) == self@.visible(self@.sessions, backend_id@),
    {
        self.filter_visible(copy_sessions(&self.sessions), backend_id)
    }

    /// Remember which session is on screen.
    pub fn select(&mut self, key: String)
        requires
            old(self).wf(),
        ensures
            final(self)@ == (CacheView { selected_session_id: Some(key@), ..old(self)@ }),
            final(self).wf(),
            final(self)@.summary() == old(self)@.summary(),
    {
        proof {
            reveal(CachedState::wf);
            reveal(CacheView::summary);
        }
        self.selected_session_id = Some(key);
    }

    /// Note when the cache was last changed.
    pub fn stamp(&mut self, now: Stamp)
        requires
            old(self).wf(),
        ensures
            final(self)@ == (CacheView { updated_at: Some(now), ..old(self)@ }),
            final(self).wf(),
            final(self)@.summary() == old(self)@.summary(),
    {
        proof {
            reveal(CachedState::wf);
            reveal(CacheView::summary);
        }
        self.updated_at = Some(now);
    }

    /// Note that a transcript is filed under `key`.
    pub fn add_transcript(&mut self, key: String)
        requires
            old(self).wf(),
        ensures
            final(self)@ == (CacheView {
                transcripts: old(self)@.transcripts.insert(key@),
                ..old(self)@
            }),
            final(self).wf(),
    {
        proof {
            reveal(CachedState::wf);
        }
        self.transcripts.insert(key);
    }

    /// Note that no transcript is filed under `key` any more.
    pub fn remove_transcript(&mut self, key: &str)
        requires
            old(self).wf(),
        ensures
            final(self)@ == (CacheView {
                transcripts: old(self)@.transcripts.remove(key@),
                ..old(self)@
            }),
            final(self).wf(),
    {
        proof {
            reveal(CachedState::wf);
        }
        self.transcripts.remove(key);
    }

    /// Keep a session out of the list: archived, or deleted.
    pub fn hide_session(&mut self, key: String, deleted: bool)
        requires
            old(self).wf(),
        ensures
            final(self)@ == old(self)@.hiding(key@, deleted),
            final(self).wf(),
            final(self)@.summary() == old(self)@.summary(),
    {
        proof {
            reveal(CachedState::wf);
            reveal(CacheView::summary);
        }
        if deleted {
            self.deleted.insert(key);
        } else {
            self.archived.insert(key);
        }
    }

    /// Replace a backend's sessions by those that are listed now.
    pub fn sync_sessions(&mut self, sessions: &Vec<AgentSession>, backend_id: &str, now: Stamp)
        requires
            old(self).wf(),
        ensures
            final(self)@ == old(self)@.synced(sessions_view(sessions@), backend_id@, now),
            final(self).wf(),
    {
        let ghost all = self.sessions@;
        let ghost others = |session: SessionView| owner_of(session) != backend_id@;
        let mut kept: Vec<AgentSession> = Vec::new();
        let mut index: usize = 0;
        proof {
            reveal(CachedState::wf);
            reveal(Seq::filter);
            assert(sessions_view(all).take(0) =~= Seq::<SessionView>::empty());
            assert(sessions_view(kept@) =~= Seq::<SessionView>::empty());
        }
        while index < self.sessions.len()
            invariant
                *self == *old(self),
                all == self.sessions@,
                index <= all.len(),
                others == (|session: SessionView| owner_of(session) != backend_id@),
                sessions_view(kept@) == sessions_view(all).take(index as int).filter(others),
            decreases all.len() - index,
        {
            let ghost before = kept@;
            if !belongs_to(&self.sessions[index], backend_id) {
                kept.push(self.sessions[index].clone());
                assert(sessions_view(kept@) =~= sessions_view(before).push(all[index as int]@));
            }
            proof {
                reveal(Seq::filter);
                let longer = sessions_view(all).take(index + 1);
                assert(longer.drop_last() =~= sessions_view(all).take(index as int));
                assert(longer.last() == all[index as int]@);
            }
            index += 1;
        }
        proof {
            assert(sessions_view(all).take(all.len() as int) =~= sessions_view(all));
        }
        let ghost first = kept@;
        let mut current: Vec<AgentSession> = copy_sessions(sessions);
        let ghost second = current@;
        kept.append(&mut current);
        assert(sessions_view(kept@) =~= sessions_view(first) + sessions_view(second));
        self.sessions = kept;
        self.updated_at = Some(now);
    }

    /// How much is cached, in words.
    pub fn summary(&self) -> (summary: String)
        requires
            self.wf(),
        ensures
            summary@ == self@.summary(),
    {
        proof {
            reveal(CachedState::wf);
            reveal(CacheView::summary);
        }
        let sessions: String = number_text(self.sessions.len() as u64);
        let transcripts: String = number_text(self.transcripts.len() as u64);
        let counted: String = join3(
            sessions.as_str(),
            " cached session(s), ",
            transcripts.as_str(),
        );
        join(counted.as_str(), " cached transcript(s)")
    }
}

/// A copy of a list of sessions.
pub fn copy_sessions(sessions: &Vec<AgentSession>) -> (copy: Vec<AgentSession>)
    ensures
        sessions_view(copy@) == sessions_view(sessions@),
{
    let mut copy: Vec<AgentSession> = Vec::new();
    let mut index: usize = 0;
    while index < sessions.len()
        invariant
            index <= sessions@.len(),
            copy@.len() == index,
            forall|i: int| 0 <= i < index ==> (#[trigger] copy@[i])@ == sessions@[i]@,
        decreases sessions@.len() - index,
    {
        copy.push(sessions[index].clone());
        index += 1;
    }
    assert(sessions_view(copy@) =~= sessions_view(sessions@));
    copy
}

/// The first session under `id`.
pub open spec fn session_under(sessions: Seq<SessionView>, id: Seq<char>) -> Option<SessionView>
    decreases sessions.len(),
{
    if sessions.len() == 0 {
        None
    } else if sessions[0].id == id {
        Some(sessions[0])
    } else {
        session_under(sessions.drop_first(), id)
    }
}

/// The first session under `id`.
pub fn find_session<'a>(sessions: &'a Vec<AgentSession>, id: &str) -> (found: Option<
    &'a AgentSession,
>)
    ensures
        session_under(sessions_view(sessions@), id@) == (match found {
            Some(session) => Some(session@),
            None => None,
        }),
{
    let mut index: usize = 0;
    let ghost all = sessions_view(sessions@);
    proof {
        assert(all.skip(0) =~= all);
    }
    while index < sessions.len()
        invariant
            all == sessions_view(sessions@),
            index <= sessions@.len(),
            session_under(all, id@) == session_under(all.skip(index as int), id@),
        decreases sessions@.len() - index,
    {
        assert(all.skip(index as int)[0] == sessions@[index as int]@);
        if same_text(sessions[index].id.as_str(), id) {
            return Some(&sessions[index]);
        }
        proof {
            assert(all.skip(index as int).drop_first() =~= all.skip(index + 1));
        }
        index += 1;
    }
    None
}

/// The sessions without those under `id`.
pub open spec fn without_session(sessions: Seq<SessionView>, id: Seq<char>) -> Seq<SessionView> {
    sessions.filter(|session: SessionView| session.id != id)
}

/// Take the sessions under `id` out of a list.
pub fn remove_session(sessions: &Vec<AgentSession>, id: &str) -> (kept: Vec<AgentSession>)
    ensures
        sessions_view(kept@) == without_session(sessions_view(sessions@), id@),
{
    let ghost all = sessions@;
    let ghost others = |session: SessionView| session.id != id@;
    let mut kept: Vec<AgentSession> = Vec::new();
    let mut index: usize = 0;
    proof {
        reveal(Seq::filter);
        assert(sessions_view(all).take(0) =~= Seq::<SessionView>::empty());
        assert(sessions_view(kept@) =~= Seq::<SessionView>::empty());
    }
    while index < sessions.len()
        invariant
            all == sessions@,
            index <= all.len(),
            others == (|session: SessionView| session.id != id@),
            sessions_view(kept@) == sessions_view(all).take(index as int).filter(others),
        decreases all.len() - index,
    {
        let ghost before = kept@;
        if !same_text(sessions[index].id.as_str(), id) {
            kept.push(sessions[index].clone());
            assert(sessions_view(kept@) =~= sessions_view(before).push(all[index as int]@));
        }
        proof {
            reveal(Seq::filter);
            let longer = sessions_view(all).take(index + 1);
            assert(longer.drop_last() =~= sessions_view(all).take(index as int));
            assert(longer.last() == all[index as int]@);
        }
        index += 1;
    }
    assert(sessions_view(all).take(all.len() as int) =~= sessions_view(all));
    kept
}

// -- messages ----------------------------------------------------------------------

/// Whether a message's text is the raw answer of a tool.
pub open spec fn is_tool_payload(content: Seq<char>) -> bool {
    let visible = trimmed_start(content);
    ||| begins_with(visible, "{\"output\":"@)
    ||| begins_with(visible, "{\"error\":"@)
    ||| begins_with(visible, "{\"exit_code\":"@)
}

pub fn looks_like_tool_payload(content: &str) -> (payload: bool)
    ensures
        payload == is_tool_payload(content@),
{
    let visible: String = trim_start(content);
    starts_with(visible.as_str(), "{\"output\":") || starts_with(visible.as_str(), "{\"error\":")
        || starts_with(visible.as_str(), "{\"exit_code\":")
}

/// When the last thing in a message happened.
pub open spec fn last_stamp(message: MessageView) -> Stamp {
    if message.tool_calls.len() > 0 {
        message.tool_calls.last().timestamp
    } else {
        message.timestamp
    }
}

/// A message with a stream that will never end stopped.
pub open spec fn settled(message: MessageView) -> MessageView {
    if message.is_streaming && message.stalled {
        MessageView {
            is_streaming: false,
            completed_at: Some(last_stamp(message)),
            empty_shell: message.empty_when_stopped,
            ..message
        }
    } else {
        message
    }
}

/// A message that has ended, with the time at which it did.
pub open spec fn dated(message: MessageView) -> MessageView {
    if !message.is_streaming && message.completed_at is None && (message.tool_calls.len() > 0
        || message.content.len() == 0) {
        MessageView { completed_at: Some(last_stamp(message)), ..message }
    } else {
        message
    }
}

/// How a fetched message is shown: not at all where it is a tool's, or has nothing to
/// draw.
pub open spec fn shown(message: MessageView) -> Option<MessageView> {
    if message.role == MessageRole::Tool || is_tool_payload(message.content)
        || settled(message).empty_shell {
        None
    } else {
        Some(dated(settled(message)))
    }
}

/// The messages that are shown of a transcript.
pub open spec fn visible_of(messages: Seq<MessageView>) -> Seq<MessageView> {
    messages.filter_map(|message: MessageView| shown(message))
}

fn stamp_of(message: &ChatMessage) -> (stamp: Stamp)
    ensures
        stamp == last_stamp(message@),
{
    let count: usize = message.tool_calls.len();
    if count > 0 {
        message.tool_calls[count - 1].timestamp
    } else {
        message.timestamp
    }
}

/// How a fetched message is shown.
pub fn show_message(message: &ChatMessage) -> (cleaned: Option<ChatMessage>)
    ensures
        match cleaned {
            Some(cleaned) => shown(message@) == Some(cleaned@),
            None => shown(message@) is None,
        },
{
    if message.role == MessageRole::Tool || looks_like_tool_payload(message.content.as_str()) {
        return None;
    }
    let mut cleaned: ChatMessage = message.clone();
    if cleaned.is_streaming && cleaned.stalled {
        cleaned.is_streaming = false;
        cleaned.completed_at = Some(stamp_of(message));
        cleaned.empty_shell = cleaned.empty_when_stopped;
    }
    assert(cleaned@ == settled(message@));
    if cleaned.empty_shell {
        return None;
    }
    if !cleaned.is_streaming && cleaned.completed_at.is_none() && (cleaned.tool_calls.len() > 0
        || cleaned.content.as_str().is_empty()) {
        cleaned.completed_at = Some(stamp_of(message));
    }
    Some(cleaned)
}

/// The messages that are shown of a transcript.
pub fn visible_messages(messages: &Vec<ChatMessage>) -> (visible: Vec<ChatMessage>)
    ensures
        messages_view(visible@) == visible_of(messages_view(messages@)),
{
    let ghost all = messages_view(messages@);
    let ghost how = |message: MessageView| shown(message);
    let mut visible: Vec<ChatMessage> = Vec::new();
    let mut index: usize = 0;
    proof {
        assert(all.take(0) =~= Seq::<MessageView>::empty());
        assert(messages_view(visible@) =~= Seq::<MessageView>::empty());
    }
    while index < messages.len()
        invariant
            all == messages_view(messages@),
            how == (|message: MessageView| shown(message)),
            index <= messages@.len(),
            messages_view(visible@) == all.take(index as int).filter_map(how),
        decreases messages@.len() - index,
    {
        let ghost before = visible@;
        if let Some(cleaned) = show_message(&messages[index]) {
            visible.push(cleaned);
            assert(messages_view(visible@) =~= messages_view(before) + seq![cleaned@]);
        }
        proof {
            let longer = all.take(index + 1);
            assert(longer.drop_last() =~= all.take(index as int));
            assert(longer.last() == messages@[index as int]@);
        }
        index += 1;
    }
    assert(all.take(all.len() as int) =~= all);
    visible
}

// -- laws ----------------------------------------------------------------------------

/// A session that was archived or deleted is not shown again, whatever the backend
/// lists.
pub proof fn a_removed_session_stays_away(
    cache: CacheView,
    session: SessionView,
    backend_id: Seq<char>,
)
    ensures
        !(CacheView {
            archived: cache.archived.insert(key_of(backend_id, session.id)),
            ..cache
        }).shows(session, backend_id),
        !(CacheView {
            deleted: cache.deleted.insert(key_of(backend_id, session.id)),
            ..cache
        }).shows(session, backend_id),
{
}

/// Only a backend's own sessions are shown for it.
pub proof fn sessions_of_other_backends_are_not_shown(
    cache: CacheView,
    sessions: Seq<SessionView>,
    backend_id: Seq<char>,
    index: int,
)
    requires
        0 <= index < cache.visible(sessions, backend_id).len(),
    ensures
        owner_of(cache.visible(sessions, backend_id)[index]) == backend_id,
        sessions.contains(cache.visible(sessions, backend_id)[index]),
{
    let shown = |session: SessionView| cache.shows(session, backend_id);
    sessions.lemma_filter_pred(shown, index);
    let one = cache.visible(sessions, backend_id)[index];
    assert(sessions.filter(shown).contains(one));
    sessions.lemma_filter_contains_rev(shown, one);
}

/// What is synced for one backend leaves the cached sessions of the others alone.
pub proof fn syncing_keeps_other_backends(
    cache: CacheView,
    sessions: Seq<SessionView>,
    backend_id: Seq<char>,
    now: Stamp,
    other: SessionView,
)
    requires
        cache.sessions.contains(other),
        owner_of(other) != backend_id,
    ensures
        cache.synced(sessions, backend_id, now).sessions.contains(other),
{
    let others = |session: SessionView| owner_of(session) != backend_id;
    let i = choose|i: int| 0 <= i < cache.sessions.len() && cache.sessions[i] == other;
    cache.sessions.lemma_filter_contains(others, i);
    let kept = cache.sessions.filter(others);
    let j = choose|j: int| 0 <= j < kept.len() && kept[j] == other;
    assert((kept + sessions)[j] == other);
}

/// Nothing that is shown is still streaming although it stalled, and what is shown has
/// something to draw.
pub proof fn shown_messages_are_settled(message: MessageView)
    ensures
        shown(message) matches Some(cleaned) ==> !cleaned.empty_shell && cleaned.role
            != MessageRole::Tool && !(cleaned.is_streaming && cleaned.stalled) && cleaned.content
            == message.content && cleaned.id == message.id,
{
}

} // verus!
