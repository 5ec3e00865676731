//! The data that the client keeps: backends, sessions, messages and settings.

use crate::words::{copy_text, maybe_text};
use vstd::prelude::*;

verus! {

/// The agents that the client can drive.
#[derive(Clone, Copy, Debug, PartialEq, Eq, Structural)]
pub enum BackendKind {
    Hermes,
    OpenCode,
    MiMoCode,
    Codex,
    ClaudeCode,
    Pi,
    OpenClaw,
}

impl BackendKind {
    /// The name a backend goes by in settings and cache keys.
    pub open spec fn id_of(self) -> Seq<char> {
        match self {
            BackendKind::Hermes => "hermes"@,
            BackendKind::OpenCode => "opencode"@,
            BackendKind::MiMoCode => "mimocode"@,
            BackendKind::Codex => "codex"@,
            BackendKind::ClaudeCode => "claudecode"@,
            BackendKind::Pi => "pi"@,
            BackendKind::OpenClaw => "openclaw"@,
        }
    }

    /// The name a backend is shown under.
    pub open spec fn name_of(self) -> Seq<char> {
        match self {
            BackendKind::Hermes => "Hermes"@,
            BackendKind::OpenCode => "OpenCode"@,
            BackendKind::MiMoCode => "MiMoCode"@,
            BackendKind::Codex => "Codex CLI"@,
            BackendKind::ClaudeCode => "ClaudeCode"@,
            BackendKind::Pi => "Pi"@,
            BackendKind::OpenClaw => "OpenClaw"@,
        }
    }

    pub fn id(self) -> (id: &'static str)
        ensures
            id@ == self.id_of(),
    {
        match self {
            BackendKind::Hermes => "hermes",
            BackendKind::OpenCode => "opencode",
            BackendKind::MiMoCode => "mimocode",
            BackendKind::Codex => "codex",
            BackendKind::ClaudeCode => "claudecode",
            BackendKind::Pi => "pi",
            BackendKind::OpenClaw => "openclaw",
        }
    }

    pub fn name(self) -> (name: &'static str)
        ensures
            name@ == self.name_of(),
    {
        match self {
            BackendKind::Hermes => "Hermes",
            BackendKind::OpenCode => "OpenCode",
            BackendKind::MiMoCode => "MiMoCode",
            BackendKind::Codex => "Codex CLI",
            BackendKind::ClaudeCode => "ClaudeCode",
            BackendKind::Pi => "Pi",
            BackendKind::OpenClaw => "OpenClaw",
        }
    }

    /// No two backends share an id.
    pub proof fn ids_are_distinct(self, other: BackendKind)
        ensures
            self.id_of() == other.id_of() ==> self == other,
    {
        reveal_strlit("hermes");
        reveal_strlit("opencode");
        reveal_strlit("mimocode");
        reveal_strlit("codex");
        reveal_strlit("claudecode");
        reveal_strlit("pi");
        reveal_strlit("openclaw");
        if self.id_of() == other.id_of() {
            assert(self.id_of().len() == other.id_of().len());
            assert(self.id_of()[0] == other.id_of()[0]);
            assert(self.id_of().len() > 5 ==> self.id_of()[5] == other.id_of()[5]);
        }
    }
}

/// A moment, as the clock's own bits. It is kept and handed on, never reckoned with.
#[derive(Clone, Copy, Debug, PartialEq, Eq, Structural)]
pub struct Stamp(pub u64);

#[derive(Clone, Copy, Debug, PartialEq, Eq, Structural)]
pub enum MessageRole {
    User,
    Assistant,
    System,
    Tool,
}

/// A tool that was run in a turn.
pub struct ToolCall {
    pub name: String,
    pub status: String,
    pub detail: String,
    pub timestamp: Stamp,
}

pub struct ToolCallView {
    pub name: Seq<char>,
    pub status: Seq<char>,
    pub detail: Seq<char>,
    pub timestamp: Stamp,
}

impl View for ToolCall {
    type V = ToolCallView;

    open spec fn view(&self) -> ToolCallView {
        ToolCallView {
            name: self.name@,
            status: self.status@,
            detail: self.detail@,
            timestamp: self.timestamp,
        }
    }
}

impl Clone for ToolCall {
    fn clone(&self) -> (copy: ToolCall)
        ensures
            copy@ == self@,
    {
        ToolCall {
            name: self.name.clone(),
            status: self.status.clone(),
            detail: self.detail.clone(),
            timestamp: self.timestamp,
        }
    }
}

/// A file attached to a prompt.
pub struct ComposerAttachment {
    pub id: String,
    pub path: String,
    pub name: String,
}

pub struct AttachmentView {
    pub id: Seq<char>,
    pub path: Seq<char>,
    pub name: Seq<char>,
}

impl View for ComposerAttachment {
    type V = AttachmentView;

    open spec fn view(&self) -> AttachmentView {
        AttachmentView { id: self.id@, path: self.path@, name: self.name@ }
    }
}

impl Clone for ComposerAttachment {
    fn clone(&self) -> (copy: ComposerAttachment)
        ensures
            copy@ == self@,
    {
        ComposerAttachment {
            id: self.id.clone(),
            path: self.path.clone(),
            name: self.name.clone(),
        }
    }
}

/// What attachments hold, in order.
pub open spec fn attachments_view(attachments: Seq<ComposerAttachment>) -> Seq<AttachmentView> {
    attachments.map_values(|attachment: ComposerAttachment| attachment@)
}

/// What tool calls hold, in order.
pub open spec fn tools_view(calls: Seq<ToolCall>) -> Seq<ToolCallView> {
    calls.map_values(|call: ToolCall| call@)
}

/// A copy of a list of attachments.
pub fn copy_attachments(attachments: &Vec<ComposerAttachment>) -> (copy: Vec<ComposerAttachment>)
    ensures
        attachments_view(copy@) == attachments_view(attachments@),
{
    let mut copy: Vec<ComposerAttachment> = Vec::new();
    let mut index: usize = 0;
    while index < attachments.len()
        invariant
            index <= attachments@.len(),
            copy@.len() == index,
            forall|i: int| 0 <= i < index ==> (#[trigger] copy@[i])@ == attachments@[i]@,
        decreases attachments@.len() - index,
    {
        copy.push(attachments[index].clone());
        index += 1;
    }
    assert(attachments_view(copy@) =~= attachments_view(attachments@));
    copy
}

/// A copy of a list of tool calls.
pub fn copy_tools(calls: &Vec<ToolCall>) -> (copy: Vec<ToolCall>)
    ensures
        tools_view(copy@) == tools_view(calls@),
{
    let mut copy: Vec<ToolCall> = Vec::new();
    let mut index: usize = 0;
    while index < calls.len()
        invariant
            index <= calls@.len(),
            copy@.len() == index,
            forall|i: int| 0 <= i < index ==> (#[trigger] copy@[i])@ == calls@[i]@,
        decreases calls@.len() - index,
    {
        copy.push(calls[index].clone());
        index += 1;
    }
    assert(tools_view(copy@) =~= tools_view(calls@));
    copy
}

/// One message of a transcript.
pub struct ChatMessage {
    pub id: String,
    pub role: MessageRole,
    pub content: String,
    pub is_streaming: bool,
    pub timestamp: Stamp,
    pub completed_at: Option<Stamp>,
    pub tool_calls: Vec<ToolCall>,
    pub attachments: Vec<ComposerAttachment>,
    /// Whether the message has been streaming for longer than a reply can take.
    pub stalled: bool,
    /// Whether there is nothing in the message to draw.
    pub empty_shell: bool,
    /// Whether there would be nothing in it to draw, were its streaming stopped.
    pub empty_when_stopped: bool,
}

pub struct MessageView {
    pub id: Seq<char>,
    pub role: MessageRole,
    pub content: Seq<char>,
    pub is_streaming: bool,
    pub timestamp: Stamp,
    pub completed_at: Option<Stamp>,
    pub tool_calls: Seq<ToolCallView>,
    pub attachments: Seq<AttachmentView>,
    pub stalled: bool,
    pub empty_shell: bool,
    pub empty_when_stopped: bool,
}

impl View for ChatMessage {
    type V = MessageView;

    open spec fn view(&self) -> MessageView {
        MessageView {
            id: self.id@,
            role: self.role,
            content: self.content@,
            is_streaming: self.is_streaming,
            timestamp: self.timestamp,
            completed_at: self.completed_at,
            tool_calls: tools_view(self.tool_calls@),
            attachments: attachments_view(self.attachments@),
            stalled: self.stalled,
            empty_shell: self.empty_shell,
            empty_when_stopped: self.empty_when_stopped,
        }
    }
}

impl Clone for ChatMessage {
    fn clone(&self) -> (copy: ChatMessage)
        ensures
            copy@ == self@,
    {
        ChatMessage {
            id: self.id.clone(),
            role: self.role,
            content: self.content.clone(),
            is_streaming: self.is_streaming,
            timestamp: self.timestamp,
            completed_at: self.completed_at,
            tool_calls: copy_tools(&self.tool_calls),
            attachments: copy_attachments(&self.attachments),
            stalled: self.stalled,
            empty_shell: self.empty_shell,
            empty_when_stopped: self.empty_when_stopped,
        }
    }
}

/// What messages hold, in order.
pub open spec fn messages_view(messages: Seq<ChatMessage>) -> Seq<MessageView> {
    messages.map_values(|message: ChatMessage| message@)
}

/// The messages on screen, and whether a turn is running.
pub struct Conversation {
    pub messages: Vec<ChatMessage>,
    pub sending: bool,
}

pub struct ConversationView {
    pub messages: Seq<MessageView>,
    pub sending: bool,
}

impl View for Conversation {
    type V = ConversationView;

    open spec fn view(&self) -> ConversationView {
        ConversationView { messages: messages_view(self.messages@), sending: self.sending }
    }
}

impl ConversationView {
    /// A conversation in which nothing was said.
    pub open spec fn fresh() -> ConversationView {
        ConversationView { messages: seq![], sending: false }
    }
}

impl Conversation {
    /// A conversation in which nothing was said.
    pub fn new() -> (conversation: Conversation)
        ensures
            conversation@ == ConversationView::fresh(),
    {
        let conversation = Conversation { messages: Vec::new(), sending: false };
        assert(conversation@.messages =~= seq![]);
        conversation
    }
}

/// A session as a backend lists it.
pub struct AgentSession {
    pub id: String,
    pub title: Option<String>,
    pub cwd: Option<String>,
    pub model: Option<String>,
    pub provider: Option<String>,
    pub started_at: Option<Stamp>,
    pub last_active: Option<Stamp>,
    pub message_count: Option<i64>,
    pub is_active: Option<bool>,
    pub archived: Option<bool>,
    pub profile: Option<String>,
    pub backend_id: Option<String>,
    pub used_tokens: Option<i64>,
    pub context_tokens: Option<i64>,
}

pub struct SessionView {
    pub id: Seq<char>,
    pub title: Option<Seq<char>>,
    pub cwd: Option<Seq<char>>,
    pub model: Option<Seq<char>>,
    pub provider: Option<Seq<char>>,
    pub started_at: Option<Stamp>,
    pub last_active: Option<Stamp>,
    pub message_count: Option<i64>,
    pub is_active: Option<bool>,
    pub archived: Option<bool>,
    pub profile: Option<Seq<char>>,
    pub backend_id: Option<Seq<char>>,
    pub used_tokens: Option<i64>,
    pub context_tokens: Option<i64>,
}

impl View for AgentSession {
    type V = SessionView;

    open spec fn view(&self) -> SessionView {
        SessionView {
            id: self.id@,
            title: maybe_text(self.title),
            cwd: maybe_text(self.cwd),
            model: maybe_text(self.model),
            provider: maybe_text(self.provider),
            started_at: self.started_at,
            last_active: self.last_active,
            message_count: self.message_count,
            is_active: self.is_active,
            archived: self.archived,
            profile: maybe_text(self.profile),
            backend_id: maybe_text(self.backend_id),
            used_tokens: self.used_tokens,
            context_tokens: self.context_tokens,
        }
    }
}

impl Clone for AgentSession {
    fn clone(&self) -> (copy: AgentSession)
        ensures
            copy@ == self@,
    {
        AgentSession {
            id: self.id.clone(),
            title: copy_text(&self.title),
            cwd: copy_text(&self.cwd),
            model: copy_text(&self.model),
            provider: copy_text(&self.provider),
            started_at: self.started_at,
            last_active: self.last_active,
            message_count: self.message_count,
            is_active: self.is_active,
            archived: self.archived,
            profile: copy_text(&self.profile),
            backend_id: copy_text(&self.backend_id),
            used_tokens: self.used_tokens,
            context_tokens: self.context_tokens,
        }
    }
}

impl Default for AgentSession {
    fn default() -> (session: AgentSession)
        ensures
            session@ == SessionView::blank(),
    {
        AgentSession {
            id: String::new(),
            title: None,
            cwd: None,
            model: None,
            provider: None,
            started_at: None,
            last_active: None,
            message_count: None,
            is_active: None,
            archived: None,
            profile: None,
            backend_id: None,
            used_tokens: None,
            context_tokens: None,
        }
    }
}

impl SessionView {
    /// A session of which nothing is known.
    pub open spec fn blank() -> SessionView {
        SessionView {
            id: seq![],
            title: None,
            cwd: None,
            model: None,
            provider: None,
            started_at: None,
            last_active: None,
            message_count: None,
            is_active: None,
            archived: None,
            profile: None,
            backend_id: None,
            used_tokens: None,
            context_tokens: None,
        }
    }
}

/// What sessions hold, in order.
pub open spec fn sessions_view(sessions: Seq<AgentSession>) -> Seq<SessionView> {
    sessions.map_values(|session: AgentSession| session@)
}

/// The ids that a backend gives a session it opened on a connection.
pub struct SessionIds {
    pub live_id: String,
    pub stored_id: Option<String>,
}

pub struct SessionIdsView {
    pub live_id: Seq<char>,
    pub stored_id: Option<Seq<char>>,
}

impl View for SessionIds {
    type V = SessionIdsView;

    open spec fn view(&self) -> SessionIdsView {
        SessionIdsView { live_id: self.live_id@, stored_id: maybe_text(self.stored_id) }
    }
}

/// What a backend is reached with.
pub struct BackendConfig {
    pub base_url: String,
    pub credential: String,
    pub profile: Option<String>,
    pub workspace: Option<String>,
}

pub struct ConfigView {
    pub base_url: Seq<char>,
    pub credential: Seq<char>,
    pub profile: Option<Seq<char>>,
    pub workspace: Option<Seq<char>>,
}

impl View for BackendConfig {
    type V = ConfigView;

    open spec fn view(&self) -> ConfigView {
        ConfigView {
            base_url: self.base_url@,
            credential: self.credential@,
            profile: maybe_text(self.profile),
            workspace: maybe_text(self.workspace),
        }
    }
}

/// How full a context is, and whether that was measured.
#[derive(Clone, Copy, Debug, PartialEq, Eq, Structural)]
pub struct ContextUsage {
    pub used_tokens: i64,
    pub max_tokens: i64,
    pub measured: bool,
}

impl ContextUsage {
    /// A reading that the backend reported.
    pub fn measured(used_tokens: i64, max_tokens: i64) -> (usage: ContextUsage)
        ensures
            usage == (ContextUsage { used_tokens, max_tokens, measured: true }),
    {
        ContextUsage { used_tokens, max_tokens, measured: true }
    }

    /// A guess of this client's own.
    pub fn estimated(used_tokens: i64, max_tokens: i64) -> (usage: ContextUsage)
        ensures
            usage == (ContextUsage { used_tokens, max_tokens, measured: false }),
    {
        ContextUsage { used_tokens, max_tokens, measured: false }
    }
}

} // verus!
