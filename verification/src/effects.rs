//! What the application does on the state's behalf.
//!
//! The state decides; talking to a backend, folding events into the conversation and
//! writing files is done by the application, which then comes back with the answer.

use crate::menu::{ModelOption, ModelView};
use crate::models::{
    attachments_view, messages_view, AttachmentView, BackendConfig, BackendKind, ChatMessage,
    ComposerAttachment, ConfigView, MessageView,
};
use crate::words::maybe_text;
use vstd::prelude::*;

verus! {

/// A prompt that waits for its turn.
pub struct QueuedPrompt {
    pub id: String,
    pub text: String,
    pub attachments: Vec<ComposerAttachment>,
}

pub struct QueuedView {
    pub id: Seq<char>,
    pub text: Seq<char>,
    pub attachments: Seq<AttachmentView>,
}

impl View for QueuedPrompt {
    type V = QueuedView;

    open spec fn view(&self) -> QueuedView {
        QueuedView {
            id: self.id@,
            text: self.text@,
            attachments: attachments_view(self.attachments@),
        }
    }
}

/// How a backend's permissions are set, by its place in the list of modes.
#[derive(Clone, Copy, Debug, PartialEq, Eq, Structural)]
pub struct PermissionMode(pub u8);

/// One thing to do.
pub enum Effect {
    /// Find the backend's server and probe it, with this password; then ask it for a
    /// credential, if there is one to discover.
    Probe { credential: String, discover: bool },
    /// Open the backend's event stream.
    OpenStream(BackendConfig),
    ListSessions { config: BackendConfig, show_progress: bool, expects_history: bool },
    LoadMessages { config: BackendConfig, session_id: String, backend: BackendKind, generation: u64 },
    Resume { config: BackendConfig, session_id: String, generation: u64 },
    Create { config: BackendConfig, profile: Option<String>, backend: BackendKind, generation: u64 },
    Submit { session_id: String, prompt: String },
    /// Stop the running turn, and send `queued` once it has stopped.
    Interrupt { session_id: String, queued: Option<QueuedPrompt> },
    Respond { request_id: String, answer: String },
    /// Answer a question with nothing.
    Dismiss { request_id: String },
    Disconnect,
    /// Build a backend of this kind.
    Build(BackendKind),
    /// Put the transcript that is cached under this key on screen, or a fresh
    /// conversation where none is.
    ShowCached(String),
    /// Start a fresh conversation.
    Reset,
    /// Merge fetched messages into the conversation.
    Merge(Vec<ChatMessage>),
    /// Begin a turn with this prompt and a placeholder for the reply.
    BeginTurn(String),
    /// End the turn.
    FinishTurn,
    /// End the turn with this as the last words of the reply.
    CompleteMessage(String),
    /// Fold the event at hand into the conversation.
    Fold,
    /// Come back once the conversation stands as the turn left it.
    AfterTurn,
    /// File the messages on screen under this key.
    StoreTranscript(String),
    /// File these messages under this key.
    FileTranscript { key: String, messages: Vec<ChatMessage> },
    DropTranscript(String),
    SaveCache,
    ClearCache,
    /// File and save the messages on screen a little later, in place of any earlier plan.
    ScheduleSave,
    CancelSave,
    /// Repaint a little later.
    ScheduleRepaint,
    SaveSettings,
    /// Forget the token of the device that was paired with this address.
    ForgetDevice(String),
    ReadModelConfig,
    ReadPermissionMode,
    SelectModel(ModelOption),
    SetPermissionMode(PermissionMode),
}

pub enum EffectView {
    Probe { credential: Seq<char>, discover: bool },
    OpenStream(ConfigView),
    ListSessions { config: ConfigView, show_progress: bool, expects_history: bool },
    LoadMessages {
        config: ConfigView,
        session_id: Seq<char>,
        backend: BackendKind,
        generation: u64,
    },
    Resume { config: ConfigView, session_id: Seq<char>, generation: u64 },
    Create {
        config: ConfigView,
        profile: Option<Seq<char>>,
        backend: BackendKind,
        generation: u64,
    },
    Submit { session_id: Seq<char>, prompt: Seq<char> },
    Interrupt { session_id: Seq<char>, queued: Option<QueuedView> },
    Respond { request_id: Seq<char>, answer: Seq<char> },
    Dismiss { request_id: Seq<char> },
    Disconnect,
    Build(BackendKind),
    ShowCached(Seq<char>),
    Reset,
    Merge(Seq<MessageView>),
    BeginTurn(Seq<char>),
    FinishTurn,
    CompleteMessage(Seq<char>),
    Fold,
    AfterTurn,
    StoreTranscript(Seq<char>),
    FileTranscript { key: Seq<char>, messages: Seq<MessageView> },
    DropTranscript(Seq<char>),
    SaveCache,
    ClearCache,
    ScheduleSave,
    CancelSave,
    ScheduleRepaint,
    SaveSettings,
    ForgetDevice(Seq<char>),
    ReadModelConfig,
    ReadPermissionMode,
    SelectModel(ModelView),
    SetPermissionMode(PermissionMode),
}

impl View for Effect {
    type V = EffectView;

    open spec fn view(&self) -> EffectView {
        match self {
            Effect::Probe { credential, discover } => EffectView::Probe {
                credential: credential@,
                discover: *discover,
            },
            Effect::OpenStream(config) => EffectView::OpenStream(config@),
            Effect::ListSessions { config, show_progress, expects_history } => {
                EffectView::ListSessions {
                    config: config@,
                    show_progress: *show_progress,
                    expects_history: *expects_history,
                }
            },
            Effect::LoadMessages { config, session_id, backend, generation } => {
                EffectView::LoadMessages {
                    config: config@,
                    session_id: session_id@,
                    backend: *backend,
                    generation: *generation,
                }
            },
            Effect::Resume { config, session_id, generation } => EffectView::Resume {
                config: config@,
                session_id: session_id@,
                generation: *generation,
            },
            Effect::Create { config, profile, backend, generation } => EffectView::Create {
                config: config@,
                profile: maybe_text(*profile),
                backend: *backend,
                generation: *generation,
            },
            Effect::Submit { session_id, prompt } => EffectView::Submit {
                session_id: session_id@,
                prompt: prompt@,
            },
            Effect::Interrupt { session_id, queued } => EffectView::Interrupt {
                session_id: session_id@,
                queued: match queued {
                    Some(queued) => Some(queued@),
                    None => None,
                },
            },
            Effect::Respond { request_id, answer } => EffectView::Respond {
                request_id: request_id@,
                answer: answer@,
            },
            Effect::Dismiss { request_id } => EffectView::Dismiss { request_id: request_id@ },
            Effect::Disconnect => EffectView::Disconnect,
            Effect::Build(kind) => EffectView::Build(*kind),
            Effect::ShowCached(key) => EffectView::ShowCached(key@),
            Effect::Reset => EffectView::Reset,
            Effect::Merge(messages) => EffectView::Merge(messages_view(messages@)),
            Effect::BeginTurn(text) => EffectView::BeginTurn(text@),
            Effect::FinishTurn => EffectView::FinishTurn,
            Effect::CompleteMessage(text) => EffectView::CompleteMessage(text@),
            Effect::Fold => EffectView::Fold,
            Effect::AfterTurn => EffectView::AfterTurn,
            Effect::StoreTranscript(key) => EffectView::StoreTranscript(key@),
            Effect::FileTranscript { key, messages } => EffectView::FileTranscript {
                key: key@,
                messages: messages_view(messages@),
            },
            Effect::DropTranscript(key) => EffectView::DropTranscript(key@),
            Effect::SaveCache => EffectView::SaveCache,
            Effect::ClearCache => EffectView::ClearCache,
            Effect::ScheduleSave => EffectView::ScheduleSave,
            Effect::CancelSave => EffectView::CancelSave,
            Effect::ScheduleRepaint => EffectView::ScheduleRepaint,
            Effect::SaveSettings => EffectView::SaveSettings,
            Effect::ForgetDevice(url) => EffectView::ForgetDevice(url@),
            Effect::ReadModelConfig => EffectView::ReadModelConfig,
            Effect::ReadPermissionMode => EffectView::ReadPermissionMode,
            Effect::SelectModel(option) => EffectView::SelectModel(option@),
            Effect::SetPermissionMode(mode) => EffectView::SetPermissionMode(*mode),
        }
    }
}

/// What effects say, in order.
pub open spec fn effects_view(effects: Seq<Effect>) -> Seq<EffectView> {
    effects.map_values(|effect: Effect| effect@)
}

/// Nothing to do.
pub(crate) fn nothing() -> (effects: Vec<Effect>)
    ensures
        effects_view(effects@) == Seq::<EffectView>::empty(),
{
    let effects: Vec<Effect> = Vec::new();
    assert(effects_view(effects@) =~= Seq::<EffectView>::empty());
    effects
}

/// One thing to do.
pub(crate) fn only(effect: Effect) -> (effects: Vec<Effect>)
    ensures
        effects_view(effects@) == seq![effect@],
{
    let mut effects: Vec<Effect> = Vec::new();
    effects.push(effect);
    assert(effects_view(effects@) =~= seq![effect@]);
    effects
}

/// Add more things to do.
pub(crate) fn add_effects(effects: &mut Vec<Effect>, more: Vec<Effect>)
    ensures
        effects_view(final(effects)@) == effects_view(old(effects)@) + effects_view(more@),
{
    let ghost added = more@;
    let mut more: Vec<Effect> = more;
    effects.append(&mut more);
    assert(effects_view(effects@) =~= effects_view(old(effects)@) + effects_view(added));
}

/// Add one more thing to do.
pub(crate) fn add_effect(effects: &mut Vec<Effect>, effect: Effect)
    ensures
        effects_view(final(effects)@) == effects_view(old(effects)@).push(effect@),
{
    effects.push(effect);
    assert(effects_view(effects@) =~= effects_view(old(effects)@).push(effect@));
}

} // verus!
