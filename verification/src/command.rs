//! The commands that the frontend sends, one JSON document each.

use crate::json::{
    flag_member, into_fields, json_fields, json_flag, json_object, json_str, json_view, member_flag,
    member_number, member_text, members_of, number_member, object_of, parse_json, parsed_json,
    render_json, rendered_json, text_member, JsonView,
};
use crate::models::BackendKind;
use crate::settings::{Settings, SettingsView};
use crate::words::{join, join3, maybe_text, quote, quoted, same_text};
use serde_json::Value;
use vstd::prelude::*;

verus! {

/// Why a command is refused.
pub enum CommandError {
    /// The command is no JSON document.
    NotJson(String),
    /// There is no such command.
    Unknown(Option<String>),
    /// The command lacks an argument.
    Needs(String),
    /// The backend is not named.
    NeedsBackend,
    /// The backend runs as a local process.
    LocalOnly(String),
    /// There is no such text size.
    UnknownFontSize(String),
}

pub enum CommandErrorView {
    NotJson(Seq<char>),
    Unknown(Option<Seq<char>>),
    Needs(Seq<char>),
    NeedsBackend,
    LocalOnly(Seq<char>),
    UnknownFontSize(Seq<char>),
}

impl View for CommandError {
    type V = CommandErrorView;

    open spec fn view(&self) -> CommandErrorView {
        match self {
            CommandError::NotJson(text) => CommandErrorView::NotJson(text@),
            CommandError::Unknown(name) => CommandErrorView::Unknown(maybe_text(*name)),
            CommandError::Needs(key) => CommandErrorView::Needs(key@),
            CommandError::NeedsBackend => CommandErrorView::NeedsBackend,
            CommandError::LocalOnly(id) => CommandErrorView::LocalOnly(id@),
            CommandError::UnknownFontSize(id) => CommandErrorView::UnknownFontSize(id@),
        }
    }
}

impl CommandErrorView {
    /// The message that the frontend is shown.
    pub open spec fn message(self) -> Seq<char> {
        match self {
            CommandErrorView::NotJson(text) => "command was not JSON: "@ + text,
            CommandErrorView::Unknown(name) => match name {
                Some(name) => "unknown command Some("@ + quoted(name) + ")"@,
                None => "unknown command None"@,
            },
            CommandErrorView::Needs(key) => "command needs a "@ + key,
            CommandErrorView::NeedsBackend => "configure needs a backend"@,
            CommandErrorView::LocalOnly(id) => id
                + " runs as a local process and is not available on mobile"@,
            CommandErrorView::UnknownFontSize(id) => "unknown font size "@ + quoted(id),
        }
    }
}

impl CommandError {
    /// The message that the frontend is shown.
    pub fn message(&self) -> (message: String)
        ensures
            message@ == self@.message(),
    {
        match self {
            CommandError::NotJson(text) => join("command was not JSON: ", text.as_str()),
            CommandError::Unknown(name) => match name {
                Some(name) => join3("unknown command Some(", quote(name.as_str()).as_str(), ")"),
                None => "unknown command None".to_owned(),
            },
            CommandError::Needs(key) => join("command needs a ", key.as_str()),
            CommandError::NeedsBackend => "configure needs a backend".to_owned(),
            CommandError::LocalOnly(id) => join(
                id.as_str(),
                " runs as a local process and is not available on mobile",
            ),
            CommandError::UnknownFontSize(id) => join(
                "unknown font size ",
                quote(id.as_str()).as_str(),
            ),
        }
    }
}

/// How a backend is to be reached. What is not given stays as it was.
pub struct Configuration {
    pub kind: BackendKind,
    pub host: Option<String>,
    pub port: Option<u64>,
    pub use_tls: Option<bool>,
    pub credential: Option<String>,
    pub workspace: Option<String>,
}

pub struct ConfigurationView {
    pub kind: BackendKind,
    pub host: Option<Seq<char>>,
    pub port: Option<u64>,
    pub use_tls: Option<bool>,
    pub credential: Option<Seq<char>>,
    pub workspace: Option<Seq<char>>,
}

impl View for Configuration {
    type V = ConfigurationView;

    open spec fn view(&self) -> ConfigurationView {
        ConfigurationView {
            kind: self.kind,
            host: maybe_text(self.host),
            port: self.port,
            use_tls: self.use_tls,
            credential: maybe_text(self.credential),
            workspace: maybe_text(self.workspace),
        }
    }
}

/// One command of the frontend.
pub enum Command {
    Settings,
    Configure(Configuration),
    SetUi { font_size: Option<String>, show_tool_calls: Option<bool> },
    Connect { force: bool },
    Disconnect,
    ListSessions,
    OpenSession { id: String },
    NewSession,
    Send { text: String },
    Interrupt,
    Answer { request_id: String, answer: String },
    Markdown { text: String },
}

pub enum CommandView {
    Settings,
    Configure(ConfigurationView),
    SetUi { font_size: Option<Seq<char>>, show_tool_calls: Option<bool> },
    Connect { force: bool },
    Disconnect,
    ListSessions,
    OpenSession { id: Seq<char> },
    NewSession,
    Send { text: Seq<char> },
    Interrupt,
    Answer { request_id: Seq<char>, answer: Seq<char> },
    Markdown { text: Seq<char> },
}

impl View for Command {
    type V = CommandView;

    open spec fn view(&self) -> CommandView {
        match self {
            Command::Settings => CommandView::Settings,
            Command::Configure(configuration) => CommandView::Configure(configuration@),
            Command::SetUi { font_size, show_tool_calls } => CommandView::SetUi {
                font_size: maybe_text(*font_size),
                show_tool_calls: *show_tool_calls,
            },
            Command::Connect { force } => CommandView::Connect { force: *force },
            Command::Disconnect => CommandView::Disconnect,
            Command::ListSessions => CommandView::ListSessions,
            Command::OpenSession { id } => CommandView::OpenSession { id: id@ },
            Command::NewSession => CommandView::NewSession,
            Command::Send { text } => CommandView::Send { text: text@ },
            Command::Interrupt => CommandView::Interrupt,
            Command::Answer { request_id, answer } => CommandView::Answer {
                request_id: request_id@,
                answer: answer@,
            },
            Command::Markdown { text } => CommandView::Markdown { text: text@ },
        }
    }
}

/// What a decoding comes to.
pub open spec fn decoded(outcome: Result<Command, CommandError>) -> Result<
    CommandView,
    CommandErrorView,
> {
    match outcome {
        Ok(command) => Ok(command@),
        Err(error) => Err(error@),
    }
}

/// Which backends exist on a phone. The others are local processes, which an app there
/// cannot start.
pub open spec fn mobile_kind(id: Seq<char>) -> Option<BackendKind> {
    if id == "hermes"@ {
        Some(BackendKind::Hermes)
    } else if id == "opencode"@ {
        Some(BackendKind::OpenCode)
    } else if id == "mimocode"@ {
        Some(BackendKind::MiMoCode)
    } else if id == "openclaw"@ {
        Some(BackendKind::OpenClaw)
    } else {
        None
    }
}

/// A required argument, and what the command then is.
pub open spec fn with_argument(
    value: JsonView,
    key: Seq<char>,
    command: spec_fn(Seq<char>) -> Result<CommandView, CommandErrorView>,
) -> Result<CommandView, CommandErrorView> {
    match member_text(value, key) {
        Some(text) => command(text),
        None => Err(CommandErrorView::Needs(key)),
    }
}

/// The command that a configuration document stands for.
pub open spec fn configuration_of(value: JsonView) -> Result<CommandView, CommandErrorView> {
    match member_text(value, "backend"@) {
        Some(id) => match mobile_kind(id) {
            Some(kind) => Ok(
                CommandView::Configure(
                    ConfigurationView {
                        kind,
                        host: member_text(value, "host"@),
                        port: member_number(value, "port"@),
                        use_tls: member_flag(value, "use_tls"@),
                        credential: member_text(value, "credential"@),
                        workspace: member_text(value, "workspace"@),
                    },
                ),
            ),
            None => Err(CommandErrorView::LocalOnly(id)),
        },
        None => Err(CommandErrorView::NeedsBackend),
    }
}

/// The command that a JSON value stands for.
pub open spec fn command_of(value: JsonView) -> Result<CommandView, CommandErrorView> {
    let name = member_text(value, "cmd"@);
    if name == Some("settings"@) {
        Ok(CommandView::Settings)
    } else if name == Some("configure"@) {
        configuration_of(value)
    } else if name == Some("set_ui"@) {
        Ok(
            CommandView::SetUi {
                font_size: member_text(value, "font_size"@),
                show_tool_calls: member_flag(value, "show_tool_calls"@),
            },
        )
    } else if name == Some("connect"@) {
        Ok(CommandView::Connect { force: false })
    } else if name == Some("ensure_connected"@) {
        Ok(CommandView::Connect { force: member_flag(value, "force"@) == Some(true) })
    } else if name == Some("disconnect"@) {
        Ok(CommandView::Disconnect)
    } else if name == Some("list_sessions"@) {
        Ok(CommandView::ListSessions)
    } else if name == Some("open_session"@) {
        with_argument(value, "id"@, |id: Seq<char>| Ok(CommandView::OpenSession { id }))
    } else if name == Some("new_session"@) {
        Ok(CommandView::NewSession)
    } else if name == Some("send"@) {
        with_argument(value, "text"@, |text: Seq<char>| Ok(CommandView::Send { text }))
    } else if name == Some("interrupt"@) {
        Ok(CommandView::Interrupt)
    } else if name == Some("answer"@) {
        with_argument(
            value,
            "request_id"@,
            |request_id: Seq<char>|
                with_argument(
                    value,
                    "answer"@,
                    |answer: Seq<char>| Ok(CommandView::Answer { request_id, answer }),
                ),
        )
    } else if name == Some("markdown"@) {
        with_argument(value, "text"@, |text: Seq<char>| Ok(CommandView::Markdown { text }))
    } else {
        Err(CommandErrorView::Unknown(name))
    }
}

pub fn parse_kind(id: &str) -> (kind: Result<BackendKind, CommandError>)
    ensures
        match kind {
            Ok(kind) => mobile_kind(id@) == Some(kind),
            Err(error) => mobile_kind(id@) is None && error@ == CommandErrorView::LocalOnly(id@),
        },
{
    if same_text(id, "hermes") {
        Ok(BackendKind::Hermes)
    } else if same_text(id, "opencode") {
        Ok(BackendKind::OpenCode)
    } else if same_text(id, "mimocode") {
        Ok(BackendKind::MiMoCode)
    } else if same_text(id, "openclaw") {
        Ok(BackendKind::OpenClaw)
    } else {
        Err(CommandError::LocalOnly(id.to_owned()))
    }
}

/// An argument that the command cannot do without.
pub fn required(value: &Value, key: &str) -> (text: Result<String, CommandError>)
    ensures
        match text {
            Ok(text) => member_text(json_view(*value), key@) == Some(text@),
            Err(error) => member_text(json_view(*value), key@) is None && error@
                == CommandErrorView::Needs(key@),
        },
{
    match text_member(value, key) {
        Some(text) => Ok(text.to_owned()),
        None => Err(CommandError::Needs(key.to_owned())),
    }
}

/// An argument that may be left out.
fn optional(value: &Value, key: &str) -> (text: Option<String>)
    ensures
        maybe_text(text) == member_text(json_view(*value), key@),
{
    match text_member(value, key) {
        Some(text) => Some(text.to_owned()),
        None => None,
    }
}

fn decode_configuration(value: &Value) -> (command: Result<Command, CommandError>)
    ensures
        decoded(command) == configuration_of(json_view(*value)),
{
    match text_member(value, "backend") {
        Some(id) => match parse_kind(id) {
            Ok(kind) => Ok(
                Command::Configure(
                    Configuration {
                        kind,
                        host: optional(value, "host"),
                        port: number_member(value, "port"),
                        use_tls: flag_member(value, "use_tls"),
                        credential: optional(value, "credential"),
                        workspace: optional(value, "workspace"),
                    },
                ),
            ),
            Err(error) => Err(error),
        },
        None => Err(CommandError::NeedsBackend),
    }
}

/// The command that a JSON value stands for.
pub fn decode(value: &Value) -> (command: Result<Command, CommandError>)
    ensures
        decoded(command) == command_of(json_view(*value)),
{
    let name: &str = match text_member(value, "cmd") {
        Some(name) => name,
        None => {
            return Err(CommandError::Unknown(None));
        },
    };
    if same_text(name, "settings") {
        Ok(Command::Settings)
    } else if same_text(name, "configure") {
        decode_configuration(value)
    } else if same_text(name, "set_ui") {
        Ok(
            Command::SetUi {
                font_size: optional(value, "font_size"),
                show_tool_calls: flag_member(value, "show_tool_calls"),
            },
        )
    } else if same_text(name, "connect") {
        Ok(Command::Connect { force: false })
    } else if same_text(name, "ensure_connected") {
        let force: bool = match flag_member(value, "force") {
            Some(force) => force,
            None => false,
        };
        Ok(Command::Connect { force })
    } else if same_text(name, "disconnect") {
        Ok(Command::Disconnect)
    } else if same_text(name, "list_sessions") {
        Ok(Command::ListSessions)
    } else if same_text(name, "open_session") {
        match required(value, "id") {
            Ok(id) => Ok(Command::OpenSession { id }),
            Err(error) => Err(error),
        }
    } else if same_text(name, "new_session") {
        Ok(Command::NewSession)
    } else if same_text(name, "send") {
        match required(value, "text") {
            Ok(text) => Ok(Command::Send { text }),
            Err(error) => Err(error),
        }
    } else if same_text(name, "interrupt") {
        Ok(Command::Interrupt)
    } else if same_text(name, "answer") {
        match required(value, "request_id") {
            Ok(request_id) => match required(value, "answer") {
                Ok(answer) => Ok(Command::Answer { request_id, answer }),
                Err(error) => Err(error),
            },
            Err(error) => Err(error),
        }
    } else if same_text(name, "markdown") {
        match required(value, "text") {
            Ok(text) => Ok(Command::Markdown { text }),
            Err(error) => Err(error),
        }
    } else {
        Err(CommandError::Unknown(Some(name.to_owned())))
    }
}

/// The command that a document stands for.
pub fn read_command(document: &str) -> (command: Result<Command, CommandError>)
    ensures
        decoded(command) == (match parsed_json(document@) {
            Ok(value) => command_of(value),
            Err(message) => Err(CommandErrorView::NotJson(message)),
        }),
{
    match parse_json(document) {
        Ok(value) => decode(&value),
        Err(message) => Err(CommandError::NotJson(message)),
    }
}

// -- settings ------------------------------------------------------------------

impl ConfigurationView {
    /// The settings with a configuration in place and its backend switched on.
    pub open spec fn applied_to(self, settings: SettingsView) -> SettingsView {
        (SettingsView {
            backend_kind: self.kind,
            backend_host: match self.host {
                Some(host) => host,
                None => settings.backend_host,
            },
            backend_port: match self.port {
                Some(port) => (port % 0x10000) as u16,
                None => settings.backend_port,
            },
            backend_use_tls: match self.use_tls {
                Some(use_tls) => use_tls,
                None => settings.backend_use_tls,
            },
            session_token: match self.credential {
                Some(credential) => credential,
                None => settings.session_token,
            },
            workspace_path: match self.workspace {
                Some(workspace) => workspace,
                None => settings.workspace_path,
            },
            ..settings
        }).with_backend(self.kind, true)
    }
}

/// Put a configuration in place. The backend's switch is turned on: it is the one to
/// come back to.
pub fn configure(settings: &mut Settings, configuration: Configuration)
    ensures
        final(settings)@ == configuration@.applied_to(old(settings)@),
{
    let Configuration { kind, host, port, use_tls, credential, workspace } = configuration;
    settings.backend_kind = kind;
    if let Some(host) = host {
        settings.backend_host = host;
    }
    if let Some(port) = port {
        settings.backend_port = (port % 0x10000) as u16;
    }
    if let Some(use_tls) = use_tls {
        settings.backend_use_tls = use_tls;
    }
    if let Some(credential) = credential {
        settings.session_token = credential;
    }
    if let Some(workspace) = workspace {
        settings.workspace_path = workspace;
    }
    settings.set_backend_enabled(kind, true);
}

/// Put interface preferences in place. A text size that does not exist, which `known`
/// says, is refused and changes nothing.
pub fn set_ui(
    settings: &mut Settings,
    font_size: Option<String>,
    known: bool,
    show_tool_calls: Option<bool>,
) -> (outcome: Result<(), CommandError>)
    ensures
        match outcome {
            Ok(_) => (font_size is None || known) && final(settings)@ == (SettingsView {
                font_size: match font_size {
                    Some(id) => id@,
                    None => old(settings)@.font_size,
                },
                show_tool_calls: match show_tool_calls {
                    Some(show) => show,
                    None => old(settings)@.show_tool_calls,
                },
                ..old(settings)@
            }),
            Err(error) => font_size is Some && !known && error@
                == CommandErrorView::UnknownFontSize(font_size->0@) && final(settings)@ == old(
                settings,
            )@,
        },
{
    if let Some(id) = font_size {
        if !known {
            return Err(CommandError::UnknownFontSize(id));
        }
        settings.font_size = id;
    }
    if let Some(show) = show_tool_calls {
        settings.show_tool_calls = show;
    }
    Ok(())
}

// -- replies -------------------------------------------------------------------

/// The reply to a command that was carried out: `ok`, and the members of what it gives
/// back.
pub open spec fn accepted_view(payload: Option<JsonView>) -> JsonView {
    let ok = members_of(seq![("ok"@, JsonView::Flag(true))]);
    match payload {
        Some(JsonView::Object(members)) => JsonView::Object(ok.union_prefer_right(members)),
        _ => JsonView::Object(ok),
    }
}

/// The reply to a command that was refused.
pub open spec fn refused_view(message: Seq<char>) -> JsonView {
    object_of(seq![("ok"@, JsonView::Flag(false)), ("error"@, JsonView::Text(message))])
}

proof fn lemma_members_joined(
    left: Seq<(Seq<char>, JsonView)>,
    right: Seq<(Seq<char>, JsonView)>,
)
    ensures
        members_of(left + right) == members_of(left).union_prefer_right(members_of(right)),
    decreases right.len(),
{
    if right.len() == 0 {
        assert(left + right =~= left);
        assert(members_of(left).union_prefer_right(members_of(right)) =~= members_of(left));
    } else {
        assert((left + right).drop_last() =~= left + right.drop_last());
        lemma_members_joined(left, right.drop_last());
        assert(members_of(left).union_prefer_right(members_of(right)) =~= members_of(
            left,
        ).union_prefer_right(members_of(right.drop_last())).insert(
            right.last().0,
            right.last().1,
        ));
    }
}

/// The reply to a command that was carried out.
pub fn accepted(payload: Option<Value>) -> (reply: Value)
    ensures
        json_view(reply) == accepted_view(
            match payload {
                Some(payload) => Some(json_view(payload)),
                None => None,
            },
        ),
{
    let ok: Value = json_flag(true);
    let mut fields: Vec<(String, Value)> = Vec::new();
    fields.push(("ok".to_owned(), ok));
    assert(json_fields(fields@) =~= seq![("ok"@, JsonView::Flag(true))]);
    if let Some(payload) = payload {
        if let Some(more) = into_fields(payload) {
            let ghost first = fields@;
            let ghost second = more@;
            let mut more: Vec<(String, Value)> = more;
            fields.append(&mut more);
            proof {
                assert(json_fields(first + second) =~= json_fields(first) + json_fields(second));
                lemma_members_joined(json_fields(first), json_fields(second));
            }
        }
    }
    json_object(fields)
}

/// The reply to a call whose only answer is whether it succeeded.
pub open spec fn settled_view(ok: bool) -> JsonView {
    object_of(seq![("ok"@, JsonView::Flag(ok))])
}

/// The reply to a call whose only answer is whether it succeeded.
pub fn settled(ok: bool) -> (reply: Value)
    ensures
        json_view(reply) == settled_view(ok),
{
    let flag: Value = json_flag(ok);
    let mut fields: Vec<(String, Value)> = Vec::new();
    fields.push(("ok".to_owned(), flag));
    assert(json_fields(fields@) =~= seq![("ok"@, JsonView::Flag(ok))]);
    json_object(fields)
}

/// The reply to a command that was refused.
pub fn refused(message: &str) -> (reply: Value)
    ensures
        json_view(reply) == refused_view(message@),
{
    let ok: Value = json_flag(false);
    let error: Value = json_str(message);
    let mut fields: Vec<(String, Value)> = Vec::new();
    fields.push(("ok".to_owned(), ok));
    fields.push(("error".to_owned(), error));
    assert(json_fields(fields@) =~= seq![
        ("ok"@, JsonView::Flag(false)),
        ("error"@, JsonView::Text(message@)),
    ]);
    json_object(fields)
}

/// A reply as the document that the frontend reads.
pub fn document(reply: &Value) -> (text: String)
    ensures
        text@ == rendered_json(json_view(*reply)),
{
    render_json(reply)
}

/// Only the backends that are reached over the network can be set up.
pub proof fn only_network_backends_are_offered(id: Seq<char>)
    ensures
        mobile_kind(id) is Some <==> id == "hermes"@ || id == "opencode"@ || id == "mimocode"@
            || id == "openclaw"@,
        mobile_kind(id) matches Some(kind) ==> kind.id_of() == id,
        mobile_kind(BackendKind::Codex.id_of()) is None,
        mobile_kind(BackendKind::ClaudeCode.id_of()) is None,
        mobile_kind(BackendKind::Pi.id_of()) is None,
{
    BackendKind::Codex.ids_are_distinct(BackendKind::Hermes);
    BackendKind::Codex.ids_are_distinct(BackendKind::OpenCode);
    BackendKind::Codex.ids_are_distinct(BackendKind::MiMoCode);
    BackendKind::Codex.ids_are_distinct(BackendKind::OpenClaw);
    BackendKind::ClaudeCode.ids_are_distinct(BackendKind::Hermes);
    BackendKind::ClaudeCode.ids_are_distinct(BackendKind::OpenCode);
    BackendKind::ClaudeCode.ids_are_distinct(BackendKind::MiMoCode);
    BackendKind::ClaudeCode.ids_are_distinct(BackendKind::OpenClaw);
    BackendKind::Pi.ids_are_distinct(BackendKind::Hermes);
    BackendKind::Pi.ids_are_distinct(BackendKind::OpenCode);
    BackendKind::Pi.ids_are_distinct(BackendKind::MiMoCode);
    BackendKind::Pi.ids_are_distinct(BackendKind::OpenClaw);
}

} // verus!
