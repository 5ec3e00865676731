//! What the client remembers between launches.

use crate::json::{
    field, json_fields, json_flag, json_number, json_object, json_str, json_view, object_of,
    JsonView,
};
use crate::models::{BackendConfig, BackendKind, ConfigView};
use crate::words::{copy_text, maybe_text, same_text};
use serde_json::Value;
use vstd::prelude::*;

verus! {

/// The session that was open, and the backend that it belongs to.
pub struct SavedSession {
    pub backend: String,
    pub id: String,
}

pub struct SavedView {
    pub backend: Seq<char>,
    pub id: Seq<char>,
}

impl View for SavedSession {
    type V = SavedView;

    open spec fn view(&self) -> SavedView {
        SavedView { backend: self.backend@, id: self.id@ }
    }
}

/// The settings that the client acts on.
pub struct Settings {
    pub backend_kind: BackendKind,
    pub backend_host: String,
    pub backend_port: u16,
    pub backend_use_tls: bool,
    pub session_token: String,
    pub workspace_path: String,
    /// The text size, by its id.
    pub font_size: String,
    pub show_tool_calls: bool,
    pub last_session: Option<SavedSession>,
    /// The backends whose switch is on.
    pub enabled: Vec<BackendKind>,
    /// The address that the settings come to.
    pub base_url: String,
    /// The profile that the settings come to.
    pub profile: Option<String>,
    /// The workspace that the settings come to.
    pub workspace: Option<String>,
    /// Whether the backend's server takes a password.
    pub takes_password: bool,
}

pub struct SettingsView {
    pub backend_kind: BackendKind,
    pub backend_host: Seq<char>,
    pub backend_port: u16,
    pub backend_use_tls: bool,
    pub session_token: Seq<char>,
    pub workspace_path: Seq<char>,
    pub font_size: Seq<char>,
    pub show_tool_calls: bool,
    pub last_session: Option<SavedView>,
    pub enabled: Set<BackendKind>,
    pub base_url: Seq<char>,
    pub profile: Option<Seq<char>>,
    pub workspace: Option<Seq<char>>,
    pub takes_password: bool,
}

/// What a saved session holds.
pub open spec fn saved_view(saved: Option<SavedSession>) -> Option<SavedView> {
    match saved {
        Some(saved) => Some(saved@),
        None => None,
    }
}

impl View for Settings {
    type V = SettingsView;

    open spec fn view(&self) -> SettingsView {
        SettingsView {
            backend_kind: self.backend_kind,
            backend_host: self.backend_host@,
            backend_port: self.backend_port,
            backend_use_tls: self.backend_use_tls,
            session_token: self.session_token@,
            workspace_path: self.workspace_path@,
            font_size: self.font_size@,
            show_tool_calls: self.show_tool_calls,
            last_session: saved_view(self.last_session),
            enabled: self.enabled@.to_set(),
            base_url: self.base_url@,
            profile: maybe_text(self.profile),
            workspace: maybe_text(self.workspace),
            takes_password: self.takes_password,
        }
    }
}

impl SettingsView {
    /// The settings with one backend's switch on or off. Switching one on switches the
    /// others off, since only one can be connected at a time.
    pub open spec fn with_backend(self, kind: BackendKind, on: bool) -> SettingsView {
        SettingsView {
            enabled: if on {
                set![kind]
            } else {
                self.enabled.remove(kind)
            },
            ..self
        }
    }

    /// The session that was open, if it was open on the backend that is set up. A key
    /// means nothing to a backend that did not issue it.
    pub open spec fn saved_session(self) -> Option<Seq<char>> {
        match self.last_session {
            Some(saved) => if saved.backend == self.backend_kind.id_of() {
                Some(saved.id)
            } else {
                None
            },
            None => None,
        }
    }

    /// The settings with the session on screen remembered.
    pub open spec fn remembering(self, id: Seq<char>) -> SettingsView {
        SettingsView {
            last_session: Some(SavedView { backend: self.backend_kind.id_of(), id }),
            ..self
        }
    }

    /// The preferences the frontend draws from.
    pub open spec fn payload(self) -> JsonView {
        object_of(
            seq![
                ("event"@, JsonView::Text("settings"@)),
                ("backend"@, JsonView::Text(self.backend_kind.id_of())),
                ("host"@, JsonView::Text(self.backend_host)),
                ("port"@, JsonView::Natural(self.backend_port as u64)),
                ("use_tls"@, JsonView::Flag(self.backend_use_tls)),
                ("credential"@, JsonView::Text(self.session_token)),
                ("workspace"@, JsonView::Text(self.workspace_path)),
                ("font_size"@, JsonView::Text(self.font_size)),
                ("show_tool_calls"@, JsonView::Flag(self.show_tool_calls)),
            ],
        )
    }

    /// What the backend is reached with.
    pub open spec fn config(self) -> ConfigView {
        ConfigView {
            base_url: self.base_url,
            credential: self.session_token,
            profile: self.profile,
            workspace: self.workspace,
        }
    }
}

impl Settings {
    pub fn is_backend_enabled(&self, kind: BackendKind) -> (on: bool)
        ensures
            on == self@.enabled.contains(kind),
    {
        let mut index: usize = 0;
        while index < self.enabled.len()
            invariant
                index <= self.enabled@.len(),
                forall|i: int| 0 <= i < index ==> #[trigger] self.enabled@[i] != kind,
            decreases self.enabled@.len() - index,
        {
            if self.enabled[index] == kind {
                assert(self.enabled@.contains(kind));
                return true;
            }
            index += 1;
        }
        false
    }

    /// Turn one backend's switch on, and every other one off; or turn it off.
    pub fn set_backend_enabled(&mut self, kind: BackendKind, on: bool)
        ensures
            final(self)@ == old(self)@.with_backend(kind, on),
    {
        let ghost before = self.enabled@;
        let mut kept: Vec<BackendKind> = Vec::new();
        if on {
            kept.push(kind);
            self.enabled = kept;
            proof {
                assert(self.enabled@[0] == kind);
                assert(self.enabled@.to_set() =~= set![kind]);
            }
            return;
        }
        let mut index: usize = 0;
        while index < self.enabled.len()
            invariant
                self.enabled@ == before,
                *self == *old(self),
                index <= before.len(),
                forall|k: BackendKind|
                    #[trigger] kept@.contains(k) <==> k != kind && exists|i: int|
                        0 <= i < index && before[i] == k,
            decreases before.len() - index,
        {
            let one: BackendKind = self.enabled[index];
            let ghost earlier = kept@;
            if one != kind {
                kept.push(one);
            }
            proof {
                assert forall|k: BackendKind| #[trigger]
                    kept@.contains(k) <==> k != kind && exists|i: int|
                        0 <= i < index + 1 && before[i] == k by {
                    if kept@.contains(k) {
                        let j = choose|j: int| 0 <= j < kept@.len() && kept@[j] == k;
                        if j < earlier.len() {
                            assert(earlier[j] == k);
                            assert(earlier.contains(k));
                        } else {
                            assert(before[index as int] == k);
                        }
                    }
                    if k != kind && exists|i: int| 0 <= i < index + 1 && before[i] == k {
                        let i = choose|i: int| 0 <= i < index + 1 && before[i] == k;
                        if i < index {
                            assert(earlier.contains(k));
                            let j = choose|j: int| 0 <= j < earlier.len() && earlier[j] == k;
                            assert(kept@[j] == k);
                        } else {
                            assert(kept@[kept@.len() - 1] == k);
                        }
                    }
                }
            }
            index += 1;
        }
        self.enabled = kept;
        proof {
            assert forall|k: BackendKind|
                self.enabled@.to_set().contains(k) <==> before.to_set().remove(kind).contains(k) by {
                assert(kept@.contains(k) == self.enabled@.contains(k));
            }
            assert(self.enabled@.to_set() =~= before.to_set().remove(kind));
        }
    }

    /// Remember the session on screen, so the next launch comes back to it. Says whether
    /// there is anything new to save.
    pub fn remember_session(&mut self, id: &str) -> (changed: bool)
        ensures
            final(self)@ == old(self)@.remembering(id@),
            changed == (old(self)@.last_session != old(self)@.remembering(id@).last_session),
    {
        let backend: &'static str = self.backend_kind.id();
        let known: bool = match &self.last_session {
            Some(saved) => same_text(saved.backend.as_str(), backend) && same_text(
                saved.id.as_str(),
                id,
            ),
            None => false,
        };
        if known {
            return false;
        }
        self.last_session = Some(
            SavedSession { backend: backend.to_owned(), id: id.to_owned() },
        );
        true
    }

    /// The session this device had open, if it was open on the backend that is set up.
    pub fn saved_session(&self) -> (id: Option<String>)
        ensures
            maybe_text(id) == self@.saved_session(),
    {
        match &self.last_session {
            Some(saved) => if same_text(saved.backend.as_str(), self.backend_kind.id()) {
                Some(saved.id.clone())
            } else {
                None
            },
            None => None,
        }
    }

    /// Stop coming back to a session, because the user asked for a new chat. Says
    /// whether there is anything new to save.
    pub fn forget_session(&mut self) -> (changed: bool)
        ensures
            final(self)@ == (SettingsView { last_session: None, ..old(self)@ }),
            changed == (old(self)@.last_session is Some),
    {
        let changed: bool = self.last_session.is_some();
        self.last_session = None;
        changed
    }

    /// The preferences the frontend draws from, as one payload.
    pub fn payload(&self) -> (payload: Value)
        ensures
            json_view(payload) == self@.payload(),
    {
        let event: Value = json_str("settings");
        let backend: Value = json_str(self.backend_kind.id());
        let host: Value = json_str(self.backend_host.as_str());
        let port: Value = json_number(self.backend_port as u64);
        let use_tls: Value = json_flag(self.backend_use_tls);
        let credential: Value = json_str(self.session_token.as_str());
        let workspace: Value = json_str(self.workspace_path.as_str());
        let font_size: Value = json_str(self.font_size.as_str());
        let show_tool_calls: Value = json_flag(self.show_tool_calls);
        let fields: Vec<(String, Value)> = vec![
            field("event", event),
            field("backend", backend),
            field("host", host),
            field("port", port),
            field("use_tls", use_tls),
            field("credential", credential),
            field("workspace", workspace),
            field("font_size", font_size),
            field("show_tool_calls", show_tool_calls),
        ];
        assert(json_fields(fields@) =~= seq![
            ("event"@, json_view(event)),
            ("backend"@, json_view(backend)),
            ("host"@, json_view(host)),
            ("port"@, json_view(port)),
            ("use_tls"@, json_view(use_tls)),
            ("credential"@, json_view(credential)),
            ("workspace"@, json_view(workspace)),
            ("font_size"@, json_view(font_size)),
            ("show_tool_calls"@, json_view(show_tool_calls)),
        ]);
        json_object(fields)
    }

    /// What the backend is reached with.
    pub fn config(&self) -> (config: BackendConfig)
        ensures
            config@ == self@.config(),
    {
        BackendConfig {
            base_url: self.base_url.clone(),
            credential: self.session_token.clone(),
            profile: copy_text(&self.profile),
            workspace: copy_text(&self.workspace),
        }
    }
}

/// What was remembered is what the next launch comes back to, and what was forgotten is
/// not.
pub proof fn a_remembered_session_is_found_again(settings: SettingsView, id: Seq<char>)
    ensures
        settings.remembering(id).saved_session() == Some(id),
        (SettingsView { last_session: None, ..settings.remembering(id) }).saved_session() is None,
{
}

/// A session is not reopened on a backend that did not issue it.
pub proof fn another_backends_session_is_not_reopened(
    settings: SettingsView,
    id: Seq<char>,
    kind: BackendKind,
)
    requires
        kind != settings.backend_kind,
    ensures
        (SettingsView { backend_kind: kind, ..settings.remembering(id) }).saved_session() is None,
{
    settings.backend_kind.ids_are_distinct(kind);
}

/// Only the backend that was switched on last is on; switching it off leaves none on.
pub proof fn one_switch_is_on_at_a_time(
    settings: SettingsView,
    kind: BackendKind,
    other: BackendKind,
)
    ensures
        settings.with_backend(kind, true).enabled.contains(other) <==> other == kind,
        !settings.with_backend(kind, true).with_backend(kind, false).enabled.contains(other),
        !settings.with_backend(kind, false).enabled.contains(kind),
{
}

} // verus!
