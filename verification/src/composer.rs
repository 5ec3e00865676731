//! What is drawn of the composer: the queue, the buttons and the model menu.

use crate::effects::{QueuedPrompt, QueuedView};
use crate::ids::{hash_id, hash_of, model_id};
use crate::menu::{menu_view, models_view, ModelOption, ModelView};
use crate::models::SessionView;
use crate::state::{AppState, AppView};
use crate::transcript::{attachment_names, names};
use crate::words::{
    decimal, join, join3, join_all, joined_with, maybe_text, number_text, same_text, trim, trimmed,
};
use vstd::prelude::*;
use vstd::utf8::encode_utf8;

verus! {

// -- the queue -------------------------------------------------------------------------

/// A prompt that waits for the running turn, as it is drawn.
#[derive(Debug)]
pub struct QueueRow {
    /// The number its buttons are known by.
    pub id: u64,
    pub preview: String,
}

pub struct QueueRowView {
    pub id: u64,
    pub preview: Seq<char>,
}

impl View for QueueRow {
    type V = QueueRowView;

    open spec fn view(&self) -> QueueRowView {
        QueueRowView { id: self.id, preview: self.preview@ }
    }
}

/// What is shown of a prompt: its text, and the names of what is attached to it.
pub open spec fn preview_of(queued: QueuedView) -> Seq<char> {
    if queued.attachments.len() == 0 {
        queued.text
    } else {
        (if queued.text.len() == 0 {
            "Attached files"@
        } else {
            queued.text
        }) + "\n["@ + joined_with(attachment_names(queued.attachments), " "@) + "]"@
    }
}

pub open spec fn queue_row_of(queued: QueuedView) -> QueueRowView {
    QueueRowView { id: hash_of(encode_utf8(queued.id)), preview: preview_of(queued) }
}

/// A prompt that waits, as it is drawn.
pub fn queue_row(queued: &QueuedPrompt) -> (row: QueueRow)
    ensures
        row@ == queue_row_of(queued@),
{
    let preview: String = if queued.attachments.len() == 0 {
        queued.text.clone()
    } else {
        let base: &str = if queued.text.as_str().is_empty() {
            "Attached files"
        } else {
            queued.text.as_str()
        };
        let mut preview: String = join(base, "\n[");
        preview.append(join_all(&names(&queued.attachments), " ").as_str());
        preview.append("]");
        preview
    };
    QueueRow { id: hash_id(queued.id.as_str()), preview }
}

// -- the buttons -----------------------------------------------------------------------

/// What the send button does.
#[derive(Clone, Copy, Debug, PartialEq, Eq, Structural)]
pub enum SendAction {
    /// Send what is in the composer, or answer the open question with it.
    Send,
    /// Stop the running turn.
    Interrupt,
}

/// What colour the send button has.
#[derive(Clone, Copy, Debug, PartialEq, Eq, Structural)]
pub enum SendFill {
    Danger,
    Accent,
    Neutral,
}

/// The send button.
#[derive(Clone, Copy, Debug, PartialEq, Eq, Structural)]
pub struct SendButton {
    pub shows_stop: bool,
    pub enabled: bool,
    pub fill: SendFill,
    pub action: SendAction,
}

/// The send button. While a question is open it answers that, whatever else is going on;
/// while a turn runs it stops the turn.
pub open spec fn send_button_of(
    asking: bool,
    sending: bool,
    can_send: bool,
    typed: Seq<char>,
) -> SendButton {
    let shows_stop = sending && !asking;
    let enabled = if asking {
        trimmed(typed).len() > 0
    } else {
        sending || can_send
    };
    SendButton {
        shows_stop,
        enabled,
        fill: if shows_stop {
            SendFill::Danger
        } else if enabled {
            SendFill::Accent
        } else {
            SendFill::Neutral
        },
        action: if shows_stop {
            SendAction::Interrupt
        } else {
            SendAction::Send
        },
    }
}

/// What the send button shows.
pub fn send_label(button: &SendButton) -> (label: &'static str)
    ensures
        label@ == if button.shows_stop {
            "■"@
        } else {
            "↑"@
        },
{
    if button.shows_stop {
        "■"
    } else {
        "↑"
    }
}

/// A question is always answered with the button, even in the middle of a turn, and an
/// answer that says nothing cannot be sent.
pub proof fn an_open_question_takes_the_button(sending: bool, can_send: bool, typed: Seq<char>)
    ensures
        send_button_of(true, sending, can_send, typed).action == SendAction::Send,
        !send_button_of(true, sending, can_send, typed).shows_stop,
        send_button_of(true, sending, can_send, typed).enabled <==> trimmed(typed).len() > 0,
{
}

/// A running turn can always be stopped, whatever is in the composer.
pub proof fn a_running_turn_can_be_stopped(can_send: bool, typed: Seq<char>)
    ensures
        send_button_of(false, true, can_send, typed).action == SendAction::Interrupt,
        send_button_of(false, true, can_send, typed).enabled,
{
}

impl AppView {
    /// What the model button is labelled with: the configured model, or the one the session
    /// runs on, or the backend's name.
    pub open spec fn model_label(self) -> Seq<char> {
        if trimmed(self.model_name).len() > 0 {
            trimmed(self.model_name)
        } else {
            match self.selected {
                Some(SessionView { model: Some(model), .. }) => model,
                _ => self.settings.backend_kind.name_of(),
            }
        }
    }
}

impl AppState {
    /// What the model button is labelled with.
    pub fn model_label(&self) -> (label: String)
        ensures
            label@ == self@.model_label(),
    {
        let configured: String = trim(self.current_model_name.as_str());
        if !configured.as_str().is_empty() {
            return configured;
        }
        match &self.selected_session {
            Some(session) => match &session.model {
                Some(model) => model.clone(),
                None => self.backend_display_name().to_owned(),
            },
            None => self.backend_display_name().to_owned(),
        }
    }

    /// The model button, on a backend whose model can be chosen.
    pub fn model_button(&self) -> (button: Option<String>)
        ensures
            maybe_text(button) == if !self@.caps.model_selection {
                None
            } else if self@.is_switching_model {
                Some("Switching…"@)
            } else {
                Some(self@.model_label() + " ▾"@)
            },
    {
        if !self.backend_caps.model_selection {
            return None;
        }
        if self.is_switching_model {
            Some("Switching…".to_owned())
        } else {
            Some(join(self.model_label().as_str(), " ▾"))
        }
    }

    /// The permission button, on a backend that asks for permissions. `label` names the
    /// mode in force.
    pub fn permission_button(&self, label: &str) -> (button: Option<String>)
        ensures
            maybe_text(button) == if !self@.caps.permission_modes {
                None
            } else if self@.is_changing_permission {
                Some(label@ + "…"@)
            } else {
                Some(label@)
            },
    {
        if !self.backend_caps.permission_modes {
            return None;
        }
        if self.is_changing_permission_mode {
            Some(join(label, "…"))
        } else {
            Some(label.to_owned())
        }
    }

    /// The send button; `typed` is what is in the composer's editor.
    pub fn send_button(&self, typed: &str) -> (button: SendButton)
        ensures
            button == send_button_of(
                self@.clarify is Some,
                self@.conversation.sending,
                self@.can_send(),
                typed@,
            ),
    {
        let asking: bool = self.pending_clarify.is_some();
        let sending: bool = self.is_sending();
        let shows_stop: bool = sending && !asking;
        let enabled: bool = if asking {
            !trim(typed).as_str().is_empty()
        } else {
            sending || self.can_send()
        };
        SendButton {
            shows_stop,
            enabled,
            fill: if shows_stop {
                SendFill::Danger
            } else if enabled {
                SendFill::Accent
            } else {
                SendFill::Neutral
            },
            action: if shows_stop {
                SendAction::Interrupt
            } else {
                SendAction::Send
            },
        }
    }

    /// The heading over the queue, if anything waits in it.
    pub fn queue_title(&self) -> (title: Option<String>)
        ensures
            maybe_text(title) == if self@.queue.len() > 0 {
                Some("Queued ("@ + decimal(self@.queue.len()) + ")"@)
            } else {
                None
            },
    {
        if self.pending_queue.len() == 0 {
            return None;
        }
        Some(join3("Queued (", number_text(self.pending_queue.len() as u64).as_str(), ")"))
    }

    /// The prompts that wait, in the order in which they will be sent.
    pub fn queue_rows(&self) -> (rows: Vec<QueueRow>)
        ensures
            rows@.map_values(|row: QueueRow| row@) == self@.queue.map_values(
                |queued: QueuedView| queue_row_of(queued),
            ),
    {
        let mut rows: Vec<QueueRow> = Vec::new();
        while rows.len() < self.pending_queue.len()
            invariant
                rows@.len() <= self.pending_queue@.len(),
                forall|i: int|
                    0 <= i < rows@.len() ==> (#[trigger] rows@[i])@ == queue_row_of(
                        self.pending_queue@[i]@,
                    ),
            decreases self.pending_queue@.len() - rows@.len(),
        {
            let index: usize = rows.len();
            rows.push(queue_row(&self.pending_queue[index]));
        }
        assert(rows@.map_values(|row: QueueRow| row@) =~= self@.queue.map_values(
            |queued: QueuedView| queue_row_of(queued),
        ));
        rows
    }
}

/// How full the context is, in words: an estimate is marked as one, because a reading and a
/// guess should not look alike. `used` and `max` are the two counts as they are shown.
pub fn context_text(measured: bool, used: &str, max: &str) -> (text: String)
    ensures
        text@ == (if measured {
            seq![]
        } else {
            "≈"@
        }) + used@ + " / "@ + max@,
{
    let mut text = String::new();
    if !measured {
        text.append("≈");
    }
    proof {
        assert(text@ =~= if measured {
            seq![]
        } else {
            "≈"@
        });
    }
    text.append(used);
    text.append(" / ");
    text.append(max);
    text
}

// -- the model menu ----------------------------------------------------------------------

/// A line of the model menu.
#[derive(Debug)]
pub enum MenuRow {
    Provider(String),
    Model { option: ModelOption, id: u64, current: bool },
}

pub enum MenuRowView {
    Provider(Seq<char>),
    Model { option: ModelView, id: u64, current: bool },
}

impl View for MenuRow {
    type V = MenuRowView;

    open spec fn view(&self) -> MenuRowView {
        match self {
            MenuRow::Provider(provider) => MenuRowView::Provider(provider@),
            MenuRow::Model { option, id, current } => MenuRowView::Model {
                option: option@,
                id: *id,
                current: *current,
            },
        }
    }
}

/// What the lines of a menu hold, in order.
pub open spec fn rows_view(rows: Seq<MenuRow>) -> Seq<MenuRowView> {
    rows.map_values(|row: MenuRow| row@)
}

/// The line of one model: what picking it chooses, and whether it is the current one.
pub open spec fn model_row_of(
    option: ModelView,
    provider: Seq<char>,
    model: Seq<char>,
) -> MenuRowView {
    MenuRowView::Model {
        option,
        id: hash_of(encode_utf8(option.provider + "\u{1f}"@ + option.model)),
        current: option.provider == provider && option.model == model,
    }
}

/// The lines of one provider: its name and its models.
pub open spec fn group_rows(
    group: (Seq<char>, Seq<ModelView>),
    provider: Seq<char>,
    model: Seq<char>,
) -> Seq<MenuRowView> {
    seq![MenuRowView::Provider(group.0)] + group.1.map_values(
        |option: ModelView| model_row_of(option, provider, model),
    )
}

/// The lines of the menu.
pub open spec fn menu_rows_of(
    groups: Seq<(Seq<char>, Seq<ModelView>)>,
    provider: Seq<char>,
    model: Seq<char>,
) -> Seq<MenuRowView>
    decreases groups.len(),
{
    if groups.len() == 0 {
        seq![]
    } else {
        menu_rows_of(groups.drop_last(), provider, model) + group_rows(
            groups.last(),
            provider,
            model,
        )
    }
}

fn push_group(
    rows: &mut Vec<MenuRow>,
    name: &str,
    models: &Vec<ModelOption>,
    provider: &str,
    model: &str,
)
    ensures
        rows_view(final(rows)@) == rows_view(old(rows)@) + group_rows(
            (name@, models_view(models@)),
            provider@,
            model@,
        ),
{
    let ghost before = rows_view(rows@);
    let ghost drawn = group_rows((name@, models_view(models@)), provider@, model@);
    rows.push(MenuRow::Provider(name.to_owned()));
    let mut index: usize = 0;
    assert(rows_view(rows@) =~= before + drawn.take(1));
    while index < models.len()
        invariant
            index <= models@.len(),
            drawn == group_rows((name@, models_view(models@)), provider@, model@),
            rows_view(rows@) == before + drawn.take(index + 1),
        decreases models@.len() - index,
    {
        let option: &ModelOption = &models[index];
        let current: bool = same_text(option.provider.as_str(), provider) && same_text(
            option.model.as_str(),
            model,
        );
        let ghost earlier = rows@;
        let row = MenuRow::Model {
            option: option.clone(),
            id: model_id(option.provider.as_str(), option.model.as_str()),
            current,
        };
        assert(row@ == model_row_of(option@, provider@, model@));
        rows.push(row);
        proof {
            assert(models_view(models@)[index as int] == option@);
            assert(rows_view(rows@) =~= rows_view(earlier).push(row@));
            assert(drawn[index + 1] == row@);
            assert(drawn.take(index + 2) =~= drawn.take(index + 1).push(row@));
        }
        index += 1;
    }
    assert(drawn.take(models@.len() as int + 1) =~= drawn);
}

/// The lines of the model menu, the current model marked.
pub fn model_menu(
    groups: &Vec<(String, Vec<ModelOption>)>,
    current_provider: &str,
    current_model: &str,
) -> (rows: Vec<MenuRow>)
    ensures
        rows_view(rows@) == menu_rows_of(
            menu_view(groups@),
            current_provider@,
            current_model@,
        ),
{
    let ghost all = menu_view(groups@);
    let mut rows: Vec<MenuRow> = Vec::new();
    let mut index: usize = 0;
    assert(all.take(0) =~= Seq::<(Seq<char>, Seq<ModelView>)>::empty());
    assert(rows_view(rows@) =~= seq![]);
    while index < groups.len()
        invariant
            all == menu_view(groups@),
            index <= groups@.len(),
            rows_view(rows@) == menu_rows_of(
                all.take(index as int),
                current_provider@,
                current_model@,
            ),
        decreases groups@.len() - index,
    {
        let group: &(String, Vec<ModelOption>) = &groups[index];
        push_group(&mut rows, group.0.as_str(), &group.1, current_provider, current_model);
        proof {
            assert(all[index as int] == (group.0@, models_view(group.1@)));
            assert(all.take(index + 1).drop_last() =~= all.take(index as int));
        }
        index += 1;
    }
    assert(all.take(all.len() as int) =~= all);
    rows
}

} // verus!
