//! What the terminal does with each key, click and scroll: which screen
//! receives it, how the state changes, and what the caller must then do
//! (open storage, load a session, start or stop a turn, switch the model).

use vstd::prelude::*;
use crate::agent::{ToolCall, ToolResult};
use crate::conversation::{event_parts, generated, generation_events, ConversationEvent, EventKind};
use crate::endpoint::parsed_url;
use crate::model_catalog::{classify, model_valid_for, validate_model, ProviderKind};
use crate::state::{commands_matching, overlay_open, thought_closed, AppState, Message, MessageKind, ModelSelection, ProviderAccessState, Role};
use crate::profiles::ProviderProfile;
use crate::state::ProviderChoice;
use crate::text::{copy_string, from_chars, is_blank, owned, push_str, str_blank, trim, trimmed};
use crate::ui::{command_named, command_word, slash_command, SlashCommand};

verus! {

broadcast use vstd::string::group_string_axioms;

/// A key the terminal reports.
#[derive(Debug, Clone, Copy, PartialEq, Eq, Structural)]
pub enum Key {
    Up,
    Down,
    Tab,
    Enter,
    Esc,
    Backspace,
    Char(char),
    PageUp,
    PageDown,
    Other,
}

/// An input event: a key (`pressed` when it is a press or a repeat, not a
/// release), or a mouse wheel step.
#[derive(Debug, Clone, Copy, PartialEq, Eq, Structural)]
pub enum UiEvent {
    Key { key: Key, pressed: bool, alt: bool, control: bool },
    ScrollUp,
    ScrollDown,
    Other,
}

/// What the caller must do after an event.
#[derive(Debug, PartialEq, Eq)]
pub enum UiAction {
    Nothing,
    Exit,
    TrustWorkspace,
    ResumeSession(String),
    OpenResumePicker,
    OpenModelSwitch,
    StartTurn,
    CancelTurn,
    SwitchModel { id: String, model: String },
}

/// An action in specifications.
pub enum ActionView {
    Nothing,
    Exit,
    TrustWorkspace,
    ResumeSession(Seq<char>),
    OpenResumePicker,
    OpenModelSwitch,
    StartTurn,
    CancelTurn,
    SwitchModel(Seq<char>, Seq<char>),
}

/// The view of an action.
pub open spec fn action_view(a: UiAction) -> ActionView {
    match a {
        UiAction::Nothing => ActionView::Nothing,
        UiAction::Exit => ActionView::Exit,
        UiAction::TrustWorkspace => ActionView::TrustWorkspace,
        UiAction::ResumeSession(id) => ActionView::ResumeSession(id@),
        UiAction::OpenResumePicker => ActionView::OpenResumePicker,
        UiAction::OpenModelSwitch => ActionView::OpenModelSwitch,
        UiAction::StartTurn => ActionView::StartTurn,
        UiAction::CancelTurn => ActionView::CancelTurn,
        UiAction::SwitchModel { id, model } => ActionView::SwitchModel(id@, model@),
    }
}

/// Ctrl+C ends the program from any screen.
pub open spec fn is_interrupt(e: UiEvent) -> bool {
    e matches UiEvent::Key { key: Key::Char(c), control, .. } && c == 'c' && control
}

/// Whether `e` is a pressed key `k`.
pub open spec fn pressed_key(e: UiEvent, k: Key) -> bool {
    e matches UiEvent::Key { key, pressed, .. } && key == k && pressed
}

/// Whether `e` is the key `k`, pressed or released.
pub open spec fn any_key(e: UiEvent, k: Key) -> bool {
    e matches UiEvent::Key { key, .. } && key == k
}

/// The selected conversation of the resume picker.
pub open spec fn selected_resume(s: AppState) -> Option<Seq<char>> {
    match s.resume_entries {
        Some(entries) => if s.resume_index < entries.len() {
            Some(entries@[s.resume_index as int].id@)
        } else {
            None
        },
        None => None,
    }
}

/// The switch a model entry asks for when it is confirmed: the trimmed
/// model for a profile whose key is available and which accepts it.
pub open spec fn requested_switch(s: AppState) -> Option<(Seq<char>, Seq<char>)> {
    match s.model_selection {
        Some(ModelSelection::Model { choice, value, .. }) => if !is_blank(value@)
            && choice.access == ProviderAccessState::Ready && model_valid_for(
            choice.endpoint@,
            trim(value@),
        ) {
            Some((choice.id@, trim(value@)))
        } else {
            None
        },
        _ => None,
    }
}

/// What the caller must do after event `e` arrives in state `s`. The trust
/// prompt, the resume picker, the model switcher, a running agent and the
/// composer receive events in that order of precedence.
pub open spec fn action_for(s: AppState, e: UiEvent) -> ActionView {
    if is_interrupt(e) {
        ActionView::Exit
    } else if !s.trusted {
        if pressed_key(e, Key::Enter) {
            if s.trust_yes_selected {
                ActionView::TrustWorkspace
            } else {
                ActionView::Exit
            }
        } else if pressed_key(e, Key::Esc) {
            ActionView::Exit
        } else {
            ActionView::Nothing
        }
    } else if s.resume_entries is Some {
        if any_key(e, Key::Enter) {
            match selected_resume(s) {
                Some(id) => ActionView::ResumeSession(id),
                None => ActionView::Nothing,
            }
        } else {
            ActionView::Nothing
        }
    } else if s.model_selection is Some {
        if any_key(e, Key::Enter) {
            match requested_switch(s) {
                Some((id, model)) => ActionView::SwitchModel(id, model),
                None => ActionView::Nothing,
            }
        } else {
            ActionView::Nothing
        }
    } else if s.running {
        if any_key(e, Key::Esc) {
            ActionView::CancelTurn
        } else {
            ActionView::Nothing
        }
    } else if pressed_key(e, Key::Enter) && !(e matches UiEvent::Key { alt, .. } && alt)
        && !s.slash_command_menu_open {
        match command_named(s.input@) {
            Some(SlashCommand::Resume) => ActionView::OpenResumePicker,
            Some(SlashCommand::Model) => ActionView::OpenModelSwitch,
            _ => if !is_blank(s.input@) {
                ActionView::StartTurn
            } else {
                ActionView::Nothing
            },
        }
    } else {
        ActionView::Nothing
    }
}

/// The composer's text after an editing key: a typed character or an
/// Alt+Enter line break is appended, and Backspace (while an answer runs,
/// only when pressed) removes the last character.
pub open spec fn edited_input(s: AppState, e: UiEvent) -> Option<Seq<char>> {
    match e {
        UiEvent::Key { key: Key::Char(c), pressed: true, control: false, .. } => Some(s.input@.push(c)),
        UiEvent::Key { key: Key::Enter, pressed: true, alt: true, .. } => Some(s.input@.push('\n')),
        UiEvent::Key { key: Key::Backspace, pressed, .. } => if pressed || !s.running {
            Some(
                if s.input@.len() > 0 {
                    s.input@.drop_last()
                } else {
                    s.input@
                },
            )
        } else {
            None
        },
        _ => None,
    }
}

/// The selection above `i`, staying at the top.
pub open spec fn previous_index(i: int) -> int {
    if i > 0 {
        i - 1
    } else {
        0
    }
}

/// The selection below `i` in a list of `count` entries, stopping at the
/// last one.
pub open spec fn next_index(i: int, count: int) -> int {
    let last = if count > 0 {
        count - 1
    } else {
        0
    };
    if i + 1 < last {
        i + 1
    } else {
        last
    }
}

/// Up and Down move the resume picker's selection.
pub open spec fn resume_moved(s: AppState, e: UiEvent, f: AppState) -> bool {
    &&& any_key(e, Key::Up) ==> f.resume_index == previous_index(s.resume_index as int)
    &&& any_key(e, Key::Down) ==> f.resume_index == next_index(
        s.resume_index as int,
        s.resume_entries->0.len() as int,
    )
}

/// The character of a key typed without Control, pressed or released.
pub open spec fn typed_char(e: UiEvent) -> Option<char> {
    match e {
        UiEvent::Key { key: Key::Char(c), control: false, .. } => Some(c),
        _ => None,
    }
}

/// What confirming the switcher's step does to it: a chosen provider moves
/// on to editing its model; a blank model closes the switcher; a profile
/// without a usable key, or a model its provider refuses, shows why; a
/// switch that can be asked for leaves the switcher as it is.
pub open spec fn confirmed(s: AppState, f: AppState) -> bool {
    match s.model_selection {
        Some(ModelSelection::Provider { entries, index }) => index < entries.len() ==> f.model_selection
            == Some(
            ModelSelection::Model {
                choice: entries@[index as int],
                value: entries@[index as int].model,
                error: None,
            },
        ),
        Some(ModelSelection::Model { choice, value, .. }) => if is_blank(value@) {
            f.model_selection is None
        } else if choice.access != ProviderAccessState::Ready {
            f.model_selection matches Some(ModelSelection::Model { choice: c, value: v, error: Some(e) })
                && c == choice && v == value && e@ == access_problem_text(choice.name@, choice.access)
        } else if !model_valid_for(choice.endpoint@, trim(value@)) {
            f.model_selection matches Some(ModelSelection::Model { choice: c, value: v, error: Some(e) })
                && c == choice && v == value && e@ == unsupported_model_text(
                choice.endpoint@,
                choice.name@,
                trim(value@),
            )
        } else {
            f.model_selection == s.model_selection
        },
        None => true,
    }
}

/// Up and Down move the switcher's provider selection; a typed character
/// and Backspace edit the model being entered and clear its error; Enter
/// confirms the current step.
pub open spec fn model_moved(s: AppState, e: UiEvent, f: AppState) -> bool {
    &&& any_key(e, Key::Enter) ==> confirmed(s, f)
    &&& s.model_selection matches Some(ModelSelection::Provider { entries, index }) ==> {
        &&& any_key(e, Key::Up) ==> f.model_selection == Some(
            ModelSelection::Provider { entries, index: previous_index(index as int) as usize },
        )
        &&& any_key(e, Key::Down) ==> f.model_selection == Some(
            ModelSelection::Provider {
                entries,
                index: next_index(index as int, entries.len() as int) as usize,
            },
        )
    }
    &&& s.model_selection matches Some(ModelSelection::Model { choice, value, .. }) ==> {
        &&& typed_char(e) is Some ==> (f.model_selection matches Some(
            ModelSelection::Model { choice: c, value: v, error: r },
        ) && c == choice && v@ == value@.push(typed_char(e)->0) && r is None)
        &&& any_key(e, Key::Backspace) ==> (f.model_selection matches Some(
            ModelSelection::Model { choice: c, value: v, error: r },
        ) && c == choice && v@ == (if value@.len() > 0 {
            value@.drop_last()
        } else {
            value@
        }) && r is None)
    }
}

/// PageUp and the wheel scroll the transcript back by three lines, never
/// past the limit; PageDown and the wheel scroll it forward.
pub open spec fn scrolled(s: AppState, e: UiEvent, f: AppState) -> bool {
    &&& (any_key(e, Key::PageUp) || e is ScrollUp) ==> f.scroll_offset == (if s.scroll_offset + 3
        < s.limit() {
        s.scroll_offset + 3
    } else {
        s.limit() as int
    })
    &&& (any_key(e, Key::PageDown) || e is ScrollDown) ==> f.scroll_offset == (if s.scroll_offset
        > 3 {
        s.scroll_offset - 3
    } else {
        0
    })
}

/// While the command menu is open: Up and Down move its selection among
/// the commands shown, Esc closes it, and Tab or Enter puts the selected
/// command's word in the composer.
pub open spec fn menu_moved(s: AppState, e: UiEvent, f: AppState) -> bool {
    let shown = commands_matching(s.input@);
    s.menu_flag() ==> {
        &&& pressed_key(e, Key::Up) ==> f.slash_command_index == previous_index(
            s.slash_command_index as int,
        )
        &&& pressed_key(e, Key::Down) ==> f.slash_command_index == next_index(
            s.slash_command_index as int,
            shown.len() as int,
        )
        &&& pressed_key(e, Key::Esc) ==> !f.menu_flag()
        &&& (pressed_key(e, Key::Tab) || (pressed_key(e, Key::Enter) && !(e matches UiEvent::Key {
            alt,
            ..
        } && alt))) && s.slash_command_index < shown.len() ==> f.input@ == command_word(
            shown[s.slash_command_index as int],
        ) && !f.menu_flag()
    }
}

/// The bounds the state's selections keep, so that moving a selection
/// down cannot overflow.
pub open spec fn selections_bounded(s: AppState) -> bool {
    &&& s.slash_command_index < usize::MAX
    &&& s.resume_index < usize::MAX
    &&& s.model_selection matches Some(ModelSelection::Provider { index, .. }) ==> index < usize::MAX
}

/// The message shown when a profile without a usable key is chosen.
pub open spec fn access_problem_text(name: Seq<char>, access: ProviderAccessState) -> Seq<char> {
    match access {
        ProviderAccessState::MissingApiKey => name
            + " is missing an API key. Run `roven auth set` before switching to it."@,
        ProviderAccessState::CredentialStoreUnavailable => name
            + " is unavailable because the credential store could not be read."@,
        ProviderAccessState::Ready => Seq::empty(),
    }
}

/// Writes the message for a profile without a usable key.
pub fn access_problem_message(name: &str, access: ProviderAccessState) -> (result: String)
    ensures
        result@ == access_problem_text(name@, access),
{
    let mut out: Vec<char> = Vec::new();
    match access {
        ProviderAccessState::MissingApiKey => {
            push_str(&mut out, name);
            push_str(&mut out, " is missing an API key. Run `roven auth set` before switching to it.");
        },
        ProviderAccessState::CredentialStoreUnavailable => {
            push_str(&mut out, name);
            push_str(&mut out, " is unavailable because the credential store could not be read.");
        },
        ProviderAccessState::Ready => {},
    }
    from_chars(out.as_slice())
}

/// The message shown when a profile's provider does not accept a model.
pub open spec fn unsupported_model_text(endpoint: Seq<char>, name: Seq<char>, model: Seq<char>) -> Seq<char> {
    match classify(parsed_url(endpoint)) {
        Some(ProviderKind::OllamaCloud) => "`"@ + model + "` is not a supported Ollama Cloud model for "@
            + name + ". Enter one of Ollama's documented cloud model IDs."@,
        Some(ProviderKind::OpenRouter) => "`"@ + model + "` is not a valid OpenRouter model ID for "@
            + name + ". Enter it as `provider/model`."@,
        None => "`"@ + model + "` is not supported for "@ + name + "."@,
    }
}

/// Writes the message for a model the profile's provider does not accept.
pub fn unsupported_model_message(endpoint: &str, name: &str, model: &str) -> (result: String)
    ensures
        result@ == unsupported_model_text(endpoint@, name@, model@),
{
    let mut out: Vec<char> = Vec::new();
    push_str(&mut out, "`");
    push_str(&mut out, model);
    match ProviderKind::from_endpoint(endpoint) {
        Some(ProviderKind::OllamaCloud) => {
            push_str(&mut out, "` is not a supported Ollama Cloud model for ");
            push_str(&mut out, name);
            push_str(&mut out, ". Enter one of Ollama's documented cloud model IDs.");
        },
        Some(ProviderKind::OpenRouter) => {
            push_str(&mut out, "` is not a valid OpenRouter model ID for ");
            push_str(&mut out, name);
            push_str(&mut out, ". Enter it as `provider/model`.");
        },
        None => {
            push_str(&mut out, "` is not supported for ");
            push_str(&mut out, name);
            push_str(&mut out, ".");
        },
    }
    from_chars(out.as_slice())
}

/// The footer's description of the active profile.
pub open spec fn profile_label_text(name: Seq<char>, model: Seq<char>) -> Seq<char> {
    name + " · "@ + model
}

/// Writes the footer's description of the active profile.
pub fn profile_label(name: &str, model: &str) -> (result: String)
    ensures
        result@ == profile_label_text(name@, model@),
{
    let mut out: Vec<char> = Vec::new();
    push_str(&mut out, name);
    push_str(&mut out, " · ");
    push_str(&mut out, model);
    from_chars(out.as_slice())
}

/// Whether a profile's key is usable, from what resolving it gave: a key,
/// no key, or a credential-store failure.
pub fn access_state(resolved: Result<bool, ()>) -> (result: ProviderAccessState)
    ensures
        result == match resolved {
            Ok(true) => ProviderAccessState::Ready,
            Ok(false) => ProviderAccessState::MissingApiKey,
            Err(()) => ProviderAccessState::CredentialStoreUnavailable,
        },
{
    match resolved {
        Ok(true) => ProviderAccessState::Ready,
        Ok(false) => ProviderAccessState::MissingApiKey,
        Err(()) => ProviderAccessState::CredentialStoreUnavailable,
    }
}

/// Whether `choice` offers `profile` with `access`.
pub open spec fn offers(choice: ProviderChoice, profile: ProviderProfile, access: ProviderAccessState) -> bool {
    &&& choice.id@ == profile.id@
    &&& choice.name@ == profile.name@
    &&& choice.endpoint@ == profile.endpoint@
    &&& choice.model@ == profile.model@
    &&& choice.access == access
}

/// The choices offered when switching models: one per profile, in order,
/// with its access state; refused when there is no profile.
pub fn provider_choices(profiles: &Vec<(ProviderProfile, ProviderAccessState)>) -> (result: Result<Vec<ProviderChoice>, String>)
    ensures
        match result {
            Ok(choices) => profiles.len() > 0 && choices.len() == profiles.len() && forall|i: int|
                0 <= i < choices.len() ==> #[trigger] offers(choices[i], profiles[i].0, profiles[i].1),
            Err(message) => profiles.len() == 0 && message@ == "No provider profiles. Run `roven auth set`."@,
        },
{
    if profiles.len() == 0 {
        return Err(owned("No provider profiles. Run `roven auth set`."));
    }
    let mut choices: Vec<ProviderChoice> = Vec::new();
    let mut i: usize = 0;
    while i < profiles.len()
        invariant
            i <= profiles.len(),
            choices.len() == i,
            forall|k: int| 0 <= k < i ==> #[trigger] offers(choices[k], profiles[k].0, profiles[k].1),
        decreases profiles.len() - i,
    {
        let (profile, access) = &profiles[i];
        choices.push(ProviderChoice {
            id: copy_string(&profile.id),
            name: copy_string(&profile.name),
            endpoint: copy_string(&profile.endpoint),
            model: copy_string(&profile.model),
            access: *access,
        });
        i = i + 1;
    }
    Ok(choices)
}

impl AppState {
    /// Handles one input event and says what the caller must do next.
    pub fn handle_event(&mut self, event: UiEvent) -> (result: UiAction)
        requires
            old(self).wf(),
            selections_bounded(*old(self)),
        ensures
            action_view(result) == action_for(*old(self), event),
            final(self).wf(),
            final(self).trusted == old(self).trusted,
            final(self).running == old(self).running,
            result is StartTurn ==> final(self).messages@ == old(self).messages@.push(
                Message { role: Role::User, content: old(self).input, duration_ms: None, kind: MessageKind::Text },
            ),
            is_interrupt(event) ==> *final(self) == *old(self),
            !is_interrupt(event) && old(self).trusted && !overlay_open(*old(self)) ==> match edited_input(*old(self), event) {
                Some(text) => final(self).input@ == text,
                None => true,
            },
            (result is StartTurn || result is OpenResumePicker || result is OpenModelSwitch) ==> final(self).input@.len() == 0,
            !is_interrupt(event) && !old(self).trusted ==> final(self).trust_yes_selected == (
            old(self).trust_yes_selected != (pressed_key(event, Key::Up) || pressed_key(event, Key::Down)
                || pressed_key(event, Key::Tab))),
            !is_interrupt(event) && old(self).trusted && old(self).resume_entries is Some && any_key(event, Key::Esc)
                ==> final(self).resume_entries is None,
            !is_interrupt(event) && old(self).trusted && old(self).resume_entries is None
                && old(self).model_selection is Some && any_key(event, Key::Esc) ==> final(self).model_selection is None,
            !is_interrupt(event) && old(self).trusted && old(self).resume_entries is Some
                ==> resume_moved(*old(self), event, *final(self)),
            !is_interrupt(event) && old(self).trusted && old(self).resume_entries is None
                && old(self).model_selection is Some ==> model_moved(*old(self), event, *final(self)),
            !is_interrupt(event) && old(self).trusted && !overlay_open(*old(self))
                ==> scrolled(*old(self), event, *final(self)),
            !is_interrupt(event) && old(self).trusted && !overlay_open(*old(self)) && old(self).running
                && any_key(event, Key::Esc) ==> opt_label(final(self).status) == Some("Stopping agent..."@),
            !is_interrupt(event) && old(self).trusted && !overlay_open(*old(self)) && !old(self).running
                ==> menu_moved(*old(self), event, *final(self)),
    {
        match event {
            UiEvent::Key { key: Key::Char(c), control: true, .. } => {
                if c == 'c' {
                    return UiAction::Exit;
                }
            },
            _ => {},
        }
        if !self.trusted {
            return self.trust_prompt_event(event);
        }
        if self.resume_entries.is_some() {
            return self.resume_picker_event(event);
        }
        if self.model_selection.is_some() {
            return self.model_switch_event(event);
        }
        if self.running {
            return self.running_event(event);
        }
        self.composer_event(event)
    }

    fn trust_prompt_event(&mut self, event: UiEvent) -> (result: UiAction)
        requires
            !old(self).trusted,
            !is_interrupt(event),
        ensures
            action_view(result) == action_for(*old(self), event),
            final(self).wf() == old(self).wf(),
            final(self).trusted == old(self).trusted,
            final(self).running == old(self).running,
            final(self).trust_yes_selected == (old(self).trust_yes_selected != (pressed_key(event, Key::Up)
                || pressed_key(event, Key::Down) || pressed_key(event, Key::Tab))),
    {
        match event {
            UiEvent::Key { key, pressed: true, .. } => match key {
                Key::Up | Key::Down | Key::Tab => {
                    self.toggle_trust_selection();
                    UiAction::Nothing
                },
                Key::Enter => if self.trust_yes_selected {
                    UiAction::TrustWorkspace
                } else {
                    UiAction::Exit
                },
                Key::Esc => UiAction::Exit,
                _ => UiAction::Nothing,
            },
            _ => UiAction::Nothing,
        }
    }

    fn resume_picker_event(&mut self, event: UiEvent) -> (result: UiAction)
        requires
            old(self).trusted,
            old(self).resume_entries is Some,
            old(self).resume_index < usize::MAX,
            !is_interrupt(event),
        ensures
            action_view(result) == action_for(*old(self), event),
            final(self).wf() == old(self).wf(),
            final(self).trusted == old(self).trusted,
            final(self).running == old(self).running,
            any_key(event, Key::Esc) ==> final(self).resume_entries is None,
            resume_moved(*old(self), event, *final(self)),
    {
        match event {
            UiEvent::Key { key, .. } => match key {
                Key::Esc => {
                    self.close_resume();
                    UiAction::Nothing
                },
                Key::Up => {
                    self.select_previous_resume();
                    UiAction::Nothing
                },
                Key::Down => {
                    self.select_next_resume();
                    UiAction::Nothing
                },
                Key::Enter => match self.selected_resume_id() {
                    Some(id) => UiAction::ResumeSession(owned(id)),
                    None => UiAction::Nothing,
                },
                _ => UiAction::Nothing,
            },
            _ => UiAction::Nothing,
        }
    }

    fn model_switch_event(&mut self, event: UiEvent) -> (result: UiAction)
        requires
            old(self).trusted,
            old(self).resume_entries is None,
            old(self).model_selection is Some,
            selections_bounded(*old(self)),
            !is_interrupt(event),
        ensures
            action_view(result) == action_for(*old(self), event),
            final(self).wf() == old(self).wf(),
            final(self).trusted == old(self).trusted,
            final(self).running == old(self).running,
            any_key(event, Key::Esc) ==> final(self).model_selection is None,
            model_moved(*old(self), event, *final(self)),
    {
        match event {
            UiEvent::Key { key, control, .. } => match key {
                Key::Esc => {
                    self.close_model_selection();
                    UiAction::Nothing
                },
                Key::Up => {
                    self.select_previous_model_provider();
                    UiAction::Nothing
                },
                Key::Down => {
                    self.select_next_model_provider();
                    UiAction::Nothing
                },
                Key::Enter => self.confirm_model_switch(),
                Key::Backspace => {
                    self.backspace_model_entry();
                    UiAction::Nothing
                },
                Key::Char(c) => {
                    if !control {
                        self.push_model_entry_char(c);
                    }
                    UiAction::Nothing
                },
                _ => UiAction::Nothing,
            },
            _ => UiAction::Nothing,
        }
    }

    /// Confirms the switcher's current step: a chosen provider moves on to
    /// its model; a blank model closes the switcher; a profile without a
    /// usable key or a model its provider refuses shows why; anything else
    /// asks for the switch.
    fn confirm_model_switch(&mut self) -> (result: UiAction)
        requires
            old(self).model_selection is Some,
        ensures
            match requested_switch(*old(self)) {
                Some((id, model)) => action_view(result) == ActionView::SwitchModel(id, model),
                None => result is Nothing,
            },
            confirmed(*old(self), *final(self)),
            final(self).wf() == old(self).wf(),
            final(self).trusted == old(self).trusted,
            final(self).running == old(self).running,
    {
        let (id, name, endpoint, access, value) = match &self.model_selection {
            Some(ModelSelection::Model { choice, value, .. }) => (
                owned(choice.id.as_str()),
                owned(choice.name.as_str()),
                owned(choice.endpoint.as_str()),
                choice.access,
                owned(value.as_str()),
            ),
            _ => {
                self.begin_model_entry();
                return UiAction::Nothing;
            },
        };
        if str_blank(value.as_str()) {
            self.close_model_selection();
            return UiAction::Nothing;
        }
        let model = trimmed(value.as_str());
        if !access.is_ready() {
            let message = access_problem_message(name.as_str(), access);
            self.set_model_entry_error(message);
            return UiAction::Nothing;
        }
        if !validate_model(endpoint.as_str(), model.as_str()) {
            let message = unsupported_model_message(endpoint.as_str(), name.as_str(), model.as_str());
            self.set_model_entry_error(message);
            return UiAction::Nothing;
        }
        UiAction::SwitchModel { id, model }
    }

    fn running_event(&mut self, event: UiEvent) -> (result: UiAction)
        requires
            old(self).wf(),
            old(self).trusted,
            old(self).resume_entries is None,
            old(self).model_selection is None,
            old(self).running,
            !is_interrupt(event),
        ensures
            action_view(result) == action_for(*old(self), event),
            final(self).wf(),
            final(self).trusted == old(self).trusted,
            final(self).running == old(self).running,
            match edited_input(*old(self), event) {
                Some(text) => final(self).input@ == text,
                None => true,
            },
            scrolled(*old(self), event, *final(self)),
            any_key(event, Key::Esc) ==> opt_label(final(self).status) == Some("Stopping agent..."@),
    {
        match event {
            UiEvent::Key { key: Key::Esc, .. } => {
                self.status = Some(owned("Stopping agent..."));
                UiAction::CancelTurn
            },
            UiEvent::Key { key: Key::Enter, pressed: true, alt: true, .. } => {
                self.insert_newline();
                UiAction::Nothing
            },
            UiEvent::Key { key: Key::Backspace, pressed: true, .. } => {
                self.backspace();
                UiAction::Nothing
            },
            UiEvent::Key { key: Key::Char(c), pressed: true, control: false, .. } => {
                self.insert_char(c);
                UiAction::Nothing
            },
            UiEvent::Key { key: Key::PageUp, .. } | UiEvent::ScrollUp => {
                self.scroll_up(3);
                UiAction::Nothing
            },
            UiEvent::Key { key: Key::PageDown, .. } | UiEvent::ScrollDown => {
                self.scroll_down(3);
                UiAction::Nothing
            },
            _ => UiAction::Nothing,
        }
    }

    fn composer_event(&mut self, event: UiEvent) -> (result: UiAction)
        requires
            old(self).wf(),
            old(self).trusted,
            old(self).resume_entries is None,
            old(self).model_selection is None,
            !old(self).running,
            selections_bounded(*old(self)),
            !is_interrupt(event),
        ensures
            action_view(result) == action_for(*old(self), event),
            final(self).wf(),
            final(self).trusted == old(self).trusted,
            final(self).running == old(self).running,
            result is StartTurn ==> final(self).messages@ == old(self).messages@.push(
                Message { role: Role::User, content: old(self).input, duration_ms: None, kind: MessageKind::Text },
            ),
            match edited_input(*old(self), event) {
                Some(text) => final(self).input@ == text,
                None => true,
            },
            (result is StartTurn || result is OpenResumePicker || result is OpenModelSwitch) ==> final(self).input@.len() == 0,
            scrolled(*old(self), event, *final(self)),
            menu_moved(*old(self), event, *final(self)),
    {
        let menu = self.slash_command_menu_open;
        match event {
            UiEvent::Key { key: Key::Esc, pressed: true, .. } if menu => {
                self.close_slash_command_menu();
                UiAction::Nothing
            },
            UiEvent::Key { key: Key::Up, pressed: true, .. } if menu => {
                self.select_previous_slash_command();
                UiAction::Nothing
            },
            UiEvent::Key { key: Key::Down, pressed: true, .. } if menu => {
                self.select_next_slash_command();
                UiAction::Nothing
            },
            UiEvent::Key { key: Key::Tab, pressed: true, .. } if menu => {
                self.insert_selected_slash_command();
                UiAction::Nothing
            },
            UiEvent::Key { key: Key::Enter, pressed: true, alt: true, .. } => {
                self.insert_newline();
                UiAction::Nothing
            },
            UiEvent::Key { key: Key::Enter, pressed: true, .. } if menu => {
                self.insert_selected_slash_command();
                UiAction::Nothing
            },
            UiEvent::Key { key: Key::Enter, pressed: true, .. } => {
                match slash_command(self.input.as_str()) {
                    Some(SlashCommand::Resume) => {
                        self.input = String::new();
                        UiAction::OpenResumePicker
                    },
                    Some(SlashCommand::Model) => {
                        self.input = String::new();
                        UiAction::OpenModelSwitch
                    },
                    _ => if self.submit() {
                        UiAction::StartTurn
                    } else {
                        UiAction::Nothing
                    },
                }
            },
            UiEvent::Key { key: Key::Backspace, .. } => {
                self.backspace();
                UiAction::Nothing
            },
            UiEvent::Key { key: Key::Char(c), pressed: true, control: false, .. } => {
                self.insert_char(c);
                UiAction::Nothing
            },
            UiEvent::Key { key: Key::PageUp, .. } | UiEvent::ScrollUp => {
                self.scroll_up(3);
                UiAction::Nothing
            },
            UiEvent::Key { key: Key::PageDown, .. } | UiEvent::ScrollDown => {
                self.scroll_down(3);
                UiAction::Nothing
            },
            _ => UiAction::Nothing,
        }
    }

    /// Records a completed model switch: the footer names the new profile
    /// and model, the switcher closes and the transcript says so.
    pub fn complete_model_switch(&mut self, name: &str, model: &str)
        ensures
            opt_label(final(self).provider_model) == Some(profile_label_text(name@, model@)),
            final(self).model_selection is None,
            final(self).messages@ == old(self).messages@.push(
                Message {
                    role: Role::Activity,
                    content: final(self).messages@.last().content,
                    duration_ms: None,
                    kind: MessageKind::Text,
                },
            ),
            final(self).messages@.last().content@ == "Active provider set to "@ + profile_label_text(name@, model@),
            final(self).wf() == old(self).wf(),
    {
        self.provider_model = Some(profile_label(name, model));
        self.close_model_selection();
        let mut text: Vec<char> = Vec::new();
        push_str(&mut text, "Active provider set to ");
        let label = profile_label(name, model);
        push_str(&mut text, label.as_str());
        self.activity(from_chars(text.as_slice()));
    }
}

/// The view of an optional label.
pub open spec fn opt_label(s: Option<String>) -> Option<Seq<char>> {
    match s {
        Some(t) => Some(t@),
        None => None,
    }
}

/// Whether streamed `text` in `role` was added to the transcript: to the
/// last message when it has that role, else as a new message.
pub open spec fn streamed_into(before: Seq<Message>, after: Seq<Message>, role: Role, text: Seq<char>) -> bool {
    if before.len() > 0 && before.last().role == role {
        after.len() == before.len() && after.last().content@ == before.last().content@ + text
    } else {
        after.len() == before.len() + 1 && after.last().content@ == text && after.last().role == role
    }
}

/// What the agent's worker reports to the interface.
#[derive(Debug)]
pub enum WorkerEvent {
    Thought(String),
    Text(String),
    ContextUsage(usize),
    FunctionCallOutput { call: ToolCall, result: ToolResult },
    Finished,
    Cancelled,
    Error(String),
}

impl AppState {
    /// Applies what the worker reported at `now_ms` and returns the events
    /// the session must record: a tool call with its result; the thoughts
    /// and answers of a generation when it ends (answers recorded as
    /// cancelled when it was stopped); and an error after them.
    pub fn apply_worker_event(&mut self, event: WorkerEvent, now_ms: u64) -> (result: Vec<ConversationEvent>)
        requires
            old(self).generation_start() <= old(self).messages@.len(),
        ensures
            final(self).trusted == old(self).trusted,
            final(self).wf() == old(self).wf(),
            match event {
                WorkerEvent::Thought(text) => {
                    &&& result@.len() == 0
                    &&& crate::state::opt_text(final(self).status) == Some("Thinking..."@)
                    &&& streamed_into(old(self).messages@, final(self).messages@, Role::Thought, text@)
                },
                WorkerEvent::Text(text) => {
                    &&& result@.len() == 0
                    &&& crate::state::opt_text(final(self).status) == Some("Writing response..."@)
                    &&& streamed_into(old(self).messages@, final(self).messages@, Role::Roven, text@)
                },
                WorkerEvent::ContextUsage(n) => result@.len() == 0 && final(self).context_percent == Some(n),
                WorkerEvent::FunctionCallOutput { call, result: output } => {
                    &&& result@.len() == 1
                    &&& result@[0].kind == EventKind::FunctionCallOutput
                    &&& result@[0].tool_call_id == Some(call.id)
                    &&& result@[0].tool_name == Some(call.name)
                    &&& result@[0].tool_input == Some(call.arguments)
                    &&& result@[0].tool_output == Some(output.result)
                    &&& final(self).messages@.len() == old(self).messages@.len() + 1
                    &&& final(self).messages@.last().kind == (crate::state::MessageKind::Tool {
                        name: call.name,
                        input: call.arguments,
                        output: output.result,
                    })
                },
                WorkerEvent::Finished => {
                    &&& thought_closed(old(self).messages@, old(self).started_at(), now_ms, final(self).messages@)
                    &&& final(self).status is None
                    &&& !final(self).running
                    &&& result@.map_values(|e: ConversationEvent| event_parts(e)) == generated(
                        final(self).messages@.skip(old(self).generation_start() as int),
                        EventKind::Assistant,
                    )
                },
                WorkerEvent::Cancelled => {
                    &&& thought_closed(old(self).messages@, old(self).started_at(), now_ms, final(self).messages@.drop_last())
                    &&& final(self).messages@.last().role == Role::Activity
                    &&& final(self).messages@.last().duration_ms is None
                    &&& final(self).messages@.last().kind == MessageKind::Text
                    &&& final(self).status is None
                    &&& !final(self).running
                    &&& final(self).messages@.last().content@ == "Agent stopped"@
                    &&& result@.map_values(|e: ConversationEvent| event_parts(e)) == generated(
                        final(self).messages@.drop_last().skip(old(self).generation_start() as int),
                        EventKind::Cancelled,
                    )
                },
                WorkerEvent::Error(message) => {
                    &&& thought_closed(old(self).messages@, old(self).started_at(), now_ms, final(self).messages@.drop_last())
                    &&& final(self).messages@.last().role == Role::Roven
                    &&& final(self).messages@.last().duration_ms is None
                    &&& final(self).messages@.last().kind == MessageKind::Text
                    &&& final(self).status is None
                    &&& !final(self).running
                    &&& final(self).messages@.last().content@ == "Error: "@ + message@
                    &&& result@.len() > 0
                    &&& result@.last().kind == EventKind::Error
                    &&& result@.last().content == message
                    &&& result@.drop_last().map_values(|e: ConversationEvent| event_parts(e)) == generated(
                        final(self).messages@.drop_last().skip(old(self).generation_start() as int),
                        EventKind::Assistant,
                    )
                },
            },
    {
        match event {
            WorkerEvent::Thought(text) => {
                self.append_thought(text);
                Vec::new()
            },
            WorkerEvent::Text(text) => {
                self.append_agent_text(text, now_ms);
                Vec::new()
            },
            WorkerEvent::ContextUsage(n) => {
                self.context_percent = Some(n);
                Vec::new()
            },
            WorkerEvent::FunctionCallOutput { call, result } => {
                let record = ConversationEvent::function_call_output(
                    call.id.clone(),
                    call.name.clone(),
                    call.arguments.clone(),
                    result.result.clone(),
                    now_ms,
                );
                self.tool(call.name, call.arguments, result.result);
                let mut events: Vec<ConversationEvent> = Vec::new();
                events.push(record);
                events
            },
            WorkerEvent::Finished => {
                self.finish_agent(now_ms);
                generation_events(self.generated_messages(), EventKind::Assistant, now_ms)
            },
            WorkerEvent::Cancelled => {
                self.finish_agent(now_ms);
                let events = generation_events(self.generated_messages(), EventKind::Cancelled, now_ms);
                let ghost mid = self.messages@;
                self.activity(owned("Agent stopped"));
                proof {
                    assert(self.messages@.drop_last() =~= mid);
                }
                events
            },
            WorkerEvent::Error(message) => {
                self.finish_agent(now_ms);
                let mut events = generation_events(self.generated_messages(), EventKind::Assistant, now_ms);
                let ghost mid = self.messages@;
                let ghost recorded = events@;
                events.push(ConversationEvent::message(EventKind::Error, message.clone(), None, now_ms));
                self.agent_error(message, now_ms);
                proof {
                    assert(events@.drop_last() =~= recorded);
                }
                events
            },
        }
    }
}

/// Ctrl+C ends the program from every screen.
pub proof fn law_interrupt_always_exits(s: AppState, e: UiEvent)
    requires
        is_interrupt(e),
    ensures
        action_for(s, e) == ActionView::Exit,
{
}

/// Before the operator trusts the workspace, no event opens storage,
/// starts a turn or changes a profile: it can only trust or exit.
pub proof fn law_untrusted_workspace_only_trusts_or_exits(s: AppState, e: UiEvent)
    requires
        !s.trusted,
    ensures
        action_for(s, e) == ActionView::Exit || action_for(s, e) == ActionView::TrustWorkspace
            || action_for(s, e) == ActionView::Nothing,
{
}

/// A turn starts only from the composer: in a trusted workspace, with no
/// picker open, no agent running, and text that is not blank.
pub proof fn law_turns_start_only_from_the_composer(s: AppState, e: UiEvent)
    requires
        action_for(s, e) == ActionView::StartTurn,
    ensures
        s.trusted,
        !overlay_open(s),
        !s.running,
        !is_blank(s.input@),
{
}

/// A model switch is asked for only with a usable key and a model the
/// profile's provider accepts.
pub proof fn law_switches_only_to_accepted_models(s: AppState, e: UiEvent, id: Seq<char>, model: Seq<char>)
    requires
        action_for(s, e) == ActionView::SwitchModel(id, model),
    ensures
        s.model_selection matches Some(ModelSelection::Model { choice, .. })
            && choice.access == ProviderAccessState::Ready && choice.id@ == id && model_valid_for(choice.endpoint@, model),
{
}

} // verus!
