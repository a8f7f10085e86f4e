//! The terminal interface's state and every change a key press or an
//! agent event makes to it.
//!
//! Time is read by the caller and handed in as milliseconds; tool inputs
//! and outputs are kept as JSON text.

use vstd::prelude::*;
use crate::text::{from_chars, is_blank, push_str, str_blank, to_chars};
use crate::ui::{SlashCommand, StartupProviderStatus, command_word};

verus! {

broadcast use vstd::string::group_string_axioms;

/// Who a transcript message is from.
#[derive(Debug, Clone, Copy, PartialEq, Eq, Structural)]
pub enum Role {
    User,
    Thought,
    Roven,
    Activity,
}

/// Plain text, or a tool call with its JSON input and output.
#[derive(Debug)]
pub enum MessageKind {
    Text,
    Tool { name: String, input: String, output: String },
}

/// One transcript message.
#[derive(Debug)]
pub struct Message {
    pub role: Role,
    pub content: String,
    pub duration_ms: Option<u64>,
    pub kind: MessageKind,
}

impl Message {
    /// A text message.
    pub fn text(role: Role, content: String, duration_ms: Option<u64>) -> (result: Self)
        ensures
            result == (Message { role, content, duration_ms, kind: MessageKind::Text }),
    {
        Message { role, content, duration_ms, kind: MessageKind::Text }
    }

    /// A tool call's activity message.
    pub fn tool(name: String, input: String, output: String) -> (result: Self)
        ensures
            result.role == Role::Activity,
            result.content@.len() == 0,
            result.duration_ms is None,
            result.kind == (MessageKind::Tool { name, input, output }),
    {
        Message {
            role: Role::Activity,
            content: String::new(),
            duration_ms: None,
            kind: MessageKind::Tool { name, input, output },
        }
    }
}

/// A saved conversation offered for resuming.
#[derive(Debug)]
pub struct ResumeEntry {
    pub id: String,
    pub title: String,
    pub updated_at_ms: u64,
}

/// Whether a provider can be used.
#[derive(Debug, Clone, Copy, PartialEq, Eq, Structural)]
pub enum ProviderAccessState {
    Ready,
    MissingApiKey,
    CredentialStoreUnavailable,
}

impl ProviderAccessState {
    /// How the state is shown.
    pub fn label(self) -> (result: &'static str)
        ensures
            result@ == match self {
                ProviderAccessState::Ready => "ready"@,
                ProviderAccessState::MissingApiKey => "API key missing"@,
                ProviderAccessState::CredentialStoreUnavailable => "credential store unavailable"@,
            },
    {
        match self {
            ProviderAccessState::Ready => "ready",
            ProviderAccessState::MissingApiKey => "API key missing",
            ProviderAccessState::CredentialStoreUnavailable => "credential store unavailable",
        }
    }

    /// Whether the provider can be used.
    pub fn is_ready(self) -> (result: bool)
        ensures
            result == (self == ProviderAccessState::Ready),
    {
        match self {
            ProviderAccessState::Ready => true,
            _ => false,
        }
    }
}

/// A provider profile offered in the model switcher.
#[derive(Debug)]
pub struct ProviderChoice {
    pub id: String,
    pub name: String,
    pub endpoint: String,
    pub model: String,
    pub access: ProviderAccessState,
}

impl ProviderChoice {
    /// An equal copy.
    pub fn duplicate(&self) -> (result: Self)
        ensures
            result == *self,
    {
        ProviderChoice {
            id: self.id.clone(),
            name: self.name.clone(),
            endpoint: self.endpoint.clone(),
            model: self.model.clone(),
            access: self.access,
        }
    }
}

/// The model switcher: choosing a provider, then editing its model.
#[derive(Debug)]
pub enum ModelSelection {
    Provider { entries: Vec<ProviderChoice>, index: usize },
    Model { choice: ProviderChoice, value: String, error: Option<String> },
}

/// What ending the timed thought does to the messages: when a generation
/// was timed from `started` and the last message is a thought, that
/// message gets the time since then (none if the clock went back); every
/// other message stays.
pub open spec fn thought_closed(before: Seq<Message>, started: Option<u64>, now_ms: u64, after: Seq<Message>) -> bool {
    match started {
        Some(start) => if before.len() > 0 && before.last().role == Role::Thought {
            after == before.drop_last().push(
                Message {
                    duration_ms: Some(
                        (if now_ms >= start {
                            now_ms - start
                        } else {
                            0
                        }) as u64,
                    ),
                    ..before.last()
                },
            )
        } else {
            after == before
        },
        None => after == before,
    }
}

/// The interface's state.
#[derive(Debug)]
pub struct AppState {
    pub messages: Vec<Message>,
    pub input: String,
    pub scroll_offset: u16,
    pub scroll_limit: u16,
    pub trusted: bool,
    pub project_path: String,
    pub trust_yes_selected: bool,
    pub running: bool,
    pub status: Option<String>,
    pub provider_model: Option<String>,
    pub context_percent: Option<usize>,
    pub generation_start_index: usize,
    pub generation_started_at: Option<u64>,
    pub resume_entries: Option<Vec<ResumeEntry>>,
    pub resume_index: usize,
    pub model_selection: Option<ModelSelection>,
    pub startup_provider_status: Option<StartupProviderStatus>,
    pub slash_command_menu_open: bool,
    pub slash_command_index: usize,
}

/// The commands in menu order.
pub open spec fn all_commands() -> Seq<SlashCommand> {
    seq![SlashCommand::Register, SlashCommand::Resume, SlashCommand::Model]
}

/// The commands of `commands` whose word starts with `input`, in order.
pub open spec fn prefixed_by(commands: Seq<SlashCommand>, input: Seq<char>) -> Seq<SlashCommand>
    decreases commands.len(),
{
    if commands.len() == 0 {
        commands
    } else {
        let prev = prefixed_by(commands.drop_last(), input);
        if input.is_prefix_of(command_word(commands.last())) {
            prev.push(commands.last())
        } else {
            prev
        }
    }
}

/// The commands whose word starts with `input`.
pub open spec fn commands_matching(input: Seq<char>) -> Seq<SlashCommand> {
    prefixed_by(all_commands(), input)
}

/// Whether typing `input` opens the command menu: it starts with `/` and
/// some command's word starts with it.
pub open spec fn opens_menu(input: Seq<char>) -> bool {
    input.len() > 0 && input[0] == '/' && commands_matching(input).len() > 0
}

/// The text of an optional string.
pub open spec fn opt_text(s: Option<String>) -> Option<Seq<char>> {
    match s {
        Some(v) => Some(v@),
        None => None,
    }
}

/// Whether a picker overlay is open, which stops the composer.
pub open spec fn overlay_open(s: AppState) -> bool {
    s.resume_entries is Some || s.model_selection is Some
}

/// The messages' roles and texts.
pub open spec fn texts(messages: Seq<Message>) -> Seq<Seq<char>> {
    messages.map_values(|m: Message| m.content@)
}

fn matching_commands(input: &String) -> (result: Vec<SlashCommand>)
    ensures
        result@ == commands_matching(input@),
{
    let chars = to_chars(input.as_str());
    let mut v: Vec<SlashCommand> = Vec::new();
    let all: [SlashCommand; 3] = [SlashCommand::Register, SlashCommand::Resume, SlashCommand::Model];
    assert(all@ == all_commands());
    let mut i: usize = 0;
    while i < 3
        invariant
            i <= 3,
            all@ == all_commands(),
            chars@ == input@,
            v@ == prefixed_by(all_commands().take(i as int), input@),
        decreases 3 - i,
    {
        let c = all[i];
        let word = to_chars(c.name());
        assert(all_commands().take(i + 1).drop_last() =~= all_commands().take(i as int));
        if crate::text::starts_with(&word, &chars) {
            v.push(c);
        }
        i = i + 1;
    }
    assert(all_commands().take(3) =~= all_commands());
    v
}

impl AppState {
    /// Whether the scroll offset is within its limit.
    pub open spec fn wf(&self) -> bool {
        self.scroll_offset <= self.scroll_limit
    }

    /// The furthest the transcript may scroll.
    pub open spec fn limit(&self) -> u16 {
        self.scroll_limit
    }

    /// Whether the command menu was opened by the input.
    pub open spec fn menu_flag(&self) -> bool {
        self.slash_command_menu_open
    }

    /// When the current generation started, if a thought is timed.
    pub open spec fn started_at(&self) -> Option<u64> {
        self.generation_started_at
    }

    /// Where the current generation's messages begin.
    pub open spec fn generation_start(&self) -> usize {
        self.generation_start_index
    }

    /// A fresh state: nothing typed, nothing open, `yes` preselected.
    pub fn new() -> (result: Self)
        ensures
            result.wf(),
            result.messages@.len() == 0,
            result.input@.len() == 0,
            result.trust_yes_selected,
            !result.running,
            !result.trusted,
            result.status is None,
            !overlay_open(result),
            result.scroll_offset == 0,
            !result.menu_flag(),
    {
        AppState {
            messages: Vec::new(),
            input: String::new(),
            scroll_offset: 0,
            scroll_limit: 0,
            trusted: false,
            project_path: String::new(),
            trust_yes_selected: true,
            running: false,
            status: None,
            provider_model: None,
            context_percent: None,
            generation_start_index: 0,
            generation_started_at: None,
            resume_entries: None,
            resume_index: 0,
            model_selection: None,
            startup_provider_status: None,
            slash_command_menu_open: false,
            slash_command_index: 0,
        }
    }

    /// Flips the trust prompt's selection.
    pub fn toggle_trust_selection(&mut self)
        ensures
            final(self).trusted == old(self).trusted,
            final(self).running == old(self).running,
            final(self).trust_yes_selected == !old(self).trust_yes_selected,
            final(self).wf() == old(self).wf(),
    {
        self.trust_yes_selected = !self.trust_yes_selected;
    }

    fn update_slash_command_menu(&mut self)
        ensures
            *final(self) == (AppState {
                slash_command_menu_open: opens_menu(old(self).input@),
                slash_command_index: 0,
                ..*old(self)
            }),
    {
        let chars = to_chars(self.input.as_str());
        let open = chars.len() > 0 && chars[0] == '/' && matching_commands(&self.input).len() > 0;
        self.slash_command_menu_open = open;
        self.slash_command_index = 0;
    }

    /// Types a character into the composer, unless a picker is open.
    pub fn insert_char(&mut self, character: char)
        ensures
            final(self).trusted == old(self).trusted,
            final(self).running == old(self).running,
            overlay_open(*old(self)) ==> *final(self) == *old(self),
            !overlay_open(*old(self)) ==> final(self).input@ == old(self).input@.push(character)
                && final(self).menu_flag() == opens_menu(final(self).input@)
                && final(self).slash_command_index == 0,
            final(self).messages == old(self).messages,
            final(self).wf() == old(self).wf(),
    {
        if self.resume_entries.is_none() && self.model_selection.is_none() {
            let mut chars = to_chars(self.input.as_str());
            chars.push(character);
            self.input = from_chars(chars.as_slice());
            self.update_slash_command_menu();
        }
    }

    /// Deletes the composer's last character, unless a picker is open.
    pub fn backspace(&mut self)
        ensures
            final(self).trusted == old(self).trusted,
            final(self).running == old(self).running,
            overlay_open(*old(self)) ==> *final(self) == *old(self),
            !overlay_open(*old(self)) ==> final(self).input@ == (if old(self).input@.len() > 0 {
                old(self).input@.drop_last()
            } else {
                old(self).input@
            }) && final(self).menu_flag() == opens_menu(final(self).input@),
            final(self).messages == old(self).messages,
            final(self).wf() == old(self).wf(),
    {
        if self.resume_entries.is_none() && self.model_selection.is_none() {
            let mut chars = to_chars(self.input.as_str());
            if chars.len() > 0 {
                chars.pop();
            }
            self.input = from_chars(chars.as_slice());
            self.update_slash_command_menu();
        }
    }

    /// Starts a new composer line, unless a picker is open.
    pub fn insert_newline(&mut self)
        ensures
            final(self).trusted == old(self).trusted,
            final(self).running == old(self).running,
            overlay_open(*old(self)) ==> *final(self) == *old(self),
            !overlay_open(*old(self)) ==> final(self).input@ == old(self).input@.push('\n'),
            final(self).messages == old(self).messages,
            final(self).wf() == old(self).wf(),
    {
        if self.resume_entries.is_none() && self.model_selection.is_none() {
            let mut chars = to_chars(self.input.as_str());
            chars.push('\n');
            self.input = from_chars(chars.as_slice());
            self.update_slash_command_menu();
        }
    }

    /// The commands the menu shows: while it is open and no agent runs,
    /// those whose word starts with the input.
    pub fn slash_commands(&self) -> (result: Vec<SlashCommand>)
        ensures
            result@ == (if self.menu_flag() && !self.running {
                commands_matching(self.input@)
            } else {
                Seq::<SlashCommand>::empty()
            }),
    {
        if self.slash_command_menu_open && !self.running {
            matching_commands(&self.input)
        } else {
            Vec::new()
        }
    }

    /// Whether the command menu is showing.
    pub fn slash_command_menu_open(&self) -> (result: bool)
        ensures
            result == (self.menu_flag() && !self.running && commands_matching(self.input@).len()
                > 0),
    {
        self.slash_commands().len() > 0
    }

    /// Closes the command menu.
    pub fn close_slash_command_menu(&mut self)
        ensures
            final(self).trusted == old(self).trusted,
            final(self).running == old(self).running,
            *final(self) == (AppState { slash_command_menu_open: false, ..*old(self) }),
    {
        self.slash_command_menu_open = false;
    }

    /// Moves the menu selection up.
    pub fn select_previous_slash_command(&mut self)
        ensures
            final(self).trusted == old(self).trusted,
            final(self).running == old(self).running,
            final(self).slash_command_index == (if old(self).slash_command_index > 0 {
                old(self).slash_command_index - 1
            } else {
                0
            }),
            final(self).wf() == old(self).wf(),
    {
        self.slash_command_index = self.slash_command_index.saturating_sub(1);
    }

    /// Moves the menu selection down, stopping at the last command shown.
    pub fn select_next_slash_command(&mut self)
        requires
            old(self).slash_command_index < usize::MAX,
        ensures
            final(self).trusted == old(self).trusted,
            final(self).running == old(self).running,
            ({
                let shown = if old(self).menu_flag() && !old(self).running {
                    commands_matching(old(self).input@).len() as int
                } else {
                    0
                };
                let last = if shown > 0 {
                    shown - 1
                } else {
                    0
                };
                final(self).slash_command_index == if old(self).slash_command_index + 1 < last {
                    old(self).slash_command_index + 1
                } else {
                    last
                }
            }),
            final(self).wf() == old(self).wf(),
    {
        let shown = self.slash_commands().len();
        let last = shown.saturating_sub(1);
        let next = self.slash_command_index + 1;
        self.slash_command_index = if next < last {
            next
        } else {
            last
        };
    }

    /// Puts the selected command's word in the composer and closes the menu.
    pub fn insert_selected_slash_command(&mut self)
        ensures
            final(self).trusted == old(self).trusted,
            final(self).running == old(self).running,
            ({
                let shown = if old(self).menu_flag() && !old(self).running {
                    commands_matching(old(self).input@)
                } else {
                    Seq::<SlashCommand>::empty()
                };
                if old(self).slash_command_index < shown.len() {
                    final(self).input@ == command_word(shown[old(self).slash_command_index as int])
                        && !final(self).menu_flag()
                } else {
                    *final(self) == *old(self)
                }
            }),
            final(self).messages == old(self).messages,
            final(self).wf() == old(self).wf(),
    {
        let shown = self.slash_commands();
        if self.slash_command_index < shown.len() {
            let command = shown[self.slash_command_index];
            self.input = crate::text::owned(command.name());
            self.close_slash_command_menu();
        }
    }

    /// Sends the composer's text as the user's turn: refused while an agent
    /// runs, a picker is open, or the text is blank.
    pub fn submit(&mut self) -> (result: bool)
        ensures
            result == (!old(self).running && !overlay_open(*old(self)) && !is_blank(
                old(self).input@,
            )),
            result ==> final(self).messages@ == old(self).messages@.push(
                Message {
                    role: Role::User,
                    content: old(self).input,
                    duration_ms: None,
                    kind: MessageKind::Text,
                },
            ) && final(self).input@.len() == 0 && final(self).scroll_offset == 0
                && !final(self).menu_flag(),
            !result ==> *final(self) == *old(self),
            final(self).limit() == old(self).limit(),
            final(self).running == old(self).running,
            final(self).trusted == old(self).trusted,
            final(self).wf() == (result || old(self).wf()),
    {
        if self.running || self.resume_entries.is_some() || self.model_selection.is_some()
            || str_blank(self.input.as_str()) {
            return false;
        }
        let mut content = String::new();
        std::mem::swap(&mut content, &mut self.input);
        self.close_slash_command_menu();
        self.messages.push(Message::text(Role::User, content, None));
        self.scroll_offset = 0;
        true
    }

    /// The last message's text, when the user sent it.
    pub fn last_user_message(&self) -> (result: Option<&str>)
        ensures
            match result {
                Some(s) => self.messages@.len() > 0 && self.messages@.last().role == Role::User
                    && s@ == self.messages@.last().content@,
                None => self.messages@.len() == 0 || self.messages@.last().role != Role::User,
            },
    {
        if self.messages.len() == 0 {
            return None;
        }
        let last = &self.messages[self.messages.len() - 1];
        match last.role {
            Role::User => Some(last.content.as_str()),
            _ => None,
        }
    }

    /// Marks an agent turn as started at `now_ms`.
    pub fn start_agent(&mut self, now_ms: u64)
        ensures
            final(self).running,
            opt_text(final(self).status) == Some("Agent working..."@),
            final(self).context_percent is None,
            final(self).generation_start() == old(self).messages.len(),
            final(self).started_at() == Some(now_ms),
            final(self).messages == old(self).messages,
            final(self).input == old(self).input,
            final(self).wf() == old(self).wf(),
    {
        self.running = true;
        self.status = Some(crate::text::owned("Agent working..."));
        self.context_percent = None;
        self.generation_start_index = self.messages.len();
        self.generation_started_at = Some(now_ms);
    }

    /// Appends `text` to the message being built when it has `role`, else
    /// starts one.
    fn append_to_last(&mut self, role: Role, text: &str)
        ensures
            final(self).trusted == old(self).trusted,
            ({
                let m = old(self).messages@;
                if m.len() > 0 && m.last().role == role {
                    final(self).messages@.len() == m.len() && final(self).messages@.drop_last()
                        == m.drop_last() && final(self).messages@.last().content@ == m.last().content@
                        + text@ && final(self).messages@.last().role == role
                } else {
                    final(self).messages@.len() == m.len() + 1 && final(self).messages@.drop_last()
                        == m && final(self).messages@.last().content@ == text@
                        && final(self).messages@.last().role == role
                        && final(self).messages@.last().duration_ms is None
                }
            }),
            final(self).input == old(self).input,
            final(self).running == old(self).running,
            final(self).status == old(self).status,
            final(self).started_at() == old(self).started_at(),
            final(self).wf() == old(self).wf(),
    {
        let n = self.messages.len();
        if n > 0 && self.messages[n - 1].role == role {
            let ghost before = self.messages@;
            let mut last = self.messages.pop().unwrap();
            let mut chars = to_chars(last.content.as_str());
            push_str(&mut chars, text);
            last.content = from_chars(chars.as_slice());
            self.messages.push(last);
            assert(self.messages@.drop_last() =~= before.drop_last());
        } else {
            let ghost before = self.messages@;
            self.messages.push(Message::text(role, crate::text::owned(text), None));
            assert(self.messages@.drop_last() =~= before);
        }
    }

    /// Records a thought delta: it extends the current thought or starts one.
    pub fn append_thought(&mut self, text: String)
        ensures
            final(self).trusted == old(self).trusted,
            opt_text(final(self).status) == Some("Thinking..."@),
            ({
                let m = old(self).messages@;
                if m.len() > 0 && m.last().role == Role::Thought {
                    final(self).messages@.len() == m.len() && final(self).messages@.last().content@
                        == m.last().content@ + text@
                } else {
                    final(self).messages@.len() == m.len() + 1 && final(self).messages@.last().content@
                        == text@ && final(self).messages@.last().role == Role::Thought
                }
            }),
            final(self).wf() == old(self).wf(),
    {
        self.status = Some(crate::text::owned("Thinking..."));
        self.append_to_last(Role::Thought, text.as_str());
    }

    /// Ends the timed thought: the last message, when a thought, gets the
    /// time since the generation started.
    fn finish_active_thought(&mut self, now_ms: u64)
        ensures
            thought_closed(old(self).messages@, old(self).started_at(), now_ms, final(self).messages@),
            final(self).started_at() is None,
            final(self).messages@.len() == old(self).messages@.len(),
            forall|i: int|
                0 <= i < old(self).messages@.len() - 1 ==> final(self).messages@[i]
                    == old(self).messages@[i],
            old(self).messages@.len() > 0 ==> final(self).messages@.last().content
                == old(self).messages@.last().content && final(self).messages@.last().role
                == old(self).messages@.last().role,
            match old(self).started_at() {
                Some(start) => old(self).messages@.len() > 0 && old(self).messages@.last().role
                    == Role::Thought ==> final(self).messages@.last().duration_ms == Some(
                    (if now_ms >= start {
                        now_ms - start
                    } else {
                        0
                    }) as u64,
                ),
                None => final(self).messages == old(self).messages,
            },
            final(self).input == old(self).input,
            final(self).running == old(self).running,
            final(self).status == old(self).status,
            final(self).generation_start() == old(self).generation_start(),
            final(self).trusted == old(self).trusted,
            final(self).wf() == old(self).wf(),
    {
        let started = match self.generation_started_at.take() {
            Some(s) => s,
            None => {
                return;
            },
        };
        let n = self.messages.len();
        if n > 0 && self.messages[n - 1].role == Role::Thought {
            let ghost before = self.messages@;
            let mut last = self.messages.pop().unwrap();
            last.duration_ms = Some(now_ms.saturating_sub(started));
            self.messages.push(last);
            assert forall|i: int| 0 <= i < before.len() - 1 implies self.messages@[i] == before[i] by {
                assert(self.messages@[i] == before.drop_last()[i]);
            }
        }
    }

    /// Records an answer delta at `now_ms`: the thought ends, and the text
    /// extends the current answer or starts one.
    pub fn append_agent_text(&mut self, text: String, now_ms: u64)
        ensures
            final(self).trusted == old(self).trusted,
            opt_text(final(self).status) == Some("Writing response..."@),
            final(self).started_at() is None,
            ({
                let m = old(self).messages@;
                if m.len() > 0 && m.last().role == Role::Roven {
                    final(self).messages@.len() == m.len() && final(self).messages@.last().content@
                        == m.last().content@ + text@
                } else {
                    final(self).messages@.len() == m.len() + 1 && final(self).messages@.last().content@
                        == text@ && final(self).messages@.last().role == Role::Roven
                }
            }),
            final(self).wf() == old(self).wf(),
    {
        self.status = Some(crate::text::owned("Writing response..."));
        self.finish_active_thought(now_ms);
        self.append_to_last(Role::Roven, text.as_str());
    }

    /// Ends the agent turn at `now_ms`.
    pub fn finish_agent(&mut self, now_ms: u64)
        ensures
            thought_closed(old(self).messages@, old(self).started_at(), now_ms, final(self).messages@),
            !final(self).running,
            final(self).status is None,
            final(self).started_at() is None,
            final(self).messages@.len() == old(self).messages@.len(),
            old(self).started_at() is None ==> final(self).messages == old(self).messages,
            final(self).input == old(self).input,
            final(self).generation_start() == old(self).generation_start(),
            final(self).trusted == old(self).trusted,
            final(self).wf() == old(self).wf(),
    {
        self.finish_active_thought(now_ms);
        self.running = false;
        self.status = None;
    }

    /// Ends the agent turn with an error message.
    pub fn agent_error(&mut self, message: String, now_ms: u64)
        ensures
            thought_closed(old(self).messages@, old(self).started_at(), now_ms, final(self).messages@.drop_last()),
            final(self).messages@.last() == (Message {
                role: Role::Roven,
                content: final(self).messages@.last().content,
                duration_ms: None,
                kind: MessageKind::Text,
            }),
            !final(self).running,
            final(self).status is None,
            final(self).messages@.len() == old(self).messages@.len() + 1,
            final(self).messages@.last().role == Role::Roven,
            final(self).messages@.last().content@ == "Error: "@ + message@,
            old(self).started_at() is None ==> final(self).messages@.drop_last() == old(self).messages@,
            final(self).generation_start() == old(self).generation_start(),
            final(self).trusted == old(self).trusted,
            final(self).wf() == old(self).wf(),
    {
        self.finish_agent(now_ms);
        let mut text: Vec<char> = Vec::new();
        push_str(&mut text, "Error: ");
        push_str(&mut text, message.as_str());
        let ghost mid = self.messages@;
        self.messages.push(Message::text(Role::Roven, from_chars(text.as_slice()), None));
        assert(self.messages@.drop_last() =~= mid);
    }

    /// Adds an activity line.
    pub fn activity(&mut self, message: String)
        ensures
            final(self).trusted == old(self).trusted,
            final(self).status == old(self).status,
            final(self).running == old(self).running,
            final(self).provider_model == old(self).provider_model,
            final(self).model_selection == old(self).model_selection,
            final(self).messages@ == old(self).messages@.push(
                Message { role: Role::Activity, content: message, duration_ms: None, kind: MessageKind::Text },
            ),
            final(self).wf() == old(self).wf(),
    {
        self.messages.push(Message::text(Role::Activity, message, None));
    }

    /// Adds a tool call's activity.
    pub fn tool(&mut self, name: String, input: String, output: String)
        ensures
            final(self).trusted == old(self).trusted,
            final(self).messages@.len() == old(self).messages@.len() + 1,
            final(self).messages@.drop_last() == old(self).messages@,
            final(self).messages@.last().role == Role::Activity,
            final(self).messages@.last().content@.len() == 0,
            final(self).messages@.last().kind == (MessageKind::Tool { name, input, output }),
            final(self).wf() == old(self).wf(),
    {
        let ghost before = self.messages@;
        self.messages.push(Message::tool(name, input, output));
        assert(self.messages@.drop_last() =~= before);
    }

    /// Opens the resume picker on its first entry.
    pub fn open_resume(&mut self, entries: Vec<ResumeEntry>)
        ensures
            final(self).resume_entries == Some(entries),
            final(self).resume_index == 0,
            final(self).wf() == old(self).wf(),
    {
        self.resume_entries = Some(entries);
        self.resume_index = 0;
    }

    /// Closes the resume picker.
    pub fn close_resume(&mut self)
        ensures
            *final(self) == (AppState { resume_entries: None, ..*old(self) }),
    {
        self.resume_entries = None;
    }

    /// Opens the model switcher on the default profile, or the first.
    pub fn open_model_selection(&mut self, entries: Vec<ProviderChoice>, default_profile_id: Option<&str>)
        ensures
            final(self).model_selection matches Some(ModelSelection::Provider { entries: e, index })
                && e == entries && match default_profile_id {
                Some(id) => if exists|k: int| 0 <= k < entries@.len() && #[trigger] entries@[k].id@ == id@ {
                    entries@[index as int].id@ == id@ && forall|k: int|
                        0 <= k < index ==> #[trigger] entries@[k].id@ != id@
                } else {
                    index == 0
                },
                None => index == 0,
            },
            final(self).wf() == old(self).wf(),
    {
        let index: usize = match default_profile_id {
            Some(id) => match position_of_id(&entries, id) {
                Some(k) => k,
                None => 0,
            },
            None => 0,
        };
        self.model_selection = Some(ModelSelection::Provider { entries, index });
    }

    /// Closes the model switcher.
    pub fn close_model_selection(&mut self)
        ensures
            final(self).trusted == old(self).trusted,
            final(self).running == old(self).running,
            final(self).provider_model == old(self).provider_model,
            *final(self) == (AppState { model_selection: None, ..*old(self) }),
    {
        self.model_selection = None;
    }

    /// Moves the switcher's provider selection up.
    pub fn select_previous_model_provider(&mut self)
        ensures
            final(self).trusted == old(self).trusted,
            final(self).running == old(self).running,
            match old(self).model_selection {
                Some(ModelSelection::Provider { entries, index }) => final(self).model_selection
                    == Some(
                    ModelSelection::Provider {
                        entries,
                        index: if index > 0 {
                            (index - 1) as usize
                        } else {
                            0
                        },
                    },
                ),
                _ => final(self).model_selection == old(self).model_selection,
            },
            final(self).wf() == old(self).wf(),
    {
        match self.model_selection.take() {
            Some(ModelSelection::Provider { entries, index }) => {
                self.model_selection = Some(
                    ModelSelection::Provider { entries, index: index.saturating_sub(1) },
                );
            },
            other => {
                self.model_selection = other;
            },
        }
    }

    /// Moves the switcher's provider selection down, stopping at the last.
    pub fn select_next_model_provider(&mut self)
        requires
            old(self).model_selection matches Some(ModelSelection::Provider { index, .. })
                ==> index < usize::MAX,
        ensures
            final(self).trusted == old(self).trusted,
            final(self).running == old(self).running,
            match old(self).model_selection {
                Some(ModelSelection::Provider { entries, index }) => {
                    let last = if entries.len() > 0 {
                        entries.len() - 1
                    } else {
                        0
                    };
                    final(self).model_selection == Some(
                        ModelSelection::Provider {
                            entries,
                            index: (if index + 1 < last {
                                index + 1
                            } else {
                                last
                            }) as usize,
                        },
                    )
                },
                _ => final(self).model_selection == old(self).model_selection,
            },
            final(self).wf() == old(self).wf(),
    {
        match self.model_selection.take() {
            Some(ModelSelection::Provider { entries, index }) => {
                let last = entries.len().saturating_sub(1);
                let next = index + 1;
                let index = if next < last {
                    next
                } else {
                    last
                };
                self.model_selection = Some(ModelSelection::Provider { entries, index });
            },
            other => {
                self.model_selection = other;
            },
        }
    }

    /// Moves from the chosen provider to editing its model.
    pub fn begin_model_entry(&mut self)
        ensures
            final(self).trusted == old(self).trusted,
            final(self).running == old(self).running,
            match old(self).model_selection {
                Some(ModelSelection::Provider { entries, index }) => if index < entries.len() {
                    final(self).model_selection == Some(
                        ModelSelection::Model {
                            choice: entries@[index as int],
                            value: entries@[index as int].model,
                            error: None,
                        },
                    )
                } else {
                    final(self).model_selection == old(self).model_selection
                },
                _ => final(self).model_selection == old(self).model_selection,
            },
            final(self).wf() == old(self).wf(),
    {
        let next = match &self.model_selection {
            Some(ModelSelection::Provider { entries, index }) => {
                if *index < entries.len() {
                    let choice = entries[*index].duplicate();
                    let value = choice.model.clone();
                    Some(ModelSelection::Model { choice, value, error: None })
                } else {
                    None
                }
            },
            _ => None,
        };
        match next {
            Some(selection) => {
                self.model_selection = Some(selection);
            },
            None => {},
        }
    }

    /// Types a character into the model being edited.
    pub fn push_model_entry_char(&mut self, character: char)
        ensures
            final(self).trusted == old(self).trusted,
            final(self).running == old(self).running,
            match old(self).model_selection {
                Some(ModelSelection::Model { choice, value, .. }) => final(self).model_selection
                    matches Some(ModelSelection::Model { choice: c, value: v, error: e }) && c
                    == choice && v@ == value@.push(character) && e is None,
                _ => final(self).model_selection == old(self).model_selection,
            },
            final(self).wf() == old(self).wf(),
    {
        match self.model_selection.take() {
            Some(ModelSelection::Model { choice, value, error }) => {
                let mut chars = to_chars(value.as_str());
                chars.push(character);
                self.model_selection = Some(
                    ModelSelection::Model { choice, value: from_chars(chars.as_slice()), error: None },
                );
            },
            other => {
                self.model_selection = other;
            },
        }
    }

    /// Deletes the last character of the model being edited.
    pub fn backspace_model_entry(&mut self)
        ensures
            final(self).trusted == old(self).trusted,
            final(self).running == old(self).running,
            match old(self).model_selection {
                Some(ModelSelection::Model { choice, value, .. }) => final(self).model_selection
                    matches Some(ModelSelection::Model { choice: c, value: v, error: e }) && c
                    == choice && v@ == (if value@.len() > 0 {
                    value@.drop_last()
                } else {
                    value@
                }) && e is None,
                _ => final(self).model_selection == old(self).model_selection,
            },
            final(self).wf() == old(self).wf(),
    {
        match self.model_selection.take() {
            Some(ModelSelection::Model { choice, value, error }) => {
                let mut chars = to_chars(value.as_str());
                if chars.len() > 0 {
                    chars.pop();
                }
                self.model_selection = Some(
                    ModelSelection::Model { choice, value: from_chars(chars.as_slice()), error: None },
                );
            },
            other => {
                self.model_selection = other;
            },
        }
    }

    /// Shows why the edited model was refused.
    pub fn set_model_entry_error(&mut self, message: String)
        ensures
            final(self).trusted == old(self).trusted,
            final(self).running == old(self).running,
            match old(self).model_selection {
                Some(ModelSelection::Model { choice, value, .. }) => final(self).model_selection
                    == Some(ModelSelection::Model { choice, value, error: Some(message) }),
                _ => final(self).model_selection == old(self).model_selection,
            },
            final(self).wf() == old(self).wf(),
    {
        match self.model_selection.take() {
            Some(ModelSelection::Model { choice, value, error }) => {
                self.model_selection = Some(ModelSelection::Model { choice, value, error: Some(message) });
            },
            other => {
                self.model_selection = other;
            },
        }
    }

    /// The selected conversation to resume.
    pub fn selected_resume_id(&self) -> (result: Option<&str>)
        ensures
            match self.resume_entries {
                Some(entries) => if self.resume_index < entries.len() {
                    result matches Some(id) && id@ == entries@[self.resume_index as int].id@
                } else {
                    result is None
                },
                None => result is None,
            },
    {
        match &self.resume_entries {
            Some(entries) => {
                if self.resume_index < entries.len() {
                    Some(entries[self.resume_index].id.as_str())
                } else {
                    None
                }
            },
            None => None,
        }
    }

    /// Shows a resumed conversation: the pickers close and the transcript
    /// returns to its latest line.
    pub fn replace_messages(&mut self, messages: Vec<Message>)
        ensures
            final(self).messages == messages,
            final(self).scroll_offset == 0,
            final(self).resume_entries is None,
            final(self).model_selection is None,
            final(self).wf(),
    {
        self.messages = messages;
        self.scroll_offset = 0;
        self.close_resume();
        self.close_model_selection();
    }

    /// The messages of the current generation.
    pub fn generated_messages(&self) -> (result: &[Message])
        requires
            self.generation_start() <= self.messages@.len(),
        ensures
            result@ == self.messages@.skip(self.generation_start() as int),
    {
        let n = self.messages.len();
        let start = self.generation_start_index;
        let r = crate::state::tail(&self.messages, start);
        r
    }

    /// Moves the resume selection up.
    pub fn select_previous_resume(&mut self)
        ensures
            final(self).trusted == old(self).trusted,
            final(self).running == old(self).running,
            final(self).resume_index == (if old(self).resume_index > 0 {
                old(self).resume_index - 1
            } else {
                0
            }),
            final(self).wf() == old(self).wf(),
    {
        self.resume_index = self.resume_index.saturating_sub(1);
    }

    /// Moves the resume selection down, stopping at the last entry.
    pub fn select_next_resume(&mut self)
        requires
            old(self).resume_entries is Some ==> old(self).resume_index < usize::MAX,
        ensures
            final(self).trusted == old(self).trusted,
            final(self).running == old(self).running,
            match old(self).resume_entries {
                Some(entries) => {
                    let last = if entries.len() > 0 {
                        entries.len() - 1
                    } else {
                        0
                    };
                    final(self).resume_index == if old(self).resume_index + 1 < last {
                        old(self).resume_index + 1
                    } else {
                        last
                    }
                },
                None => final(self).resume_index == old(self).resume_index,
            },
            final(self).wf() == old(self).wf(),
    {
        match &self.resume_entries {
            Some(entries) => {
                let last = entries.len().saturating_sub(1);
                let next = self.resume_index + 1;
                self.resume_index = if next < last {
                    next
                } else {
                    last
                };
            },
            None => {},
        }
    }

    /// Scrolls back by `lines`, never past the limit.
    pub fn scroll_up(&mut self, lines: u16)
        requires
            old(self).wf(),
        ensures
            final(self).trusted == old(self).trusted,
            final(self).running == old(self).running,
            final(self).wf(),
            final(self).scroll_offset == (if old(self).scroll_offset + lines < old(self).limit() {
                old(self).scroll_offset + lines
            } else {
                old(self).limit() as int
            }),
            final(self).limit() == old(self).limit(),
    {
        let up = self.scroll_offset.saturating_add(lines);
        self.scroll_offset = if up < self.scroll_limit {
            up
        } else {
            self.scroll_limit
        };
    }

    /// Scrolls forward by `lines`, never past the latest line.
    pub fn scroll_down(&mut self, lines: u16)
        requires
            old(self).wf(),
        ensures
            final(self).trusted == old(self).trusted,
            final(self).running == old(self).running,
            final(self).wf(),
            final(self).scroll_offset == (if old(self).scroll_offset > lines {
                old(self).scroll_offset - lines
            } else {
                0
            }),
            final(self).limit() == old(self).limit(),
    {
        self.scroll_offset = self.scroll_offset.saturating_sub(lines);
    }

    /// Sets how far the transcript may scroll, pulling the offset within it.
    pub fn set_scroll_limit(&mut self, limit: u16)
        ensures
            final(self).wf(),
            final(self).limit() == limit,
            final(self).scroll_offset == (if old(self).scroll_offset < limit {
                old(self).scroll_offset
            } else {
                limit
            }),
    {
        self.scroll_limit = limit;
        if self.scroll_offset > limit {
            self.scroll_offset = limit;
        }
    }

    /// Whether the transcript is scrolled back from its latest line.
    pub fn is_scrolled_away_from_latest(&self) -> (result: bool)
        ensures
            result == (self.scroll_offset > 0),
    {
        self.scroll_offset > 0
    }
}

/// The first entry whose id is `id`.
fn position_of_id(entries: &Vec<ProviderChoice>, id: &str) -> (result: Option<usize>)
    ensures
        match result {
            Some(k) => k < entries@.len() && entries@[k as int].id@ == id@ && forall|j: int|
                0 <= j < k ==> #[trigger] entries@[j].id@ != id@,
            None => !(exists|j: int| 0 <= j < entries@.len() && #[trigger] entries@[j].id@ == id@),
        },
{
    let b = to_chars(id);
    let mut k: usize = 0;
    while k < entries.len()
        invariant
            k <= entries.len(),
            b@ == id@,
            forall|j: int| 0 <= j < k ==> #[trigger] entries@[j].id@ != id@,
        decreases entries.len() - k,
    {
        let a = to_chars(entries[k].id.as_str());
        if crate::text::chars_equal(&a, &b) {
            return Some(k);
        }
        k = k + 1;
    }
    None
}

/// The messages from `start` on.
pub fn tail(messages: &Vec<Message>, start: usize) -> (result: &[Message])
    requires
        start <= messages.len(),
    ensures
        result@ == messages@.skip(start as int),
{
    let s = messages.as_slice();
    let r = vstd::slice::slice_subrange(s, start, s.len());
    assert(r@ =~= messages@.skip(start as int));
    r
}

} // verus!
