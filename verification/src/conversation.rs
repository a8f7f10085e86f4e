//! Conversations as they are stored and replayed: the events a session
//! records, the messages a stored session gives the provider, and the
//! transcript messages it shows when resumed.
//!
//! The caller appends events to the session's file and reads them back.

use vstd::prelude::*;
use crate::agent::{AgentMessage, ToolCall, ToolResult};
use crate::code_map::copy_option;
use crate::state::{Message, MessageKind, Role};
use crate::text::{from_chars, owned, push_str, to_chars, chars_equal};
use crate::ui::{command_named, register_project_prompt, register_prompt_text, slash_command_prompt, SlashCommand};

verus! {

broadcast use vstd::string::group_string_axioms;

/// What a stored conversation event records.
#[derive(Debug, Clone, Copy, PartialEq, Eq, Structural)]
pub enum EventKind {
    User,
    Thought,
    Assistant,
    FunctionCallOutput,
    Error,
    Cancelled,
}

impl EventKind {
    /// The stored name of the kind.
    pub fn code(&self) -> (result: &'static str)
        ensures
            result@ == match *self {
                EventKind::User => "user"@,
                EventKind::Thought => "thought"@,
                EventKind::Assistant => "assistant"@,
                EventKind::FunctionCallOutput => "function_call_output"@,
                EventKind::Error => "error"@,
                EventKind::Cancelled => "cancelled"@,
            },
    {
        match self {
            EventKind::User => "user",
            EventKind::Thought => "thought",
            EventKind::Assistant => "assistant",
            EventKind::FunctionCallOutput => "function_call_output",
            EventKind::Error => "error",
            EventKind::Cancelled => "cancelled",
        }
    }
}

/// One stored event of a session. Tool input and output are JSON text.
#[derive(Debug)]
pub struct ConversationEvent {
    pub kind: EventKind,
    pub content: String,
    pub duration_ms: Option<u64>,
    pub tool_call_id: Option<String>,
    pub tool_name: Option<String>,
    pub tool_input: Option<String>,
    pub tool_output: Option<String>,
    pub created_at_ms: u64,
}

impl ConversationEvent {
    /// A message event recorded at `now_ms`.
    pub fn message(kind: EventKind, content: String, duration_ms: Option<u64>, now_ms: u64) -> (result: Self)
        ensures
            result == (ConversationEvent {
                kind,
                content,
                duration_ms,
                tool_call_id: None,
                tool_name: None,
                tool_input: None,
                tool_output: None,
                created_at_ms: now_ms,
            }),
    {
        ConversationEvent {
            kind,
            content,
            duration_ms,
            tool_call_id: None,
            tool_name: None,
            tool_input: None,
            tool_output: None,
            created_at_ms: now_ms,
        }
    }

    /// The record of a tool call and its result, made at `now_ms`.
    pub fn function_call_output(
        tool_call_id: String,
        tool_name: String,
        tool_input: String,
        tool_output: String,
        now_ms: u64,
    ) -> (result: Self)
        ensures
            result.kind == EventKind::FunctionCallOutput,
            result.content@.len() == 0,
            result.duration_ms is None,
            result.tool_call_id == Some(tool_call_id),
            result.tool_name == Some(tool_name),
            result.tool_input == Some(tool_input),
            result.tool_output == Some(tool_output),
            result.created_at_ms == now_ms,
    {
        ConversationEvent {
            kind: EventKind::FunctionCallOutput,
            content: String::new(),
            duration_ms: None,
            tool_call_id: Some(tool_call_id),
            tool_name: Some(tool_name),
            tool_input: Some(tool_input),
            tool_output: Some(tool_output),
            created_at_ms: now_ms,
        }
    }
}

// ----------------------------------------------------------------------------
// Messages for the provider
// ----------------------------------------------------------------------------

/// How the agent should use its tools, given to the provider first.
pub const TOOL_USE_POLICY: &'static str = "Treat every request as read-only unless the user explicitly asks to prepare, register, add, modify, delete, or configure something. Call `prepare_project` only when the user explicitly asks to prepare, register, or add a project; never call it merely because a trusted workspace is available. For an explicit prepare/register/add request about the current trusted workspace, use `prepare_project` with {\"path\":\".\"}. When the user asks which Roven tools or capabilities are available, call `list_tools` with {} and rely on its returned names, descriptions, and input schemas. When the user asks for the current workspace path, call `list_directory` with {\"path\":\".\"} and report its `workspace_path` value verbatim; never report `.` as the human-facing path. When the user asks about a file's contents, call `list_directory` to locate it, then call `read_file` with a non-empty workspace-relative path. `list_directory` lists only immediate entries and may return `truncated: true`; use returned entry paths as the next tool input. If a filesystem tool returns an error, correct the path from its reason and do not retry the unchanged request. Rely on the returned content and never claim that a file was read without a tool result.";

/// The opening of the system message.
pub const SYSTEM_PREAMBLE: &'static str = "You are Roven, a concise project assistant. The Roven harness authorizes and executes tools; do not claim a tool ran unless its result confirms it.\n\n";

/// The system message: the preamble, the tool-use policy and, when there
/// are any, the project's own instructions.
pub open spec fn system_text(instructions: Seq<char>) -> Seq<char> {
    SYSTEM_PREAMBLE@ + TOOL_USE_POLICY@ + if instructions.len() == 0 {
        Seq::<char>::empty()
    } else {
        "\n\nProject instructions:\n"@ + instructions
    }
}

/// Writes the system message.
pub fn system_prompt(instructions: &str) -> (result: String)
    ensures
        result@ == system_text(instructions@),
{
    let mut out: Vec<char> = Vec::new();
    push_str(&mut out, SYSTEM_PREAMBLE);
    push_str(&mut out, TOOL_USE_POLICY);
    let extra = to_chars(instructions);
    if extra.len() > 0 {
        push_str(&mut out, "\n\nProject instructions:\n");
        push_str(&mut out, instructions);
    }
    proof {
        if instructions@.len() == 0 {
            assert(out@ =~= SYSTEM_PREAMBLE@ + TOOL_USE_POLICY@ + Seq::<char>::empty());
        }
    }
    from_chars(out.as_slice())
}

/// A message for the provider, in specifications.
pub enum MessageShape {
    System(Seq<char>),
    User(Seq<char>),
    Assistant { content: Seq<char>, reasoning: Option<Seq<char>>, calls: Seq<(Seq<char>, Seq<char>, Seq<char>)> },
    Tool { id: Seq<char>, name: Seq<char>, output: Seq<char> },
}

/// The view of an optional text.
pub open spec fn opt_view(s: Option<String>) -> Option<Seq<char>> {
    match s {
        Some(t) => Some(t@),
        None => None,
    }
}

/// The calls of an assistant message as (ID, name, arguments).
pub open spec fn call_views(calls: Seq<ToolCall>) -> Seq<(Seq<char>, Seq<char>, Seq<char>)> {
    calls.map_values(|c: ToolCall| (c.id@, c.name@, c.arguments@))
}

/// The shape of a message for the provider.
pub open spec fn shape(m: AgentMessage) -> MessageShape {
    match m {
        AgentMessage::System { content } => MessageShape::System(content@),
        AgentMessage::User { content } => MessageShape::User(content@),
        AgentMessage::Assistant { content, reasoning, tool_calls } => MessageShape::Assistant {
            content: content@,
            reasoning: opt_view(reasoning),
            calls: call_views(tool_calls@),
        },
        AgentMessage::Tool { result } => MessageShape::Tool {
            id: result.tool_call_id@,
            name: result.name@,
            output: result.result@,
        },
    }
}

/// The shapes of a list of messages.
pub open spec fn shapes(ms: Seq<AgentMessage>) -> Seq<MessageShape> {
    ms.map_values(|m: AgentMessage| shape(m))
}

/// What a stored user turn gives the provider: `/register` is sent as the
/// registration instructions.
pub open spec fn user_text(content: Seq<char>) -> Seq<char> {
    if command_named(content) == Some(SlashCommand::Register) {
        register_prompt_text()
    } else {
        content
    }
}

/// Where the run of tool-call records starting at `i` ends.
pub open spec fn run_end(events: Seq<ConversationEvent>, i: int) -> int
    decreases events.len() - i,
{
    if i < 0 || i >= events.len() || events[i].kind != EventKind::FunctionCallOutput {
        i
    } else {
        run_end(events, i + 1)
    }
}

/// A run end lies after its start and is the first event of another kind.
pub proof fn lemma_run_end(events: Seq<ConversationEvent>, i: int)
    requires
        0 <= i <= events.len(),
    ensures
        i <= run_end(events, i) <= events.len(),
        i < events.len() && events[i].kind == EventKind::FunctionCallOutput ==> i < run_end(events, i),
        forall|j: int| i <= j < run_end(events, i) ==> #[trigger] events[j].kind == EventKind::FunctionCallOutput,
        run_end(events, i) < events.len() ==> events[run_end(events, i)].kind != EventKind::FunctionCallOutput,
    decreases events.len() - i,
{
    if i < events.len() && events[i].kind == EventKind::FunctionCallOutput {
        lemma_run_end(events, i + 1);
    }
}

/// A record holding all four parts of a tool call.
pub open spec fn complete_call(e: ConversationEvent) -> bool {
    e.tool_call_id is Some && e.tool_name is Some && e.tool_input is Some && e.tool_output is Some
}

/// The complete tool-call records among events `i..end`, as (ID, name,
/// input, output).
pub open spec fn calls_in(events: Seq<ConversationEvent>, i: int, end: int) -> Seq<(Seq<char>, Seq<char>, Seq<char>, Seq<char>)>
    decreases end - i,
{
    if end <= i {
        Seq::empty()
    } else {
        let prev = calls_in(events, i, end - 1);
        let e = events[end - 1];
        if complete_call(e) {
            prev.push((e.tool_call_id->0@, e.tool_name->0@, e.tool_input->0@, e.tool_output->0@))
        } else {
            prev
        }
    }
}

/// The messages the stored events from `i` on give the provider, with
/// `pending` the reasoning not yet attached to an answer.
pub open spec fn replay(events: Seq<ConversationEvent>, i: int, pending: Option<Seq<char>>) -> Seq<MessageShape>
    decreases events.len() - i,
{
    if i < 0 || i >= events.len() {
        Seq::empty()
    } else {
        let e = events[i];
        match e.kind {
            EventKind::User => seq![MessageShape::User(user_text(e.content@))] + replay(events, i + 1, None),
            EventKind::Thought => replay(
                events,
                i + 1,
                Some(
                    match pending {
                        Some(p) => p + e.content@,
                        None => e.content@,
                    },
                ),
            ),
            EventKind::Assistant | EventKind::Cancelled => seq![
                MessageShape::Assistant { content: e.content@, reasoning: pending, calls: Seq::empty() },
            ] + replay(events, i + 1, None),
            EventKind::Error => replay(events, i + 1, pending),
            EventKind::FunctionCallOutput => {
                proof {
                    lemma_run_end(events, i);
                }
                let end = run_end(events, i);
                let calls = calls_in(events, i, end);
                if calls.len() == 0 {
                    replay(events, end, pending)
                } else {
                    seq![
                        MessageShape::Assistant {
                            content: Seq::empty(),
                            reasoning: pending,
                            calls: calls.map_values(|c: (Seq<char>, Seq<char>, Seq<char>, Seq<char>)| (c.0, c.1, c.2)),
                        },
                    ] + calls.map_values(
                        |c: (Seq<char>, Seq<char>, Seq<char>, Seq<char>)|
                            MessageShape::Tool { id: c.0, name: c.1, output: c.3 },
                    ) + replay(events, end, None)
                }
            },
        }
    }
}

/// The messages a stored session gives the provider: the system message,
/// then the replayed events.
pub open spec fn session_messages(events: Seq<ConversationEvent>, instructions: Seq<char>) -> Seq<MessageShape> {
    seq![MessageShape::System(system_text(instructions))] + replay(events, 0, None)
}

fn copy_text(s: &String) -> (result: String)
    ensures
        result == *s,
{
    s.clone()
}

/// The text a stored user turn sends.
fn user_content(content: &String) -> (result: String)
    ensures
        result@ == user_text(content@),
{
    match slash_command_prompt(content.as_str()) {
        Some(prompt) => owned(prompt),
        None => copy_text(content),
    }
}

/// `pending` with `more` appended, or `more` when nothing is pending.
fn extend_pending(pending: Option<String>, more: &String) -> (result: Option<String>)
    ensures
        opt_view(result) == Some(
            match opt_view(pending) {
                Some(p) => p + more@,
                None => more@,
            },
        ),
{
    match pending {
        Some(p) => {
            let mut out = to_chars(p.as_str());
            push_str(&mut out, more.as_str());
            Some(from_chars(out.as_slice()))
        },
        None => Some(copy_text(more)),
    }
}

/// The messages to send for a stored session: the system message with the
/// project's instructions, then each user turn, answer and group of tool
/// calls with their results, reasoning attached to the answer that follows
/// it, and errors left out.
pub fn request_messages(events: &Vec<ConversationEvent>, instructions: &str) -> (result: Vec<AgentMessage>)
    ensures
        shapes(result@) == session_messages(events@, instructions@),
{
    let mut messages: Vec<AgentMessage> = Vec::new();
    messages.push(AgentMessage::System { content: system_prompt(instructions) });
    let ghost full = session_messages(events@, instructions@);
    let mut pending: Option<String> = None;
    let mut index: usize = 0;
    proof {
        assert(shapes(messages@) =~= seq![MessageShape::System(system_text(instructions@))]);
    }
    while index < events.len()
        invariant
            index <= events@.len(),
            full == session_messages(events@, instructions@),
            shapes(messages@) + replay(events@, index as int, opt_view(pending)) =~= full,
        decreases events@.len() - index,
    {
        let ghost before = messages@;
        let ghost pending_before = opt_view(pending);
        let event = &events[index];
        match event.kind {
            EventKind::User => {
                let content = user_content(&event.content);
                messages.push(AgentMessage::User { content });
                pending = None;
                index = index + 1;
                proof {
                    assert(shapes(messages@) =~= shapes(before).push(
                        MessageShape::User(user_text(events@[index - 1].content@)),
                    ));
                }
            },
            EventKind::Thought => {
                pending = extend_pending(pending, &event.content);
                index = index + 1;
            },
            EventKind::Assistant | EventKind::Cancelled => {
                let reasoning = pending;
                pending = None;
                messages.push(
                    AgentMessage::Assistant {
                        content: copy_text(&event.content),
                        reasoning,
                        tool_calls: Vec::new(),
                    },
                );
                index = index + 1;
                proof {
                    assert(call_views(Seq::<ToolCall>::empty()) =~= Seq::empty());
                    assert(shapes(messages@) =~= shapes(before).push(
                        MessageShape::Assistant {
                            content: events@[index - 1].content@,
                            reasoning: pending_before,
                            calls: Seq::empty(),
                        },
                    ));
                }
            },
            EventKind::Error => {
                index = index + 1;
            },
            EventKind::FunctionCallOutput => {
                let start = index;
                proof {
                    lemma_run_end(events@, start as int);
                }
                let mut calls: Vec<ToolCall> = Vec::new();
                let mut results: Vec<ToolResult> = Vec::new();
                while index < events.len() && is_call_record(&events[index])
                    invariant
                        start <= index <= events@.len(),
                        start < events@.len(),
                        events@[start as int].kind == EventKind::FunctionCallOutput,
                        forall|j: int| start <= j < index ==> #[trigger] events@[j].kind == EventKind::FunctionCallOutput,
                        calls@.len() == results@.len(),
                        call_views(calls@) =~= calls_in(events@, start as int, index as int).map_values(
                            |c: (Seq<char>, Seq<char>, Seq<char>, Seq<char>)| (c.0, c.1, c.2),
                        ),
                        shapes(results@.map_values(|r: ToolResult| AgentMessage::Tool { result: r })) =~= calls_in(
                            events@,
                            start as int,
                            index as int,
                        ).map_values(
                            |c: (Seq<char>, Seq<char>, Seq<char>, Seq<char>)|
                                MessageShape::Tool { id: c.0, name: c.1, output: c.3 },
                        ),
                    decreases events@.len() - index,
                {
                    let record = &events[index];
                    match (&record.tool_call_id, &record.tool_name, &record.tool_input, &record.tool_output) {
                        (Some(id), Some(name), Some(input), Some(output)) => {
                            let ghost cb = calls@;
                            let ghost rb = results@;
                            calls.push(ToolCall { id: copy_text(id), name: copy_text(name), arguments: copy_text(input) });
                            results.push(ToolResult { tool_call_id: copy_text(id), name: copy_text(name), result: copy_text(output) });
                            proof {
                                assert(call_views(calls@) =~= call_views(cb).push((id@, name@, input@)));
                                assert(results@.map_values(|r: ToolResult| AgentMessage::Tool { result: r })
                                    =~= rb.map_values(|r: ToolResult| AgentMessage::Tool { result: r }).push(
                                    AgentMessage::Tool { result: results@.last() },
                                ));
                                let prev = calls_in(events@, start as int, index as int);
                                let tuple = (id@, name@, input@, output@);
                                assert(calls_in(events@, start as int, index + 1) == prev.push(tuple));
                                assert(prev.push(tuple).map_values(
                                    |c: (Seq<char>, Seq<char>, Seq<char>, Seq<char>)|
                                        MessageShape::Tool { id: c.0, name: c.1, output: c.3 },
                                ) =~= prev.map_values(
                                    |c: (Seq<char>, Seq<char>, Seq<char>, Seq<char>)|
                                        MessageShape::Tool { id: c.0, name: c.1, output: c.3 },
                                ).push(MessageShape::Tool { id: id@, name: name@, output: output@ }));
                                assert(prev.push(tuple).map_values(
                                    |c: (Seq<char>, Seq<char>, Seq<char>, Seq<char>)| (c.0, c.1, c.2),
                                ) =~= prev.map_values(
                                    |c: (Seq<char>, Seq<char>, Seq<char>, Seq<char>)| (c.0, c.1, c.2),
                                ).push((id@, name@, input@)));
                                assert(shapes(results@.map_values(|r: ToolResult| AgentMessage::Tool { result: r }))
                                    =~= shapes(rb.map_values(|r: ToolResult| AgentMessage::Tool { result: r })).push(
                                    MessageShape::Tool { id: id@, name: name@, output: output@ },
                                ));
                            }
                        },
                        _ => {
                            proof {
                                assert(!complete_call(events@[index as int]));
                                assert(calls_in(events@, start as int, index + 1) == calls_in(events@, start as int, index as int));
                            }
                        },
                    }
                    index = index + 1;
                }
                proof {
                    lemma_run_end_at(events@, start as int, index as int);
                }
                let ghost found = calls_in(events@, start as int, index as int);
                if calls.len() > 0 {
                    let reasoning = pending;
                    pending = None;
                    let ghost call_shapes = call_views(calls@);
                    messages.push(AgentMessage::Assistant { content: String::new(), reasoning, tool_calls: calls });
                    let ghost mid = messages@;
                    let mut j: usize = 0;
                    while j < results.len()
                        invariant
                            j <= results@.len(),
                            messages@ =~= mid + results@.take(j as int).map_values(|r: ToolResult| AgentMessage::Tool { result: r }),
                        decreases results@.len() - j,
                    {
                        let r = ToolResult {
                            tool_call_id: copy_text(&results[j].tool_call_id),
                            name: copy_text(&results[j].name),
                            result: copy_text(&results[j].result),
                        };
                        messages.push(AgentMessage::Tool { result: r });
                        proof {
                            assert(results@.take(j + 1) =~= results@.take(j as int).push(results@[j as int]));
                        }
                        j = j + 1;
                    }
                    proof {
                        assert(results@.take(j as int) =~= results@);
                        assert(shapes(mid) =~= shapes(before).push(
                            MessageShape::Assistant { content: Seq::empty(), reasoning: pending_before, calls: call_shapes },
                        ));
                        assert(shapes(messages@) =~= shapes(mid) + shapes(
                            results@.map_values(|r: ToolResult| AgentMessage::Tool { result: r }),
                        ));
                        assert(found.len() == calls@.len());
                    }
                } else {
                    proof {
                        assert(found.len() == 0);
                    }
                }
            },
        }
    }
    messages
}

/// Whether an event is a tool-call record.
fn is_call_record(e: &ConversationEvent) -> (result: bool)
    ensures
        result == (e.kind == EventKind::FunctionCallOutput),
{
    match e.kind {
        EventKind::FunctionCallOutput => true,
        _ => false,
    }
}

/// The run starting at `start` ends at `end` when every event before `end`
/// is a tool-call record and `end` is not.
proof fn lemma_run_end_at(events: Seq<ConversationEvent>, start: int, end: int)
    requires
        0 <= start <= end <= events.len(),
        forall|j: int| start <= j < end ==> #[trigger] events[j].kind == EventKind::FunctionCallOutput,
        end < events.len() ==> events[end].kind != EventKind::FunctionCallOutput,
    ensures
        run_end(events, start) == end,
    decreases end - start,
{
    if start < end {
        lemma_run_end_at(events, start + 1, end);
    }
}

// ----------------------------------------------------------------------------
// Transcript messages from stored events
// ----------------------------------------------------------------------------

/// The transcript role a stored event shows with.
pub open spec fn role_of(kind: EventKind) -> Role {
    match kind {
        EventKind::User => Role::User,
        EventKind::Thought => Role::Thought,
        EventKind::FunctionCallOutput => Role::Activity,
        _ => Role::Roven,
    }
}

/// The text a stored message shows: the registration instructions show as
/// the command that sent them.
pub open spec fn shown_text(content: Seq<char>) -> Seq<char> {
    if content == register_prompt_text() {
        "/register"@
    } else {
        content
    }
}

/// An optional text, or `fallback` when absent.
pub open spec fn text_or(value: Option<String>, fallback: Seq<char>) -> Seq<char> {
    match value {
        Some(v) => v@,
        None => fallback,
    }
}

fn take_or(value: Option<String>, fallback: &str) -> (result: String)
    ensures
        result@ == text_or(value, fallback@),
{
    match value {
        Some(v) => v,
        None => owned(fallback),
    }
}

/// The transcript message a stored event shows as when a session resumes.
pub fn event_to_message(event: ConversationEvent) -> (result: Message)
    ensures
        result.role == role_of(event.kind),
        event.kind == EventKind::FunctionCallOutput ==> {
            &&& result.content@.len() == 0
            &&& result.duration_ms is None
            &&& result.kind matches MessageKind::Tool { name, input, output }
            &&& name@ == text_or(event.tool_name, "unknown"@)
            &&& input@ == text_or(event.tool_input, "null"@)
            &&& output@ == text_or(event.tool_output, "null"@)
        },
        event.kind != EventKind::FunctionCallOutput ==> {
            &&& result.content@ == shown_text(event.content@)
            &&& result.duration_ms == event.duration_ms
            &&& result.kind is Text
        },
{
    match event.kind {
        EventKind::FunctionCallOutput => {
            let name = take_or(event.tool_name, "unknown");
            let input = take_or(event.tool_input, "null");
            let output = take_or(event.tool_output, "null");
            Message::tool(name, input, output)
        },
        kind => {
            let role = match kind {
                EventKind::User => Role::User,
                EventKind::Thought => Role::Thought,
                _ => Role::Roven,
            };
            let stored = to_chars(event.content.as_str());
            let prompt = to_chars(register_project_prompt());
            let content = if chars_equal(&stored, &prompt) {
                owned("/register")
            } else {
                event.content
            };
            Message::text(role, content, event.duration_ms)
        },
    }
}

/// What the messages of a finished generation record, as (kind, text,
/// duration): each thought as a thought and each answer as `answer_kind`;
/// user turns, activity and empty messages are not recorded.
pub open spec fn generated(messages: Seq<Message>, answer_kind: EventKind) -> Seq<(EventKind, Seq<char>, Option<u64>)>
    decreases messages.len(),
{
    if messages.len() == 0 {
        Seq::empty()
    } else {
        let prev = generated(messages.drop_last(), answer_kind);
        let m = messages.last();
        if m.content@.len() == 0 {
            prev
        } else if m.role == Role::Thought {
            prev.push((EventKind::Thought, m.content@, m.duration_ms))
        } else if m.role == Role::Roven {
            prev.push((answer_kind, m.content@, m.duration_ms))
        } else {
            prev
        }
    }
}

/// The parts a message event records.
pub open spec fn event_parts(e: ConversationEvent) -> (EventKind, Seq<char>, Option<u64>) {
    (e.kind, e.content@, e.duration_ms)
}

/// The events that record a finished generation, all made at `now_ms`.
pub fn generation_events(messages: &[Message], answer_kind: EventKind, now_ms: u64) -> (result: Vec<ConversationEvent>)
    ensures
        result@.map_values(|e: ConversationEvent| event_parts(e)) == generated(messages@, answer_kind),
        forall|i: int| 0 <= i < result@.len() ==> {
            &&& (#[trigger] result@[i]).created_at_ms == now_ms
            &&& result@[i].tool_call_id is None
            &&& result@[i].tool_name is None
            &&& result@[i].tool_input is None
            &&& result@[i].tool_output is None
        },
{
    let mut events: Vec<ConversationEvent> = Vec::new();
    let mut i: usize = 0;
    while i < messages.len()
        invariant
            i <= messages@.len(),
            events@.map_values(|e: ConversationEvent| event_parts(e)) =~= generated(messages@.take(i as int), answer_kind),
            forall|k: int| 0 <= k < events@.len() ==> {
                &&& (#[trigger] events@[k]).created_at_ms == now_ms
                &&& events@[k].tool_call_id is None
                &&& events@[k].tool_name is None
                &&& events@[k].tool_input is None
                &&& events@[k].tool_output is None
            },
        decreases messages@.len() - i,
    {
        let m = &messages[i];
        proof {
            assert(messages@.take(i + 1).drop_last() =~= messages@.take(i as int));
            assert(messages@.take(i + 1).last() == messages@[i as int]);
        }
        if !m.content.as_str().is_empty() {
            let kind = match m.role {
                Role::Thought => Some(EventKind::Thought),
                Role::Roven => Some(answer_kind),
                _ => None,
            };
            match kind {
                Some(k) => {
                    let ghost before = events@;
                    events.push(ConversationEvent::message(k, copy_text(&m.content), m.duration_ms, now_ms));
                    proof {
                        assert(events@.map_values(|e: ConversationEvent| event_parts(e)) =~= before.map_values(
                            |e: ConversationEvent| event_parts(e),
                        ).push((k, m.content@, m.duration_ms)));
                    }
                },
                None => {},
            }
        }
        i = i + 1;
    }
    proof {
        assert(messages@.take(i as int) =~= messages@);
    }
    events
}

} // verus!
