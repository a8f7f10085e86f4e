//! One agent turn: what each provider event does, and what the turn comes
//! to once the provider's stream ends.
//!
//! The caller streams the provider, dispatches tool calls and repeats the
//! request while the turn asks for it.  Tool arguments and results are JSON
//! text.

use vstd::prelude::*;
use crate::context::{percent, spec_percent};
use crate::provider::{ProviderError, sanitized};
use crate::text::{from_chars, push_str, to_chars};
use crate::tools::{definition_views, definitions, tool_registry, ToolDefinition};

verus! {

broadcast use vstd::string::group_string_axioms;

/// A tool call the model asked for.
#[derive(Debug, PartialEq, Eq)]
pub struct ToolCall {
    pub id: String,
    pub name: String,
    pub arguments: String,
}

/// What a dispatched tool answered.
#[derive(Debug)]
pub struct ToolResult {
    pub tool_call_id: String,
    pub name: String,
    pub result: String,
}

/// One message of the conversation sent to the provider.
#[derive(Debug)]
pub enum AgentMessage {
    System { content: String },
    User { content: String },
    Assistant { content: String, reasoning: Option<String>, tool_calls: Vec<ToolCall> },
    Tool { result: ToolResult },
}

/// A request to the provider: the conversation and the tools it may call.
#[derive(Debug)]
pub struct AgentRequest {
    pub messages: Vec<AgentMessage>,
    pub tools: Vec<ToolDefinition>,
}

impl AgentRequest {
    /// A request for `messages` that offers the workspace tools only when
    /// tools are allowed.
    pub fn new(messages: Vec<AgentMessage>, allow_tools: bool) -> (result: Self)
        ensures
            result.messages == messages,
            allow_tools ==> definition_views(result.tools@) == tool_registry(),
            !allow_tools ==> result.tools@.len() == 0,
    {
        let tools = if allow_tools {
            definitions()
        } else {
            Vec::new()
        };
        AgentRequest { messages, tools }
    }
}

/// What the provider's stream reports.
#[derive(Debug, PartialEq, Eq)]
pub enum ProviderEvent {
    Thought(String),
    Text(String),
    ToolCalls(Vec<ToolCall>),
    ContextUsage(usize),
    ResponseFinished,
    Finished,
    Cancelled,
}

/// What the agent reports to the interface.
#[derive(Debug)]
pub enum AgentEvent {
    Thought(String),
    Text(String),
    ToolResult { call: ToolCall, result: ToolResult },
    ContextUsage(usize),
    Finished,
    Cancelled,
}

/// What one provider response has brought so far.
#[derive(Debug)]
pub struct TurnState {
    pub content: String,
    pub reasoning: String,
    pub tool_calls: Option<Vec<ToolCall>>,
    pub unexpected_tool_calls: bool,
    pub finished: bool,
    pub cancelled: bool,
}

/// What a provider response comes to.
#[derive(Debug)]
pub enum TurnOutcome {
    /// The turn fails with this error.
    Failed(ProviderError),
    /// The operator cancelled the turn.
    Cancelled,
    /// The model asked for tools: the assistant message to record, then
    /// the calls to dispatch before asking again.
    CallTools { message: AgentMessage, calls: Vec<ToolCall> },
    /// The model answered and the stream said so.
    Finished,
    /// The stream ended without saying it finished.
    Ended,
}

impl TurnState {
    /// Nothing received yet.
    pub fn new() -> (result: Self)
        ensures
            result.content@.len() == 0,
            result.reasoning@.len() == 0,
            result.tool_calls is None,
            !result.unexpected_tool_calls,
            !result.finished,
            !result.cancelled,
    {
        TurnState {
            content: String::new(),
            reasoning: String::new(),
            tool_calls: None,
            unexpected_tool_calls: false,
            finished: false,
            cancelled: false,
        }
    }

    /// Takes in one provider event and says what to report: thoughts and
    /// text are kept and passed on; tool calls are kept only when tools are
    /// allowed; context usage is reported as a percentage of the window.
    pub fn observe(&mut self, event: ProviderEvent, allow_tools: bool, context_window: Option<usize>) -> (result: Option<AgentEvent>)
        ensures
            match event {
                ProviderEvent::Thought(t) => final(self).reasoning@ == old(self).reasoning@ + t@
                    && final(self).content == old(self).content && final(self).tool_calls
                    == old(self).tool_calls && result == Some(AgentEvent::Thought(t)),
                ProviderEvent::Text(t) => final(self).content@ == old(self).content@ + t@
                    && final(self).reasoning == old(self).reasoning && final(self).tool_calls
                    == old(self).tool_calls && result == Some(AgentEvent::Text(t)),
                ProviderEvent::ToolCalls(calls) => result is None && if allow_tools {
                    final(self).tool_calls == Some(calls) && final(self).unexpected_tool_calls
                        == old(self).unexpected_tool_calls
                } else {
                    final(self).unexpected_tool_calls && final(self).tool_calls
                        == old(self).tool_calls
                },
                ProviderEvent::ContextUsage(tokens) => *final(self) == *old(self) && match context_window {
                    Some(w) => result matches Some(AgentEvent::ContextUsage(p)) && p as nat
                        == spec_percent(tokens as nat, w as nat),
                    None => result is None,
                },
                ProviderEvent::ResponseFinished => *final(self) == *old(self) && result is None,
                ProviderEvent::Finished => final(self).finished && result is None
                    && final(self).cancelled == old(self).cancelled && final(self).tool_calls
                    == old(self).tool_calls && final(self).unexpected_tool_calls
                    == old(self).unexpected_tool_calls,
                ProviderEvent::Cancelled => final(self).cancelled && result is None
                    && final(self).finished == old(self).finished && final(self).tool_calls
                    == old(self).tool_calls && final(self).unexpected_tool_calls
                    == old(self).unexpected_tool_calls,
            },
            match event {
                ProviderEvent::Thought(_) | ProviderEvent::Text(_) => final(self).finished
                    == old(self).finished && final(self).cancelled == old(self).cancelled
                    && final(self).unexpected_tool_calls == old(self).unexpected_tool_calls,
                ProviderEvent::ToolCalls(_) => final(self).finished == old(self).finished
                    && final(self).cancelled == old(self).cancelled && final(self).content
                    == old(self).content && final(self).reasoning == old(self).reasoning,
                _ => true,
            },
    {
        match event {
            ProviderEvent::Thought(t) => {
                let mut chars = to_chars(self.reasoning.as_str());
                push_str(&mut chars, t.as_str());
                self.reasoning = from_chars(chars.as_slice());
                Some(AgentEvent::Thought(t))
            },
            ProviderEvent::Text(t) => {
                let mut chars = to_chars(self.content.as_str());
                push_str(&mut chars, t.as_str());
                self.content = from_chars(chars.as_slice());
                Some(AgentEvent::Text(t))
            },
            ProviderEvent::ToolCalls(calls) => {
                if !allow_tools {
                    self.unexpected_tool_calls = true;
                } else {
                    self.tool_calls = Some(calls);
                }
                None
            },
            ProviderEvent::ContextUsage(tokens) => match context_window {
                Some(w) => Some(AgentEvent::ContextUsage(percent(tokens, w))),
                None => None,
            },
            ProviderEvent::ResponseFinished => None,
            ProviderEvent::Finished => {
                self.finished = true;
                None
            },
            ProviderEvent::Cancelled => {
                self.cancelled = true;
                None
            },
        }
    }

    /// What the response comes to: tool calls in a no-tools turn fail it;
    /// else a cancellation ends it; else requested tools are to be run;
    /// else it finished, or just ended.
    pub fn conclude(self) -> (result: TurnOutcome)
        ensures
            self.unexpected_tool_calls ==> (result matches TurnOutcome::Failed(
                ProviderError::Diagnostic { stage, category, detail },
            ) && stage@ == "agent"@ && category@ == "tool_calls"@ && detail@ == sanitized(
                "unexpected tool call in no-tools turn"@,
            )),
            !self.unexpected_tool_calls && self.cancelled ==> result is Cancelled,
            !self.unexpected_tool_calls && !self.cancelled && self.tool_calls is Some ==> (result
                matches TurnOutcome::CallTools { message, calls } && calls == self.tool_calls->0
                && (message matches AgentMessage::Assistant { content, reasoning, tool_calls }
                && content == self.content && tool_calls@ == calls@ && reasoning == (if self.reasoning@.len() == 0 {
                None
            } else {
                Some(self.reasoning)
            }))),
            !self.unexpected_tool_calls && !self.cancelled && self.tool_calls is None ==> (if self.finished {
                result is Finished
            } else {
                result is Ended
            }),
    {
        if self.unexpected_tool_calls {
            return TurnOutcome::Failed(
                ProviderError::diagnostic("agent", "tool_calls", "unexpected tool call in no-tools turn"),
            );
        }
        if self.cancelled {
            return TurnOutcome::Cancelled;
        }
        match self.tool_calls {
            Some(calls) => {
                let reasoning = if self.reasoning.as_str().is_empty() {
                    None
                } else {
                    Some(self.reasoning)
                };
                let copies = copy_calls(&calls);
                TurnOutcome::CallTools {
                    message: AgentMessage::Assistant {
                        content: self.content,
                        reasoning,
                        tool_calls: copies,
                    },
                    calls,
                }
            },
            None => {
                if self.finished {
                    TurnOutcome::Finished
                } else {
                    TurnOutcome::Ended
                }
            },
        }
    }
}

impl ToolCall {
    /// An equal copy.
    pub fn duplicate(&self) -> (result: Self)
        ensures
            result == *self,
    {
        ToolCall { id: self.id.clone(), name: self.name.clone(), arguments: self.arguments.clone() }
    }
}

/// Equal copies of tool calls.
pub fn copy_calls(calls: &Vec<ToolCall>) -> (result: Vec<ToolCall>)
    ensures
        result@ == calls@,
{
    let mut out: Vec<ToolCall> = Vec::new();
    let mut i: usize = 0;
    while i < calls.len()
        invariant
            i <= calls.len(),
            out@ == calls@.take(i as int),
        decreases calls.len() - i,
    {
        out.push(calls[i].duplicate());
        assert(calls@.take(i + 1) =~= calls@.take(i as int).push(calls@[i as int]));
        i = i + 1;
    }
    assert(calls@.take(i as int) =~= calls@);
    out
}

} // verus!
