//! Ollama Cloud's native chat stream: what each NDJSON line of a response
//! yields, the tool calls gathered until `done`, and the raw lines kept for
//! a failure report.
//!
//! The caller sends the request, reads the lines and parses each one into
//! a [`NativeChunk`].

use vstd::prelude::*;
use crate::agent::{ProviderEvent, ToolCall};
use crate::provider::{sanitized, ProviderError};
use crate::remote::{is_ollama_endpoint, ollama_url};
use crate::endpoint::parsed_url;
use crate::text::{decimal, decimal_chars, from_chars, owned, push_all, push_str};
use vstd::string::StringSliceAdditionalSpecFns;

verus! {

broadcast use vstd::string::group_string_axioms;

/// Whether `e` is the diagnostic `stage`, `category`, `detail`.
pub open spec fn is_diagnostic(e: ProviderError, stage: Seq<char>, category: Seq<char>, detail: Seq<char>) -> bool {
    e matches ProviderError::Diagnostic { stage: s, category: c, detail: d } && s@ == stage && c@ == category
        && d@ == sanitized(detail)
}

/// One tool call of a native line: whether it has a `function`, the
/// function's `name` when a string, and its `arguments` as JSON text when
/// they are an object.
#[derive(Debug)]
pub struct NativeToolCallChunk {
    pub has_function: bool,
    pub name: Option<String>,
    pub arguments: Option<String>,
}

/// The fields of one native stream line.
#[derive(Debug)]
pub struct NativeChunk {
    pub has_error: bool,
    pub thinking: Option<String>,
    pub content: Option<String>,
    pub tool_calls: Option<Vec<NativeToolCallChunk>>,
    pub done: bool,
    pub prompt_eval_count: Option<u64>,
}

/// The error for a native line that is not JSON.
pub fn native_json_error() -> (result: ProviderError)
    ensures
        is_diagnostic(result, "stream"@, "json"@, "invalid Ollama NDJSON stream event"@),
{
    ProviderError::diagnostic("stream", "json", "invalid Ollama NDJSON stream event")
}

/// The error for a stream that ended before `done`.
pub fn native_eof_error() -> (result: ProviderError)
    ensures
        is_diagnostic(result, "stream"@, "unexpected_eof"@, "Ollama closed the NDJSON stream before done=true"@),
{
    ProviderError::diagnostic("stream", "unexpected_eof", "Ollama closed the NDJSON stream before done=true")
}

/// The ID given to the `n`th tool call of a native response.
pub open spec fn native_call_id(n: nat) -> Seq<char> {
    "ollama-call-"@ + decimal(n)
}

/// Why a native tool call is refused, as (category, detail), if it is.
pub open spec fn call_problem(c: NativeToolCallChunk) -> Option<(Seq<char>, Seq<char>)> {
    if !c.has_function {
        Some(("invalid_tool_call"@, "Ollama tool call has no function"@))
    } else if !(c.name matches Some(n) && n@.len() > 0) {
        Some(("invalid_tool_call"@, "Ollama tool call has no function name"@))
    } else if c.arguments is None {
        Some(("invalid_arguments"@, "Ollama tool call arguments must be a JSON object"@))
    } else {
        None
    }
}

/// The first refused tool call among `calls`, if any.
pub open spec fn first_problem(calls: Seq<NativeToolCallChunk>) -> Option<(Seq<char>, Seq<char>)>
    decreases calls.len(),
{
    if calls.len() == 0 {
        None
    } else {
        match call_problem(calls[0]) {
            Some(p) => Some(p),
            None => first_problem(calls.skip(1)),
        }
    }
}

/// The calls of a native response as (ID, name, arguments).
pub open spec fn native_views(calls: Seq<ToolCall>) -> Seq<(Seq<char>, Seq<char>, Seq<char>)> {
    calls.map_values(|c: ToolCall| (c.id@, c.name@, c.arguments@))
}

/// The calls a line adds, numbered from `next`.
pub open spec fn added_calls(calls: Seq<NativeToolCallChunk>, next: nat) -> Seq<(Seq<char>, Seq<char>, Seq<char>)> {
    Seq::new(calls.len(), |i: int| (native_call_id(next + i as nat), calls[i].name->0@, calls[i].arguments->0@))
}

/// What a line's thinking and content yield: each when not empty.
pub open spec fn text_events(chunk: NativeChunk) -> Seq<ProviderEvent> {
    (if chunk.thinking matches Some(t) && t@.len() > 0 {
        seq![ProviderEvent::Thought(chunk.thinking->0)]
    } else {
        Seq::empty()
    }) + (if chunk.content matches Some(t) && t@.len() > 0 {
        seq![ProviderEvent::Text(chunk.content->0)]
    } else {
        Seq::empty()
    })
}

/// The tool calls of a native response, gathered until it is done.
pub struct NativeStream {
    pub tool_calls: Vec<ToolCall>,
    pub next_id: u64,
}

impl NativeStream {
    /// A stream that has gathered nothing.
    pub fn new() -> (result: Self)
        ensures
            result.tool_calls@.len() == 0,
            result.next_id == 0,
    {
        NativeStream { tool_calls: Vec::new(), next_id: 0 }
    }

    /// Handles one line: a remote error fails the stream; thinking and
    /// content are reported; each tool call must have a function with a
    /// name and object arguments, and is numbered in arrival order; when
    /// the line is the last (`done`), the prompt's token count, the
    /// gathered calls and the end are reported. Returns the events to
    /// report, then whether the response is done or why it failed.
    #[verifier::loop_isolation(false)]
    pub fn observe(&mut self, chunk: NativeChunk) -> (result: (Vec<ProviderEvent>, Result<bool, ProviderError>))
        requires
            old(self).next_id + (match chunk.tool_calls {
                Some(calls) => calls@.len(),
                None => 0,
            }) <= u64::MAX,
        ensures
            chunk.has_error ==> result.0@.len() == 0 && (result.1 matches Err(e) && is_diagnostic(
                e,
                "stream"@,
                "remote_error"@,
                "Ollama returned a streaming error"@,
            )),
            !chunk.has_error ==> {
                let calls = match chunk.tool_calls {
                    Some(c) => c@,
                    None => Seq::empty(),
                };
                match first_problem(calls) {
                    Some((category, detail)) => result.0@ == text_events(chunk) && (result.1 matches Err(e)
                        && is_diagnostic(e, "tool_calls"@, category, detail)),
                    None => {
                        let gathered = native_views(old(self).tool_calls@) + added_calls(
                            calls,
                            old(self).next_id as nat,
                        );
                        &&& final(self).next_id == old(self).next_id + calls.len()
                        &&& if chunk.done {
                            let usage = match chunk.prompt_eval_count {
                                Some(t) => if t <= usize::MAX {
                                    seq![ProviderEvent::ContextUsage(t as usize)]
                                } else {
                                    Seq::empty()
                                },
                                None => Seq::empty(),
                            };
                            &&& result.1 == Ok::<bool, ProviderError>(true)
                            &&& final(self).tool_calls@.len() == 0
                            &&& result.0@.len() == text_events(chunk).len() + usage.len() + (if gathered.len() > 0 { 1int } else { 0int }) + 1
                            &&& result.0@.take((text_events(chunk).len() + usage.len()) as int) == text_events(chunk) + usage
                            &&& gathered.len() > 0 ==> (result.0@[result.0@.len() - 2] matches ProviderEvent::ToolCalls(v)
                                && native_views(v@) == gathered)
                            &&& result.0@.last() == ProviderEvent::Finished
                        } else {
                            &&& result.1 == Ok::<bool, ProviderError>(false)
                            &&& result.0@ == text_events(chunk)
                            &&& native_views(final(self).tool_calls@) == gathered
                        }
                    },
                }
            },
    {
        let mut events: Vec<ProviderEvent> = Vec::new();
        if chunk.has_error {
            return (
                events,
                Err(ProviderError::diagnostic("stream", "remote_error", "Ollama returned a streaming error")),
            );
        }
        match chunk.thinking {
            Some(t) => {
                if !t.as_str().is_empty() {
                    events.push(ProviderEvent::Thought(t));
                }
            },
            None => {},
        }
        match chunk.content {
            Some(t) => {
                if !t.as_str().is_empty() {
                    events.push(ProviderEvent::Text(t));
                }
            },
            None => {},
        }
        let ghost shown = events@;
        assert(shown == text_events(chunk));
        match chunk.tool_calls {
            Some(calls) => {
                let ghost before = native_views(self.tool_calls@);
                let ghost start = self.next_id as nat;
                let mut i: usize = 0;
                assert(calls@.skip(0) =~= calls@);
                assert(calls@.take(0) =~= Seq::<NativeToolCallChunk>::empty());
                assert(added_calls(Seq::<NativeToolCallChunk>::empty(), start) =~= Seq::empty());
                while i < calls.len()
                    invariant
                        i <= calls@.len(),
                        self.next_id == start + i,
                        start + calls@.len() <= u64::MAX,
                        first_problem(calls@) == first_problem(calls@.skip(i as int)),
                        native_views(self.tool_calls@) =~= before + added_calls(calls@.take(i as int), start),
                        events@ == shown,
                    decreases calls@.len() - i,
                {
                    let call = &calls[i];
                    proof {
                        assert(calls@.skip(i as int)[0] == calls@[i as int]);
                        assert(calls@.skip(i as int).skip(1) =~= calls@.skip(i + 1));
                    }
                    if !call.has_function {
                        return (
                            events,
                            Err(ProviderError::diagnostic("tool_calls", "invalid_tool_call", "Ollama tool call has no function")),
                        );
                    }
                    let name = match &call.name {
                        Some(n) => {
                            if n.as_str().is_empty() {
                                return (
                                    events,
                                    Err(ProviderError::diagnostic(
                                        "tool_calls",
                                        "invalid_tool_call",
                                        "Ollama tool call has no function name",
                                    )),
                                );
                            }
                            n.clone()
                        },
                        None => {
                            return (
                                events,
                                Err(ProviderError::diagnostic(
                                    "tool_calls",
                                    "invalid_tool_call",
                                    "Ollama tool call has no function name",
                                )),
                            );
                        },
                    };
                    let arguments = match &call.arguments {
                        Some(a) => a.clone(),
                        None => {
                            return (
                                events,
                                Err(ProviderError::diagnostic(
                                    "tool_calls",
                                    "invalid_arguments",
                                    "Ollama tool call arguments must be a JSON object",
                                )),
                            );
                        },
                    };
                    let mut id: Vec<char> = Vec::new();
                    push_str(&mut id, "ollama-call-");
                    let digits = decimal_chars(self.next_id);
                    push_all(&mut id, &digits);
                    let ghost prev = self.tool_calls@;
                    self.tool_calls.push(ToolCall { id: from_chars(id.as_slice()), name, arguments });
                    self.next_id = self.next_id + 1;
                    proof {
                        reveal_strlit("ollama-call-");
                        assert(added_calls(calls@.take(i + 1), start) =~= added_calls(calls@.take(i as int), start).push(
                            (native_call_id(start + i as nat), calls@[i as int].name->0@, calls@[i as int].arguments->0@),
                        ));
                        assert(native_views(self.tool_calls@) =~= native_views(prev).push(
                            (native_call_id(start + i as nat), calls@[i as int].name->0@, calls@[i as int].arguments->0@),
                        ));
                    }
                    i = i + 1;
                }
                proof {
                    assert(calls@.take(i as int) =~= calls@);
                    assert(calls@.skip(i as int).len() == 0);
                }
            },
            None => {
                proof {
                    assert(added_calls(Seq::<NativeToolCallChunk>::empty(), self.next_id as nat) =~= Seq::empty());
                    assert(native_views(self.tool_calls@) + Seq::empty() =~= native_views(self.tool_calls@));
                }
            },
        }
        if !chunk.done {
            return (events, Ok(false));
        }
        match chunk.prompt_eval_count {
            Some(t) => {
                if t <= usize::MAX as u64 {
                    events.push(ProviderEvent::ContextUsage(t as usize));
                }
            },
            None => {},
        }
        let ghost before_calls = events@;
        if self.tool_calls.len() > 0 {
            let mut gathered: Vec<ToolCall> = Vec::new();
            std::mem::swap(&mut gathered, &mut self.tool_calls);
            events.push(ProviderEvent::ToolCalls(gathered));
        }
        events.push(ProviderEvent::Finished);
        proof {
            assert(events@.take(before_calls.len() as int) =~= before_calls);
        }
        (events, Ok(true))
    }
}

// ----------------------------------------------------------------------------
// Failure capture
// ----------------------------------------------------------------------------

/// The most bytes of raw lines a failure report keeps (1 MiB).
pub const MAX_CAPTURE_BYTES: usize = 1048576;

/// The raw lines of an Ollama response, kept to report a failure. Only
/// Ollama endpoints are captured, and capture stops for good at the limit.
pub struct StreamCapture {
    pub enabled: bool,
    pub endpoint: String,
    pub model: String,
    pub lines: Vec<u8>,
    pub truncated: bool,
}

impl StreamCapture {
    /// A capture for a response from `endpoint` and `model`.
    pub fn new(endpoint: &str, model: &str) -> (result: Self)
        ensures
            result.enabled == ollama_url(parsed_url(endpoint@)),
            result.endpoint@ == endpoint@,
            result.model@ == model@,
            result.lines@.len() == 0,
            !result.truncated,
    {
        StreamCapture {
            enabled: is_ollama_endpoint(endpoint),
            endpoint: owned(endpoint),
            model: owned(model),
            lines: Vec::new(),
            truncated: false,
        }
    }

    /// Keeps a line and its newline, unless capture is off, already
    /// stopped, or the line would pass the limit, which stops it.
    #[verifier::loop_isolation(false)]
    pub fn record_line(&mut self, line: &str)
        ensures
            final(self).enabled == old(self).enabled,
            final(self).endpoint == old(self).endpoint,
            final(self).model == old(self).model,
            ({
                let bytes = line.spec_bytes();
                if !old(self).enabled || old(self).truncated {
                    final(self).lines@ == old(self).lines@ && final(self).truncated == old(self).truncated
                } else if old(self).lines@.len() + bytes.len() + 1 > MAX_CAPTURE_BYTES {
                    final(self).lines@ == old(self).lines@ && final(self).truncated
                } else {
                    final(self).lines@ == old(self).lines@ + bytes.push(10u8) && !final(self).truncated
                }
            }),
    {
        if !self.enabled || self.truncated {
            return;
        }
        let bytes = line.as_bytes();
        if bytes.len() >= MAX_CAPTURE_BYTES || self.lines.len() > MAX_CAPTURE_BYTES - bytes.len() - 1 {
            self.truncated = true;
            return;
        }
        let mut k: usize = 0;
        let ghost start = self.lines@;
        while k < bytes.len()
            invariant
                k <= bytes@.len(),
                self.lines@ =~= start + bytes@.take(k as int),
                self.enabled == old(self).enabled,
                self.endpoint == old(self).endpoint,
                self.model == old(self).model,
                self.truncated == old(self).truncated,
            decreases bytes@.len() - k,
        {
            self.lines.push(bytes[k]);
            proof {
                assert(bytes@.take(k + 1) =~= bytes@.take(k as int).push(bytes@[k as int]));
            }
            k = k + 1;
        }
        self.lines.push(10u8);
        proof {
            assert(bytes@.take(k as int) =~= bytes@);
        }
    }

    /// Whether a failure of this response is reported with its raw lines.
    pub fn reports_failures(&self) -> (result: bool)
        ensures
            result == self.enabled,
    {
        self.enabled
    }
}

/// The tool calls of a native response get distinct IDs.
pub proof fn law_native_call_ids_distinct(a: nat, b: nat)
    requires
        a != b,
    ensures
        native_call_id(a) != native_call_id(b),
{
    if native_call_id(a) == native_call_id(b) {
        let prefix = "ollama-call-"@;
        assert(native_call_id(a).skip(prefix.len() as int) =~= decimal(a));
        assert(native_call_id(b).skip(prefix.len() as int) =~= decimal(b));
        crate::text::lemma_decimal_injective(a, b);
    }
}

} // verus!
