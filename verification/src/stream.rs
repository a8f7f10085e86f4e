//! Reading a provider's server-sent event stream: which lines carry data,
//! what each chunk reports, and how streamed tool-call fragments are put
//! back together.
//!
//! The caller parses each chunk's JSON and hands over the fields read here.

use vstd::prelude::*;
use crate::agent::{ProviderEvent, ToolCall};
use crate::provider::{ProviderError, sanitized};
use crate::text::{from_chars, push_str, strip_prefix, strip_prefix_str, str_equals, to_chars};

verus! {

broadcast use vstd::string::group_string_axioms;

// ----------------------------------------------------------------------------
// Data lines
// ----------------------------------------------------------------------------

/// What a stream line carries.
#[derive(Debug)]
pub enum SseData {
    /// A line that is not a `data: ` line.
    Ignore,
    /// The `[DONE]` marker.
    Done,
    /// A JSON payload.
    Payload(String),
}

/// What an OpenAI-compatible stream line carries.
pub open spec fn sse_line(line: Seq<char>) -> Option<Option<Seq<char>>> {
    match strip_prefix(line, "data: "@) {
        None => None,
        Some(data) => if data == "[DONE]"@ {
            Some(None)
        } else {
            Some(Some(data))
        },
    }
}

/// Classifies a stream line.
pub fn sse_data(line: &str) -> (result: SseData)
    ensures
        match sse_line(line@) {
            None => result is Ignore,
            Some(None) => result is Done,
            Some(Some(d)) => result matches SseData::Payload(p) && p@ == d,
        },
{
    let chars = to_chars(line);
    match strip_prefix_str(&chars, "data: ") {
        None => SseData::Ignore,
        Some(data) => {
            if str_equals(&data, "[DONE]") {
                SseData::Done
            } else {
                SseData::Payload(from_chars(data.as_slice()))
            }
        },
    }
}

/// The error for a stream payload that is not JSON.
pub fn invalid_stream_json() -> (result: ProviderError)
    ensures
        result matches ProviderError::Diagnostic { stage, category, detail } && stage@
            == "stream"@ && category@ == "json"@ && detail@ == sanitized(
            "invalid JSON stream event"@,
        ),
{
    ProviderError::diagnostic("stream", "json", "invalid JSON stream event")
}

/// The error for a tool-call payload that is not JSON.
pub fn invalid_tool_call_json() -> (result: ProviderError)
    ensures
        result matches ProviderError::Diagnostic { stage, category, detail } && stage@
            == "tool_calls"@ && category@ == "json"@ && detail@ == sanitized(
            "invalid JSON tool-call event"@,
        ),
{
    ProviderError::diagnostic("tool_calls", "json", "invalid JSON tool-call event")
}

// ----------------------------------------------------------------------------
// Chunks
// ----------------------------------------------------------------------------

/// The reasoning fields of a chunk's delta: the text of the first of
/// `reasoning` and `reasoning_content` present (none when it is not a
/// string), and the `text` or `summary` of each `reasoning_details` entry.
#[derive(Debug)]
pub struct DeltaReasoning {
    pub direct: Option<Option<String>>,
    pub details: Option<Vec<Option<String>>>,
}

/// The non-empty detail texts, concatenated.
pub open spec fn detail_text(details: Seq<Option<String>>) -> Seq<char>
    decreases details.len(),
{
    if details.len() == 0 {
        Seq::<char>::empty()
    } else {
        detail_text(details.drop_last()) + match details.last() {
            Some(t) => t@,
            None => Seq::<char>::empty(),
        }
    }
}

/// The reasoning a delta carries: its direct reasoning text when not
/// empty, else its detail texts when they are not empty.
pub open spec fn reasoning_of(r: DeltaReasoning) -> Option<Seq<char>> {
    match r.direct {
        Some(Some(t)) if t@.len() > 0 => Some(t@),
        _ => match r.details {
            Some(d) => if detail_text(d@).len() > 0 {
                Some(detail_text(d@))
            } else {
                None
            },
            None => None,
        },
    }
}

/// The reasoning a delta carries.
pub fn reasoning_from_delta(r: &DeltaReasoning) -> (result: Option<String>)
    ensures
        match result {
            Some(s) => reasoning_of(*r) == Some(s@),
            None => reasoning_of(*r) is None,
        },
{
    match &r.direct {
        Some(Some(t)) => {
            if !t.as_str().is_empty() {
                return Some(t.clone());
            }
        },
        _ => {},
    }
    match &r.details {
        Some(d) => {
            let mut out: Vec<char> = Vec::new();
            let mut i: usize = 0;
            while i < d.len()
                invariant
                    i <= d.len(),
                    out@ == detail_text(d@.take(i as int)),
                decreases d.len() - i,
            {
                assert(d@.take(i + 1).drop_last() =~= d@.take(i as int));
                match &d[i] {
                    Some(t) => push_str(&mut out, t.as_str()),
                    None => {},
                }
                i = i + 1;
            }
            assert(d@.take(i as int) =~= d@);
            if out.len() > 0 {
                Some(from_chars(out.as_slice()))
            } else {
                None
            }
        },
        None => None,
    }
}

/// The fields of one stream chunk.
#[derive(Debug)]
pub struct StreamChunk {
    /// Whether the chunk has an `error`, with its `code` when a string.
    pub error: Option<Option<String>>,
    /// The reasoning fields of the first choice's delta.
    pub reasoning: DeltaReasoning,
    /// The delta's `content` when a string.
    pub content: Option<String>,
    /// Whether the first choice has a string `finish_reason`.
    pub finished: bool,
}

/// The detail of a remote stream error.
pub open spec fn remote_error_detail(code: Option<String>) -> Seq<char> {
    "provider reported a stream error code="@ + match code {
        Some(c) => c@,
        None => "unspecified"@,
    }
}

/// What a chunk yields: a remote error fails the stream; else a thought,
/// text and the end of the response, each when present.
pub fn chunk_events(chunk: StreamChunk) -> (result: Result<Vec<ProviderEvent>, ProviderError>)
    ensures
        match chunk.error {
            Some(code) => result matches Err(ProviderError::Diagnostic { stage, category, detail })
                && stage@ == "stream"@ && category@ == "remote_error"@ && detail@ == sanitized(
                remote_error_detail(code),
            ),
            None => result matches Ok(events) && {
                let r = reasoning_of(chunk.reasoning);
                let has_text = chunk.content matches Some(t) && t@.len() > 0;
                let n = (if r is Some { 1int } else { 0int }) + (if has_text { 1int } else { 0int }) + (
                if chunk.finished {
                    1int
                } else {
                    0int
                });
                &&& events@.len() == n
                &&& r matches Some(t) ==> events@[0] matches ProviderEvent::Thought(s) && s@ == t
                &&& has_text ==> events@[if r is Some { 1int } else { 0int }] == ProviderEvent::Text(
                    chunk.content->0,
                )
                &&& chunk.finished ==> events@[n - 1] is Finished
            },
        },
{
    match chunk.error {
        Some(code) => {
            let mut detail: Vec<char> = Vec::new();
            push_str(&mut detail, "provider reported a stream error code=");
            match &code {
                Some(c) => push_str(&mut detail, c.as_str()),
                None => push_str(&mut detail, "unspecified"),
            }
            let d = from_chars(detail.as_slice());
            return Err(ProviderError::diagnostic("stream", "remote_error", d.as_str()));
        },
        None => {},
    }
    let mut events: Vec<ProviderEvent> = Vec::new();
    match reasoning_from_delta(&chunk.reasoning) {
        Some(t) => events.push(ProviderEvent::Thought(t)),
        None => {},
    }
    let r_len = events.len();
    match chunk.content {
        Some(t) => {
            if !t.as_str().is_empty() {
                events.push(ProviderEvent::Text(t));
            }
        },
        None => {},
    }
    if chunk.finished {
        events.push(ProviderEvent::Finished);
    }
    Ok(events)
}

// ----------------------------------------------------------------------------
// Tool-call fragments
// ----------------------------------------------------------------------------

/// One streamed tool-call fragment.
#[derive(Debug)]
pub struct ToolCallDelta {
    pub index: Option<u64>,
    pub id: Option<String>,
    pub name: Option<String>,
    pub arguments: Option<String>,
}

/// A tool call being put together.
#[derive(Debug)]
pub struct ToolCallParts {
    pub id: String,
    pub name: String,
    pub arguments: String,
}

/// A tool call being put together, in specifications.
pub struct PartsView {
    pub id: Seq<char>,
    pub name: Seq<char>,
    pub arguments: Seq<char>,
}

impl View for ToolCallParts {
    type V = PartsView;

    open spec fn view(&self) -> PartsView {
        PartsView { id: self.id@, name: self.name@, arguments: self.arguments@ }
    }
}

/// No parts yet.
pub open spec fn empty_parts() -> PartsView {
    PartsView { id: Seq::<char>::empty(), name: Seq::<char>::empty(), arguments: Seq::<char>::empty() }
}

/// A fragment applied to a call's parts: an id replaces the id, a name and
/// arguments are appended.
pub open spec fn merge_parts(p: PartsView, d: ToolCallDelta) -> PartsView {
    PartsView {
        id: match d.id {
            Some(i) => i@,
            None => p.id,
        },
        name: p.name + match d.name {
            Some(n) => n@,
            None => Seq::<char>::empty(),
        },
        arguments: p.arguments + match d.arguments {
            Some(a) => a@,
            None => Seq::<char>::empty(),
        },
    }
}

fn merge_into(parts: &mut ToolCallParts, delta: &ToolCallDelta)
    ensures
        final(parts)@ == merge_parts(old(parts)@, *delta),
{
    match &delta.id {
        Some(i) => {
            parts.id = i.clone();
        },
        None => {},
    }
    match &delta.name {
        Some(n) => {
            let mut c = to_chars(parts.name.as_str());
            push_str(&mut c, n.as_str());
            parts.name = from_chars(c.as_slice());
        },
        None => {},
    }
    match &delta.arguments {
        Some(a) => {
            let mut c = to_chars(parts.arguments.as_str());
            push_str(&mut c, a.as_str());
            parts.arguments = from_chars(c.as_slice());
        },
        None => {},
    }
}

/// The error for a fragment without an index.
pub open spec fn missing_index_error(e: ProviderError) -> bool {
    e matches ProviderError::Diagnostic { stage, category, detail } && stage@ == "tool_calls"@
        && category@ == "invalid_tool_call"@ && detail@ == sanitized("tool call has no index"@)
}

/// Tool calls keyed by their index, as a sorted map of fragments.
#[derive(Debug)]
pub struct IndexedToolCalls {
    pub entries: Vec<(u64, ToolCallParts)>,
}

/// The calls' parts by index.
pub open spec fn indexed_view(entries: Seq<(u64, ToolCallParts)>) -> Map<u64, PartsView> {
    Map::new(
        |k: u64| exists|i: int| 0 <= i < entries.len() && #[trigger] entries[i].0 == k,
        |k: u64| entries[choose|i: int| 0 <= i < entries.len() && #[trigger] entries[i].0 == k].1@,
    )
}

/// Whether the indexes increase strictly.
pub open spec fn keys_increasing(entries: Seq<(u64, ToolCallParts)>) -> bool {
    forall|i: int, j: int| 0 <= i < j < entries.len() ==> #[trigger] entries[i].0 < #[trigger] entries[j].0
}

/// One fragment applied to the calls by index.
pub open spec fn apply_indexed(m: Map<u64, PartsView>, d: ToolCallDelta) -> Map<u64, PartsView> {
    let k = d.index->0;
    let current = if m.dom().contains(k) {
        m[k]
    } else {
        empty_parts()
    };
    m.insert(k, merge_parts(current, d))
}

/// The fragments applied in order, up to the first without an index.
pub open spec fn apply_all_indexed(m: Map<u64, PartsView>, deltas: Seq<ToolCallDelta>) -> Option<
    Map<u64, PartsView>,
>
    decreases deltas.len(),
{
    if deltas.len() == 0 {
        Some(m)
    } else if deltas[0].index is None {
        None
    } else {
        apply_all_indexed(apply_indexed(m, deltas[0]), deltas.skip(1))
    }
}

proof fn lemma_unique_key(entries: Seq<(u64, ToolCallParts)>, i: int)
    requires
        keys_increasing(entries),
        0 <= i < entries.len(),
    ensures
        indexed_view(entries).dom().contains(entries[i].0),
        indexed_view(entries)[entries[i].0] == entries[i].1@,
{
    let k = entries[i].0;
    assert(indexed_view(entries).dom().contains(k));
    let c = choose|c: int| 0 <= c < entries.len() && #[trigger] entries[c].0 == k;
    if c < i {
        assert(entries[c].0 < entries[i].0);
    }
    if i < c {
        assert(entries[i].0 < entries[c].0);
    }
}

impl IndexedToolCalls {
    /// No calls yet.
    pub fn new() -> (result: Self)
        ensures
            result.entries@.len() == 0,
    {
        IndexedToolCalls { entries: Vec::new() }
    }

    /// The calls' parts by index.
    pub open spec fn view_map(&self) -> Map<u64, PartsView> {
        indexed_view(self.entries@)
    }

    /// Whether the entries are ordered by index without repeats.
    pub open spec fn wf(&self) -> bool {
        keys_increasing(self.entries@)
    }

    fn apply_one(&mut self, delta: &ToolCallDelta, index: u64)
        requires
            old(self).wf(),
            delta.index == Some(index),
        ensures
            final(self).wf(),
            final(self).view_map() =~= apply_indexed(old(self).view_map(), *delta),
    {
        let n = self.entries.len();
        let mut pos: usize = 0;
        while pos < n && self.entries[pos].0 < index
            invariant
                pos <= n,
                n == self.entries.len(),
                keys_increasing(self.entries@),
                forall|j: int| 0 <= j < pos ==> #[trigger] self.entries@[j].0 < index,
            decreases n - pos,
        {
            pos = pos + 1;
        }
        let ghost before = self.entries@;
        if pos < n && self.entries[pos].0 == index {
            proof {
                lemma_unique_key(before, pos as int);
            }
            let (k, mut parts) = self.entries.remove(pos);
            merge_into(&mut parts, delta);
            self.entries.insert(pos, (k, parts));
            assert(self.entries@ =~= before.update(pos as int, (k, parts)));
            assert(self.entries@[pos as int].0 == index);
            assert(self.view_map().dom().contains(index));
            assert forall|q: u64| #[trigger] self.view_map().dom().contains(q) == apply_indexed(
                indexed_view(before),
                *delta,
            ).dom().contains(q) by {
                if apply_indexed(indexed_view(before), *delta).dom().contains(q) && q != index {
                    assert(indexed_view(before).dom().contains(q));
                    let c = choose|c: int| 0 <= c < before.len() && #[trigger] before[c].0 == q;
                    assert(self.entries@[c].0 == q);
                }
                if self.view_map().dom().contains(q) {
                    let c = choose|c: int| 0 <= c < self.entries@.len() && #[trigger] self.entries@[c].0 == q;
                    assert(before[c].0 == q);
                }
            }
            assert forall|q: u64| #[trigger] self.view_map().dom().contains(q) implies self.view_map()[q]
                == apply_indexed(indexed_view(before), *delta)[q] by {
                let c = choose|c: int| 0 <= c < self.entries@.len() && #[trigger] self.entries@[c].0 == q;
                lemma_unique_key(self.entries@, c);
                if q != index {
                    lemma_unique_key(before, c);
                }
            }
        } else {
            let mut parts = ToolCallParts { id: String::new(), name: String::new(), arguments: String::new() };
            merge_into(&mut parts, delta);
            proof {
                if indexed_view(before).dom().contains(index) {
                    let c = choose|c: int| 0 <= c < before.len() && #[trigger] before[c].0 == index;
                    if c < pos {
                        assert(before[c].0 < index);
                    } else if c > pos {
                        assert(before[pos as int].0 < before[c].0);
                    }
                }
            }
            let ghost new_entry = (index, parts);
            self.entries.insert(pos, (index, parts));
            assert(self.entries@ =~= before.insert(pos as int, new_entry));
            assert(self.entries@[pos as int].0 == index);
            assert(self.view_map().dom().contains(index));
            assert forall|i: int, j: int| 0 <= i < j < self.entries@.len() implies #[trigger] self.entries@[i].0
                < #[trigger] self.entries@[j].0 by {
                if j < pos {
                    assert(before[i].0 < before[j].0);
                } else if j == pos {
                    assert(before[i].0 < index);
                } else if i < pos {
                    assert(before[i].0 < index);
                    assert(self.entries@[j] == before[j - 1]);
                    if pos < before.len() {
                        assert(before[pos as int].0 >= index);
                        assert(before[pos as int].0 != index);
                        if j - 1 > pos {
                            assert(before[pos as int].0 < before[j - 1].0);
                        }
                    }
                } else if i == pos {
                    assert(self.entries@[j] == before[j - 1]);
                    assert(before[pos as int].0 > index);
                    if j - 1 > pos {
                        assert(before[pos as int].0 < before[j - 1].0);
                    }
                } else {
                    assert(before[i - 1].0 < before[j - 1].0);
                }
            }
            assert forall|q: u64| #[trigger] self.view_map().dom().contains(q) == apply_indexed(
                indexed_view(before),
                *delta,
            ).dom().contains(q) by {
                if apply_indexed(indexed_view(before), *delta).dom().contains(q) && q != index {
                    assert(indexed_view(before).dom().contains(q));
                    let c = choose|c: int| 0 <= c < before.len() && #[trigger] before[c].0 == q;
                    if c < pos {
                        assert(self.entries@[c] == before[c]);
                        assert(self.entries@[c].0 == q);
                    } else {
                        assert(self.entries@[c + 1] == before[c]);
                        assert(self.entries@[c + 1].0 == q);
                    }
                }
                if self.view_map().dom().contains(q) && q != index {
                    let c = choose|c: int| 0 <= c < self.entries@.len() && #[trigger] self.entries@[c].0 == q;
                    if c < pos {
                        assert(before[c].0 == q);
                    } else if c > pos {
                        assert(before[c - 1].0 == q);
                    }
                }
            }
            assert forall|q: u64| #[trigger] self.view_map().dom().contains(q) implies self.view_map()[q]
                == apply_indexed(indexed_view(before), *delta)[q] by {
                let c = choose|c: int| 0 <= c < self.entries@.len() && #[trigger] self.entries@[c].0 == q;
                lemma_unique_key(self.entries@, c);
                if c < pos {
                    lemma_unique_key(before, c);
                } else if c > pos {
                    lemma_unique_key(before, c - 1);
                }
            }
        }
    }

    /// Applies a chunk's fragments in order; a fragment without an index
    /// fails the stream.
    pub fn append_tool_call_deltas(&mut self, deltas: &Vec<ToolCallDelta>) -> (result: Result<(), ProviderError>)
        requires
            old(self).wf(),
        ensures
            final(self).wf(),
            match apply_all_indexed(old(self).view_map(), deltas@) {
                Some(m) => result is Ok && final(self).view_map() == m,
                None => result matches Err(e) && missing_index_error(e),
            },
    {
        let mut i: usize = 0;
        assert(deltas@.skip(0) =~= deltas@);
        while i < deltas.len()
            invariant
                i <= deltas.len(),
                self.wf(),
                apply_all_indexed(old(self).view_map(), deltas@) == apply_all_indexed(
                    self.view_map(),
                    deltas@.skip(i as int),
                ),
            decreases deltas.len() - i,
        {
            assert(deltas@.skip(i as int)[0] == deltas@[i as int]);
            assert(deltas@.skip(i as int).skip(1) =~= deltas@.skip(i + 1));
            match deltas[i].index {
                None => {
                    return Err(
                        ProviderError::diagnostic("tool_calls", "invalid_tool_call", "tool call has no index"),
                    );
                },
                Some(index) => {
                    self.apply_one(&deltas[i], index);
                },
            }
            i = i + 1;
        }
        Ok(())
    }
}

/// Whether a text is JSON as `serde_json` reads it.
pub uninterp spec fn valid_json(text: Seq<char>) -> bool;

/// `serde_json::from_str::<serde_json::Value>` succeeds: a function of the
/// text alone.
#[verifier::external_body]
fn is_json(text: &str) -> (result: bool)
    ensures
        result == valid_json(text@),
{
    serde_json::from_str::<serde_json::Value>(text).is_ok()
}

/// What a finished call is: refused without an id or a name, or with
/// arguments that are not JSON.
pub open spec fn finished_call(p: PartsView) -> Result<PartsView, Seq<char>> {
    if p.id.len() == 0 || p.name.len() == 0 {
        Err("invalid_tool_call"@)
    } else if !valid_json(p.arguments) {
        Err("invalid_arguments"@)
    } else {
        Ok(p)
    }
}

/// The first call, in order, that cannot be finished, with its category.
pub open spec fn first_unfinished(parts: Seq<PartsView>) -> Option<Seq<char>>
    decreases parts.len(),
{
    if parts.len() == 0 {
        None
    } else {
        match finished_call(parts[0]) {
            Err(c) => Some(c),
            Ok(_) => first_unfinished(parts.skip(1)),
        }
    }
}

/// Finishes the calls in order, each checked; the first that fails fails
/// them all.
pub fn finish_parts(parts: Vec<ToolCallParts>) -> (result: Result<Vec<ToolCall>, ProviderError>)
    ensures
        match first_unfinished(parts@.map_values(|p: ToolCallParts| p@)) {
            Some(c) => result matches Err(ProviderError::Diagnostic { stage, category, detail })
                && stage@ == "tool_calls"@ && category@ == c,
            None => result matches Ok(calls) && calls@.len() == parts@.len() && forall|i: int|
                0 <= i < calls@.len() ==> #[trigger] calls@[i].id@ == parts@[i].id@ && calls@[i].name@
                    == parts@[i].name@ && calls@[i].arguments@ == parts@[i].arguments@,
        },
{
    let ghost views = parts@.map_values(|p: ToolCallParts| p@);
    let mut calls: Vec<ToolCall> = Vec::new();
    let mut i: usize = 0;
    assert(views.skip(0) =~= views);
    while i < parts.len()
        invariant
            i <= parts.len(),
            views == parts@.map_values(|p: ToolCallParts| p@),
            first_unfinished(views) == first_unfinished(views.skip(i as int)),
            calls@.len() == i,
            forall|j: int|
                0 <= j < i ==> #[trigger] calls@[j].id@ == parts@[j].id@ && calls@[j].name@
                    == parts@[j].name@ && calls@[j].arguments@ == parts@[j].arguments@,
        decreases parts.len() - i,
    {
        assert(views.skip(i as int)[0] == parts@[i as int]@);
        assert(views.skip(i as int).skip(1) =~= views.skip(i + 1));
        let p = &parts[i];
        if p.id.as_str().is_empty() || p.name.as_str().is_empty() {
            return Err(
                ProviderError::diagnostic(
                    "tool_calls",
                    "invalid_tool_call",
                    "tool call is missing an ID or function name",
                ),
            );
        }
        if !is_json(p.arguments.as_str()) {
            return Err(
                ProviderError::diagnostic(
                    "tool_calls",
                    "invalid_arguments",
                    "tool call arguments are not valid JSON",
                ),
            );
        }
        let ghost before = calls@;
        calls.push(ToolCall { id: p.id.clone(), name: p.name.clone(), arguments: p.arguments.clone() });
        assert forall|j: int|
            0 <= j < i + 1 implies #[trigger] calls@[j].id@ == parts@[j].id@ && calls@[j].name@
                == parts@[j].name@ && calls@[j].arguments@ == parts@[j].arguments@ by {
            if j < i {
                assert(calls@[j] == before[j]);
            }
        }
        i = i + 1;
    }
    Ok(calls)
}

impl IndexedToolCalls {
    /// The calls in order of their index, each checked.
    pub fn finish(self) -> (result: Result<Vec<ToolCall>, ProviderError>)
        ensures
            match first_unfinished(self.entries@.map_values(|e: (u64, ToolCallParts)| e.1@)) {
                Some(c) => result matches Err(ProviderError::Diagnostic { stage, category, .. })
                    && stage@ == "tool_calls"@ && category@ == c,
                None => result matches Ok(calls) && calls@.len() == self.entries@.len() && forall|i: int|
                    0 <= i < calls@.len() ==> #[trigger] calls@[i].id@ == self.entries@[i].1.id@
                        && calls@[i].name@ == self.entries@[i].1.name@ && calls@[i].arguments@
                        == self.entries@[i].1.arguments@,
            },
    {
        let mut entries = self.entries;
        let ghost original = entries@;
        let mut parts: Vec<ToolCallParts> = Vec::new();
        let mut i: usize = 0;
        let n = entries.len();
        while i < n
            invariant
                i <= n,
                n == original.len(),
                entries@ == original.skip(i as int),
                parts@ == original.take(i as int).map_values(|e: (u64, ToolCallParts)| e.1),
            decreases n - i,
        {
            assert(entries@[0] == original[i as int]);
            let (_, p) = entries.remove(0);
            assert(entries@ =~= original.skip(i + 1));
            parts.push(p);
            assert(original.take(i + 1).map_values(|e: (u64, ToolCallParts)| e.1) =~= original.take(i as int).map_values(|e: (u64, ToolCallParts)| e.1).push(original[i as int].1));
            i = i + 1;
        }
        assert(original.take(n as int) =~= original);
        assert(parts@.map_values(|p: ToolCallParts| p@) =~= original.map_values(|e: (u64, ToolCallParts)| e.1@));
        finish_parts(parts)
    }
}

// ----------------------------------------------------------------------------
// Ollama's tool-call fragments, grouped by id
// ----------------------------------------------------------------------------

/// Keys of an association list, without repeats, pointing into `n` calls.
pub open spec fn assoc_wf<K>(entries: Seq<(K, usize)>, n: nat) -> bool {
    &&& forall|i: int, j: int| 0 <= i < j < entries.len() ==> #[trigger] entries[i].0 != #[trigger] entries[j].0
    &&& forall|i: int| 0 <= i < entries.len() ==> #[trigger] entries[i].1 < n
}

/// An association list as a map.
pub open spec fn assoc_map<K>(entries: Seq<(K, usize)>) -> Map<K, nat> {
    Map::new(
        |k: K| exists|i: int| 0 <= i < entries.len() && #[trigger] entries[i].0 == k,
        |k: K| entries[choose|i: int| 0 <= i < entries.len() && #[trigger] entries[i].0 == k].1 as nat,
    )
}

proof fn lemma_assoc_at<K>(entries: Seq<(K, usize)>, n: nat, i: int)
    requires
        assoc_wf(entries, n),
        0 <= i < entries.len(),
    ensures
        assoc_map(entries).dom().contains(entries[i].0),
        assoc_map(entries)[entries[i].0] == entries[i].1 as nat,
{
    let k = entries[i].0;
    assert(assoc_map(entries).dom().contains(k));
    let c = choose|c: int| 0 <= c < entries.len() && #[trigger] entries[c].0 == k;
    if c != i {
        if c < i {
            assert(entries[c].0 != entries[i].0);
        } else {
            assert(entries[i].0 != entries[c].0);
        }
    }
}

fn find_u64(entries: &Vec<(u64, usize)>, key: u64) -> (result: Option<usize>)
    requires
        assoc_wf(entries@, usize::MAX as nat),
    ensures
        match result {
            Some(i) => i < entries@.len() && entries@[i as int].0 == key,
            None => !assoc_map(entries@).dom().contains(key),
        },
{
    let mut i: usize = 0;
    while i < entries.len()
        invariant
            i <= entries.len(),
            forall|j: int| 0 <= j < i ==> #[trigger] entries@[j].0 != key,
        decreases entries.len() - i,
    {
        if entries[i].0 == key {
            return Some(i);
        }
        i = i + 1;
    }
    None
}

/// Text keys of an association list, without repeats, pointing into `n`
/// calls.
pub open spec fn text_assoc_wf(entries: Seq<(String, usize)>, n: nat) -> bool {
    &&& forall|i: int, j: int| 0 <= i < j < entries.len() ==> #[trigger] entries[i].0@ != #[trigger] entries[j].0@
    &&& forall|i: int| 0 <= i < entries.len() ==> #[trigger] entries[i].1 < n
}

/// A text-keyed association list as a map.
pub open spec fn text_assoc_map(entries: Seq<(String, usize)>) -> Map<Seq<char>, nat> {
    Map::new(
        |k: Seq<char>| exists|i: int| 0 <= i < entries.len() && #[trigger] entries[i].0@ == k,
        |k: Seq<char>| entries[choose|i: int| 0 <= i < entries.len() && #[trigger] entries[i].0@ == k].1 as nat,
    )
}

proof fn lemma_text_assoc_at(entries: Seq<(String, usize)>, n: nat, i: int)
    requires
        text_assoc_wf(entries, n),
        0 <= i < entries.len(),
    ensures
        text_assoc_map(entries).dom().contains(entries[i].0@),
        text_assoc_map(entries)[entries[i].0@] == entries[i].1 as nat,
{
    let k = entries[i].0@;
    assert(text_assoc_map(entries).dom().contains(k));
    let c = choose|c: int| 0 <= c < entries.len() && #[trigger] entries[c].0@ == k;
    if c != i {
        if c < i {
            assert(entries[c].0@ != entries[i].0@);
        } else {
            assert(entries[i].0@ != entries[c].0@);
        }
    }
}

fn find_string(entries: &Vec<(String, usize)>, key: &String) -> (result: Option<usize>)
    ensures
        match result {
            Some(i) => i < entries@.len() && entries@[i as int].0@ == key@,
            None => !text_assoc_map(entries@).dom().contains(key@),
        },
{
    let mut i: usize = 0;
    while i < entries.len()
        invariant
            i <= entries.len(),
            forall|j: int| 0 <= j < i ==> #[trigger] entries@[j].0@ != key@,
        decreases entries.len() - i,
    {
        if entries[i].0 == *key {
            return Some(i);
        }
        i = i + 1;
    }
    None
}

/// A fragment's name and arguments appended to a call's parts.
pub open spec fn append_parts(p: PartsView, d: ToolCallDelta) -> PartsView {
    PartsView {
        id: p.id,
        name: p.name + match d.name {
            Some(n) => n@,
            None => Seq::<char>::empty(),
        },
        arguments: p.arguments + match d.arguments {
            Some(a) => a@,
            None => Seq::<char>::empty(),
        },
    }
}

/// The grouping state: the calls in order of first appearance, and where
/// each id and each index last pointed.
pub struct GroupingView {
    pub calls: Seq<PartsView>,
    pub by_id: Map<Seq<char>, nat>,
    pub by_index: Map<u64, nat>,
}

/// One fragment grouped: a known id, else (without an id) a known index,
/// names the call it extends; otherwise a new call starts, with the id
/// when there is one.  The index then points at that call.
pub open spec fn group_one(g: GroupingView, d: ToolCallDelta) -> GroupingView {
    let index = d.index->0;
    let (calls, by_id, position) = match d.id {
        Some(id) => if g.by_id.dom().contains(id@) {
            (g.calls, g.by_id, g.by_id[id@])
        } else {
            (
                g.calls.push(PartsView { id: id@, name: Seq::<char>::empty(), arguments: Seq::<char>::empty() }),
                g.by_id.insert(id@, g.calls.len()),
                g.calls.len(),
            )
        },
        None => if g.by_index.dom().contains(index) {
            (g.calls, g.by_id, g.by_index[index])
        } else {
            (g.calls.push(empty_parts()), g.by_id, g.calls.len())
        },
    };
    GroupingView {
        calls: calls.update(position as int, append_parts(calls[position as int], d)),
        by_id,
        by_index: g.by_index.insert(index, position),
    }
}

/// The fragments grouped in order, up to the first without an index.
pub open spec fn group_all(g: GroupingView, deltas: Seq<ToolCallDelta>) -> Option<GroupingView>
    decreases deltas.len(),
{
    if deltas.len() == 0 {
        Some(g)
    } else if deltas[0].index is None {
        None
    } else {
        group_all(group_one(g, deltas[0]), deltas.skip(1))
    }
}

/// Ollama's streamed tool calls, grouped by id, or by index for fragments
/// without an id.
#[derive(Debug)]
pub struct ToolCallAccumulator {
    calls: Vec<ToolCallParts>,
    by_id: Vec<(String, usize)>,
    by_index: Vec<(u64, usize)>,
}

impl ToolCallAccumulator {
    /// The grouping state.
    pub closed spec fn grouping(&self) -> GroupingView {
        GroupingView {
            calls: self.calls@.map_values(|p: ToolCallParts| p@),
            by_id: text_assoc_map(self.by_id@),
            by_index: assoc_map(self.by_index@),
        }
    }

    /// Whether the lookup tables are consistent.
    pub closed spec fn wf(&self) -> bool {
        &&& text_assoc_wf(self.by_id@, self.calls@.len())
        &&& assoc_wf(self.by_index@, self.calls@.len())
        &&& self.calls@.len() <= usize::MAX
    }

    /// No calls yet.
    pub fn new() -> (result: Self)
        ensures
            result.wf(),
            result.grouping().calls.len() == 0,
            result.grouping().by_id == Map::<Seq<char>, nat>::empty(),
            result.grouping().by_index == Map::<u64, nat>::empty(),
    {
        let r = ToolCallAccumulator { calls: Vec::new(), by_id: Vec::new(), by_index: Vec::new() };
        assert(r.grouping().by_id =~= Map::<Seq<char>, nat>::empty());
        assert(r.grouping().by_index =~= Map::<u64, nat>::empty());
        r
    }

    /// Whether no call has been seen.
    pub fn is_empty(&self) -> (result: bool)
        ensures
            result == (self.grouping().calls.len() == 0),
    {
        self.calls.len() == 0
    }

    fn group(&mut self, delta: &ToolCallDelta, index: u64)
        requires
            old(self).wf(),
            delta.index == Some(index),
            old(self).calls@.len() < usize::MAX,
        ensures
            final(self).wf(),
            final(self).grouping() == group_one(old(self).grouping(), *delta),
            final(self).grouping().calls.len() <= old(self).grouping().calls.len() + 1,
    {
        let ghost g = self.grouping();
        let position: usize = match &delta.id {
            Some(id) => match find_string(&self.by_id, id) {
                Some(i) => {
                    proof {
                        lemma_text_assoc_at(self.by_id@, self.calls@.len(), i as int);
                    }
                    self.by_id[i].1
                },
                None => {
                    let p = self.calls.len();
                    let ghost before_calls = self.calls@;
                    self.calls.push(ToolCallParts { id: id.clone(), name: String::new(), arguments: String::new() });
                    assert(self.calls@.map_values(|q: ToolCallParts| q@) =~= before_calls.map_values(|q: ToolCallParts| q@).push(
                        PartsView { id: id@, name: Seq::<char>::empty(), arguments: Seq::<char>::empty() },
                    ));
                    assoc_add_string(&mut self.by_id, id.clone(), p, Ghost(self.calls@.len() as nat));
                    p
                },
            },
            None => match find_u64(&self.by_index, index) {
                Some(i) => {
                    proof {
                        lemma_assoc_at(self.by_index@, self.calls@.len(), i as int);
                    }
                    self.by_index[i].1
                },
                None => {
                    let p = self.calls.len();
                    let ghost before_calls = self.calls@;
                    self.calls.push(ToolCallParts { id: String::new(), name: String::new(), arguments: String::new() });
                    assert(self.calls@.map_values(|q: ToolCallParts| q@) =~= before_calls.map_values(|q: ToolCallParts| q@).push(
                        empty_parts(),
                    ));
                    p
                },
            },
        };
        proof {
            assert(assoc_wf(self.by_index@, self.calls@.len())) by {
                assert forall|i: int| 0 <= i < self.by_index@.len() implies #[trigger] self.by_index@[i].1
                    < self.calls@.len() by {
                    assert(self.by_index@[i].1 < g.calls.len());
                }
            }
        }
        assoc_put_u64(&mut self.by_index, index, position, Ghost(self.calls@.len() as nat));
        let ghost before_calls = self.calls@;
        let mut parts = self.calls.remove(position);
        let ghost old_parts = parts@;
        match &delta.name {
            Some(n) => {
                let mut c = to_chars(parts.name.as_str());
                push_str(&mut c, n.as_str());
                parts.name = from_chars(c.as_slice());
            },
            None => {},
        }
        match &delta.arguments {
            Some(a) => {
                let mut c = to_chars(parts.arguments.as_str());
                push_str(&mut c, a.as_str());
                parts.arguments = from_chars(c.as_slice());
            },
            None => {},
        }
        assert(parts@ == append_parts(old_parts, *delta));
        self.calls.insert(position, parts);
        assert(self.calls@ =~= before_calls.update(position as int, parts));
        assert(self.calls@.map_values(|q: ToolCallParts| q@) =~= before_calls.map_values(|q: ToolCallParts| q@).update(
            position as int,
            append_parts(before_calls[position as int]@, *delta),
        ));
    }

    /// Groups a chunk's fragments in order; a fragment without an index
    /// fails the stream.
    pub fn append(&mut self, deltas: &Vec<ToolCallDelta>) -> (result: Result<(), ProviderError>)
        requires
            old(self).wf(),
            old(self).grouping().calls.len() + deltas@.len() < usize::MAX,
        ensures
            final(self).wf(),
            match group_all(old(self).grouping(), deltas@) {
                Some(g) => result is Ok && final(self).grouping() == g,
                None => result matches Err(e) && missing_index_error(e),
            },
    {
        let mut i: usize = 0;
        assert(deltas@.skip(0) =~= deltas@);
        while i < deltas.len()
            invariant
                i <= deltas.len(),
                self.wf(),
                self.grouping().calls.len() <= old(self).grouping().calls.len() + i,
                old(self).grouping().calls.len() + deltas@.len() < usize::MAX,
                group_all(old(self).grouping(), deltas@) == group_all(self.grouping(), deltas@.skip(i as int)),
            decreases deltas.len() - i,
        {
            assert(deltas@.skip(i as int)[0] == deltas@[i as int]);
            assert(deltas@.skip(i as int).skip(1) =~= deltas@.skip(i + 1));
            match deltas[i].index {
                None => {
                    return Err(
                        ProviderError::diagnostic("tool_calls", "invalid_tool_call", "tool call has no index"),
                    );
                },
                Some(index) => {
                    self.group(&deltas[i], index);
                },
            }
            i = i + 1;
        }
        Ok(())
    }

    /// The calls in order of first appearance, each checked.
    pub fn finish(self) -> (result: Result<Vec<ToolCall>, ProviderError>)
        ensures
            match first_unfinished(self.grouping().calls) {
                Some(c) => result matches Err(ProviderError::Diagnostic { stage, category, .. })
                    && stage@ == "tool_calls"@ && category@ == c,
                None => result matches Ok(calls) && calls@.len() == self.grouping().calls.len(),
            },
    {
        finish_parts(self.calls)
    }
}

/// Adds a key that is not yet present.
fn assoc_add_string(entries: &mut Vec<(String, usize)>, key: String, value: usize, Ghost(n): Ghost<nat>)
    requires
        text_assoc_wf(old(entries)@, n),
        !text_assoc_map(old(entries)@).dom().contains(key@),
        value < n,
    ensures
        text_assoc_wf(final(entries)@, n),
        text_assoc_map(final(entries)@) == text_assoc_map(old(entries)@).insert(key@, value as nat),
{
    let ghost before = entries@;
    let ghost k0 = key@;
    entries.push((key, value));
    proof {
        assert(entries@[before.len() as int].0@ == k0);
        assert forall|i: int, j: int| 0 <= i < j < entries@.len() implies #[trigger] entries@[i].0@
            != #[trigger] entries@[j].0@ by {
            if j == before.len() {
                assert(before[i].0@ != k0);
            } else {
                assert(before[i].0@ != before[j].0@);
            }
        }
        assert forall|i: int| 0 <= i < entries@.len() implies #[trigger] entries@[i].1 < n by {
            if i < before.len() {
                assert(before[i].1 < n);
            }
        }
        assert forall|k: Seq<char>| #[trigger] text_assoc_map(entries@).dom().contains(k) == text_assoc_map(before).insert(k0, value as nat).dom().contains(k) by {
            if text_assoc_map(before).dom().contains(k) {
                let c = choose|c: int| 0 <= c < before.len() && #[trigger] before[c].0@ == k;
                assert(entries@[c].0@ == k);
            }
            if text_assoc_map(entries@).dom().contains(k) && k != k0 {
                let c = choose|c: int| 0 <= c < entries@.len() && #[trigger] entries@[c].0@ == k;
                assert(before[c].0@ == k);
            }
        }
        assert forall|k: Seq<char>| #[trigger] text_assoc_map(entries@).dom().contains(k) implies text_assoc_map(entries@)[k] == text_assoc_map(before).insert(k0, value as nat)[k] by {
            let c = choose|c: int| 0 <= c < entries@.len() && #[trigger] entries@[c].0@ == k;
            lemma_text_assoc_at(entries@, n, c);
            if k != k0 {
                lemma_text_assoc_at(before, n, c);
            }
        }
        assert(text_assoc_map(entries@) =~= text_assoc_map(before).insert(k0, value as nat));
    }
}

/// Points `key` at `value`, replacing what it pointed at.
fn assoc_put_u64(entries: &mut Vec<(u64, usize)>, key: u64, value: usize, Ghost(n): Ghost<nat>)
    requires
        assoc_wf(old(entries)@, n),
        value < n,
    ensures
        assoc_wf(final(entries)@, n),
        assoc_map(final(entries)@) == assoc_map(old(entries)@).insert(key, value as nat),
{
    let ghost before = entries@;
    let mut i: usize = 0;
    while i < entries.len()
        invariant
            i <= entries.len(),
            entries@ == before,
            before == old(entries)@,
            assoc_wf(before, n),
            value < n,
            forall|j: int| 0 <= j < i ==> #[trigger] entries@[j].0 != key,
        decreases entries.len() - i,
    {
        if entries[i].0 == key {
            entries.set(i, (key, value));
            proof {
                assert(entries@ =~= before.update(i as int, (key, value)));
                assert forall|a: int, b: int| 0 <= a < b < entries@.len() implies #[trigger] entries@[a].0
                    != #[trigger] entries@[b].0 by {
                    assert(before[a].0 != before[b].0);
                }
                assert forall|a: int| 0 <= a < entries@.len() implies #[trigger] entries@[a].1 < n by {
                    if a != i {
                        assert(before[a].1 < n);
                    }
                }
                assert forall|k: u64| #[trigger] assoc_map(entries@).dom().contains(k) == assoc_map(before).insert(key, value as nat).dom().contains(k) by {
                    if assoc_map(before).dom().contains(k) {
                        let c = choose|c: int| 0 <= c < before.len() && #[trigger] before[c].0 == k;
                        assert(entries@[c].0 == k);
                    }
                    if k == key {
                        assert(entries@[i as int].0 == k);
                    }
                    if assoc_map(entries@).dom().contains(k) {
                        let c = choose|c: int| 0 <= c < entries@.len() && #[trigger] entries@[c].0 == k;
                        assert(before[c].0 == k);
                    }
                }
                assert forall|k: u64| #[trigger] assoc_map(entries@).dom().contains(k) implies assoc_map(entries@)[k] == assoc_map(before).insert(key, value as nat)[k] by {
                    let c = choose|c: int| 0 <= c < entries@.len() && #[trigger] entries@[c].0 == k;
                    lemma_assoc_at(entries@, n, c);
                    if k != key {
                        lemma_assoc_at(before, n, c);
                    }
                }
                assert(assoc_map(entries@) =~= assoc_map(before).insert(key, value as nat));
            }
            return;
        }
        i = i + 1;
    }
    entries.push((key, value));
    proof {
        assert forall|a: int, b: int| 0 <= a < b < entries@.len() implies #[trigger] entries@[a].0
            != #[trigger] entries@[b].0 by {
            if b == before.len() {
                assert(before[a].0 != key);
            } else {
                assert(before[a].0 != before[b].0);
            }
        }
        assert forall|a: int| 0 <= a < entries@.len() implies #[trigger] entries@[a].1 < n by {
            if a < before.len() {
                assert(before[a].1 < n);
            }
        }
        assert forall|k: u64| #[trigger] assoc_map(entries@).dom().contains(k) == assoc_map(before).insert(key, value as nat).dom().contains(k) by {
            if assoc_map(before).dom().contains(k) {
                let c = choose|c: int| 0 <= c < before.len() && #[trigger] before[c].0 == k;
                assert(entries@[c].0 == k);
            }
            if k == key {
                assert(entries@[before.len() as int].0 == k);
            }
            if assoc_map(entries@).dom().contains(k) && k != key {
                let c = choose|c: int| 0 <= c < entries@.len() && #[trigger] entries@[c].0 == k;
                assert(before[c].0 == k);
            }
        }
        assert forall|k: u64| #[trigger] assoc_map(entries@).dom().contains(k) implies assoc_map(entries@)[k] == assoc_map(before).insert(key, value as nat)[k] by {
            let c = choose|c: int| 0 <= c < entries@.len() && #[trigger] entries@[c].0 == k;
            lemma_assoc_at(entries@, n, c);
            if k != key {
                lemma_assoc_at(before, n, c);
            }
        }
        assert(assoc_map(entries@) =~= assoc_map(before).insert(key, value as nat));
    }
}

// ----------------------------------------------------------------------------
// End of a chat-completions stream
// ----------------------------------------------------------------------------

/// What a stream reports when the provider signals completion: the
/// gathered tool calls when there are any, else the end of the response.
pub fn completion_event(calls: IndexedToolCalls) -> (result: Result<ProviderEvent, ProviderError>)
    ensures
        calls.entries@.len() == 0 ==> result == Ok::<ProviderEvent, ProviderError>(ProviderEvent::Finished),
        calls.entries@.len() > 0 ==> match first_unfinished(calls.entries@.map_values(|e: (u64, ToolCallParts)| e.1@)) {
            Some(c) => result matches Err(ProviderError::Diagnostic { stage, category, .. })
                && stage@ == "tool_calls"@ && category@ == c,
            None => result matches Ok(ProviderEvent::ToolCalls(v)) && v@.len() == calls.entries@.len()
                && forall|i: int| 0 <= i < v@.len() ==> #[trigger] v@[i].id@ == calls.entries@[i].1.id@
                    && v@[i].name@ == calls.entries@[i].1.name@ && v@[i].arguments@
                    == calls.entries@[i].1.arguments@,
        },
{
    if calls.entries.len() == 0 {
        return Ok(ProviderEvent::Finished);
    }
    match calls.finish() {
        Ok(v) => Ok(ProviderEvent::ToolCalls(v)),
        Err(e) => Err(e),
    }
}

/// What a stream that closed without signalling completion reports: a
/// cancellation when the operator asked for one, else an error.
pub fn closed_stream(cancelled: bool) -> (result: Result<ProviderEvent, ProviderError>)
    ensures
        cancelled ==> result == Ok::<ProviderEvent, ProviderError>(ProviderEvent::Cancelled),
        !cancelled ==> (result matches Err(ProviderError::Diagnostic { stage, category, detail })
            && stage@ == "stream"@ && category@ == "unexpected_eof"@ && detail@ == sanitized(
            "provider closed the stream before signalling completion"@,
        )),
{
    if cancelled {
        Ok(ProviderEvent::Cancelled)
    } else {
        Err(ProviderError::diagnostic("stream", "unexpected_eof", "provider closed the stream before signalling completion"))
    }
}

} // verus!
