use roven::agent::ProviderEvent;
use roven::auth::{missing_profile_message, plan_removal};
use roven::native::{native_eof_error, NativeChunk, NativeStream, NativeToolCallChunk, StreamCapture};
use roven::profiles::{ProfileError, ProviderProfile};
use roven::screen::{composer_height, display_workspace_path, footer_text, resume_screen_text, visible_composer_text};
use roven::state::ResumeEntry;
use roven::stream::{closed_stream, completion_event, IndexedToolCalls, ToolCallDelta};
use roven::tools::{in_progress_markers, is_within, tool_named, ToolKind};

fn chunk(thinking: &str, content: &str, calls: Option<Vec<NativeToolCallChunk>>, done: bool) -> NativeChunk {
    NativeChunk {
        has_error: false,
        thinking: Some(thinking.to_owned()),
        content: Some(content.to_owned()),
        tool_calls: calls,
        done,
        prompt_eval_count: Some(37),
    }
}

fn call(name: Option<&str>, arguments: Option<&str>) -> NativeToolCallChunk {
    NativeToolCallChunk {
        has_function: true,
        name: name.map(str::to_owned),
        arguments: arguments.map(str::to_owned),
    }
}

fn profile(id: &str, name: &str) -> ProviderProfile {
    ProviderProfile {
        id: id.to_owned(),
        name: name.to_owned(),
        endpoint: "https://example.test/v1".to_owned(),
        model: "model".to_owned(),
    }
}

#[test]
fn native_lines_report_thoughts_text_calls_and_usage() {
    let mut stream = NativeStream::new();
    let (events, outcome) = stream.observe(chunk(
        "checking",
        "",
        Some(vec![call(Some("list_directory"), Some("{\"path\":\".\"}"))]),
        false,
    ));
    assert_eq!(outcome.unwrap(), false);
    assert_eq!(events, vec![ProviderEvent::Thought("checking".to_owned())]);
    let (events, outcome) = stream.observe(chunk("", "done", None, true));
    assert!(outcome.unwrap());
    assert_eq!(events.len(), 4);
    assert_eq!(events[0], ProviderEvent::Text("done".to_owned()));
    assert_eq!(events[1], ProviderEvent::ContextUsage(37));
    match &events[2] {
        ProviderEvent::ToolCalls(calls) => {
            assert_eq!(calls.len(), 1);
            assert_eq!(calls[0].id, "ollama-call-0");
            assert_eq!(calls[0].name, "list_directory");
        }
        other => panic!("expected tool calls, got {other:?}"),
    }
    assert_eq!(events[3], ProviderEvent::Finished);
}

#[test]
fn native_tool_calls_need_a_name_and_object_arguments() {
    let mut stream = NativeStream::new();
    let (events, outcome) = stream.observe(chunk("", "partial", Some(vec![call(Some(""), Some("{}"))]), false));
    assert_eq!(events, vec![ProviderEvent::Text("partial".to_owned())]);
    assert_eq!(
        outcome.unwrap_err().message(),
        "Provider tool_calls failed (invalid_tool_call): Ollama tool call has no function name"
    );
    let (_, outcome) = NativeStream::new().observe(chunk("", "", Some(vec![call(Some("read_file"), None)]), false));
    assert_eq!(
        outcome.unwrap_err().message(),
        "Provider tool_calls failed (invalid_arguments): Ollama tool call arguments must be a JSON object"
    );
    let mut failing = chunk("", "", None, false);
    failing.has_error = true;
    let (events, outcome) = NativeStream::new().observe(failing);
    assert!(events.is_empty());
    assert_eq!(outcome.unwrap_err().message(), "Provider stream failed (remote_error): Ollama returned a streaming error");
    assert_eq!(
        native_eof_error().message(),
        "Provider stream failed (unexpected_eof): Ollama closed the NDJSON stream before done=true"
    );
}

#[test]
fn captures_keep_ollama_lines_up_to_the_limit() {
    let mut capture = StreamCapture::new("https://ollama.com/api/chat", "minimax-m3:cloud");
    assert!(capture.reports_failures());
    capture.record_line("{\"done\":false}");
    assert_eq!(capture.lines, b"{\"done\":false}\n".to_vec());
    let long = "x".repeat(1024 * 1024);
    capture.record_line(&long);
    assert!(capture.truncated);
    capture.record_line("later");
    assert_eq!(capture.lines, b"{\"done\":false}\n".to_vec());

    let mut other = StreamCapture::new("https://openrouter.ai/api/v1/chat/completions", "openai/gpt-oss-20b");
    other.record_line("data: {}");
    assert!(!other.reports_failures());
    assert!(other.lines.is_empty());
}

#[test]
fn chat_streams_end_with_calls_or_completion() {
    assert_eq!(completion_event(IndexedToolCalls::new()).unwrap(), ProviderEvent::Finished);
    let mut calls = IndexedToolCalls::new();
    calls
        .append_tool_call_deltas(&vec![ToolCallDelta {
            index: Some(0),
            id: Some("call_1".to_owned()),
            name: Some("list_tools".to_owned()),
            arguments: Some("{}".to_owned()),
        }])
        .unwrap();
    match completion_event(calls).unwrap() {
        ProviderEvent::ToolCalls(found) => assert_eq!(found[0].name, "list_tools"),
        other => panic!("expected tool calls, got {other:?}"),
    }
    assert_eq!(closed_stream(true).unwrap(), ProviderEvent::Cancelled);
    assert_eq!(
        closed_stream(false).unwrap_err().message(),
        "Provider stream failed (unexpected_eof): provider closed the stream before signalling completion"
    );
}

#[test]
fn containment_compares_whole_components() {
    assert!(is_within("/work/project", "/work/project"));
    assert!(is_within("/work/project", "/work/project/src/main.rs"));
    assert!(is_within("/work/project/", "/work/project//src"));
    assert!(!is_within("/work/project", "/work/project-else/notes.txt"));
    assert!(!is_within("/work/project", "/work"));
    assert!(!is_within("/work", "work"));
}

#[test]
fn tools_are_dispatched_by_exact_name() {
    assert_eq!(tool_named("read_file"), Some(ToolKind::ReadFile));
    assert_eq!(tool_named("list_project"), Some(ToolKind::ListProject));
    assert_eq!(tool_named("Read_File"), None);
    assert_eq!(in_progress_markers().len(), 7);
    assert_eq!(in_progress_markers()[0], "MERGE_HEAD");
}

#[test]
fn the_composer_shows_at_most_four_lines() {
    assert_eq!(composer_height(""), 3);
    assert_eq!(composer_height("a\nb"), 4);
    assert_eq!(composer_height("1\n2\n3\n4\n5\n6"), 6);
    assert_eq!(visible_composer_text("1\n2\n3\n4\n5\n6"), "3\n4\n5\n6");
    assert_eq!(visible_composer_text("only"), "only");
}

#[test]
fn screen_texts_name_the_model_and_sessions() {
    assert_eq!(footer_text(Some("Cloud · m"), Some(12)), "Cloud · m · 12% context used");
    assert_eq!(footer_text(None, None), "No configured model · 0% context used");
    assert_eq!(display_workspace_path(r"\\?\C:\work"), r"C:\work");
    let entries = vec![
        ResumeEntry { id: "a".to_owned(), title: "First".to_owned(), updated_at_ms: 1 },
        ResumeEntry { id: "b".to_owned(), title: "Second".to_owned(), updated_at_ms: 0 },
    ];
    assert_eq!(
        resume_screen_text(&entries, 1),
        "Resume conversation\n\n  First\n> Second\n\nEnter resume   Esc back"
    );
    assert_eq!(
        resume_screen_text(&Vec::new(), 0),
        "Resume conversation\n\nNo previous sessions for this project\n\nEnter resume   Esc back"
    );
}

#[test]
fn removing_the_default_offers_the_others() {
    let profiles = vec![profile("a", "first"), profile("b", "second"), profile("c", "third")];
    let plan = plan_removal(&profiles, Some("b"), "second").unwrap();
    assert_eq!(plan.profile.id, "b");
    let offered: Vec<&str> = plan.replacement_choices.iter().map(|p| p.id.as_str()).collect();
    assert_eq!(offered, vec!["a", "c"]);
    let plain = plan_removal(&profiles, Some("b"), "third").unwrap();
    assert!(plain.replacement_choices.is_empty());
    assert!(plan_removal(&profiles, None, "missing").is_none());
    assert_eq!(missing_profile_message("missing"), "provider profile `missing` does not exist");
    assert_eq!(
        ProfileError::DuplicateName("first".to_owned()).message(),
        "a provider profile named `first` already exists"
    );
}
