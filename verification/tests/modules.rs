use std::cell::RefCell;

use roven::agent::ProviderEvent;
use roven::credentials::{store_confirmed_api_key, CredentialError, SecretStore};
use roven::files::{read_file_io_reason, size_error_reason, ReadFileErrorReason};
use roven::model_catalog::ProviderKind;
use roven::profiles::normalize_endpoint;
use roven::provider::{io_error, request_error, TransportFailure};
use roven::remote::{api_url, is_native_ollama_endpoint, metadata_url, parse_context_window};
use roven::state::{AppState, MessageKind, Role};
use roven::stream::{
    chunk_events, invalid_stream_json, sse_data, DeltaReasoning, IndexedToolCalls, SseData, StreamChunk,
    ToolCallAccumulator, ToolCallDelta,
};
use roven::tools::IoKind;

#[derive(Default)]
struct MemoryStore {
    value: RefCell<Option<String>>,
    failure: bool,
}

impl SecretStore for MemoryStore {
    fn get(&self) -> Result<Option<String>, CredentialError> {
        if self.failure {
            Err(CredentialError::StoreUnavailable)
        } else {
            Ok(self.value.borrow().clone())
        }
    }

    fn set(&self, secret: &str) -> Result<(), CredentialError> {
        if self.failure {
            return Err(CredentialError::StoreUnavailable);
        }
        *self.value.borrow_mut() = Some(secret.to_owned());
        Ok(())
    }

    fn delete(&self) -> Result<bool, CredentialError> {
        if self.failure {
            return Err(CredentialError::StoreUnavailable);
        }
        Ok(self.value.borrow_mut().take().is_some())
    }
}

fn json(text: &str) -> serde_json::Value {
    serde_json::from_str(text).unwrap()
}

#[test]
fn confirmed_key_is_stored_without_returning_or_printing_it() {
    let store = MemoryStore::default();
    store_confirmed_api_key(&store, "prompted-secret", "prompted-secret")
        .expect("confirmed credential should store");
    assert_eq!(
        store.get().expect("stored credential should read"),
        Some("prompted-secret".into())
    );
}

#[test]
fn empty_secret_does_not_store_a_credential() {
    let store = MemoryStore::default();
    let empty = store_confirmed_api_key(&store, " ", " ");
    assert!(matches!(empty, Err(CredentialError::EmptyValue)));
    assert_eq!(store.get().expect("store should remain empty"), None);
}

#[test]
fn credential_status_distinguishes_configured_and_missing_entries() {
    let configured = MemoryStore {
        value: RefCell::new(Some("stored-secret".into())),
        failure: false,
    };
    let missing = MemoryStore::default();

    assert!(configured.get().expect("configured store should be readable").is_some());
    assert!(missing.get().expect("missing store should be readable").is_none());
}

#[test]
fn removal_distinguishes_present_and_absent_entries() {
    let present = MemoryStore {
        value: RefCell::new(Some("stored-secret".into())),
        failure: false,
    };
    let absent = MemoryStore::default();

    assert!(present.delete().expect("present credential should be removed"));
    assert!(!absent.delete().expect("absent credential should not be removed"));
    assert_eq!(present.get().expect("store should be readable"), None);
}

#[test]
fn confirmation_mismatch_preserves_an_existing_credential() {
    let store = MemoryStore {
        value: RefCell::new(Some("existing-secret".into())),
        failure: false,
    };

    let error = store_confirmed_api_key(&store, "new-secret", "different-secret")
        .expect_err("mismatched confirmation must fail");

    assert!(matches!(error, CredentialError::ConfirmationMismatch));
    assert_eq!(store.get().expect("store should be readable"), Some("existing-secret".into()));
}

#[test]
fn confirmed_profile_key_requires_matching_confirmation() {
    let store = MemoryStore {
        value: RefCell::new(Some("existing-secret".into())),
        failure: false,
    };

    let error = store_confirmed_api_key(&store, "new-secret", "different-secret")
        .expect_err("mismatched confirmation must fail");

    assert!(matches!(error, CredentialError::ConfirmationMismatch));
    assert_eq!(store.get().unwrap().as_deref(), Some("existing-secret"));
}

#[test]
fn store_failures_return_safe_errors_without_changing_a_retained_credential() {
    let store = MemoryStore {
        value: RefCell::new(Some("existing-secret".into())),
        failure: true,
    };

    let status = store.get().expect_err("an unavailable store must make status fail safely");
    let replacement = store_confirmed_api_key(&store, "new-secret", "new-secret")
        .expect_err("an unavailable store must reject replacement");
    let removal = store.delete().expect_err("an unavailable store must reject removal");

    assert!(matches!(status, CredentialError::StoreUnavailable));
    assert!(matches!(replacement, CredentialError::StoreUnavailable));
    assert!(matches!(removal, CredentialError::StoreUnavailable));
    assert_eq!(
        store.value.borrow().as_deref(),
        Some("existing-secret"),
        "failure must not clear a retained credential"
    );
}

#[test]
fn classifies_known_provider_endpoints() {
    assert_eq!(
        ProviderKind::from_endpoint("https://openrouter.ai/api/v1/chat/completions"),
        Some(ProviderKind::OpenRouter)
    );
    assert_eq!(ProviderKind::from_endpoint("https://ollama.com/api/chat"), Some(ProviderKind::OllamaCloud));
    assert_eq!(ProviderKind::from_endpoint("https://ollama.com/v1/chat/completions"), None);
}

#[test]
fn rejects_unsafe_or_incomplete_endpoints() {
    for endpoint in [
        "http://example.test/v1",
        "https://key@example.test/v1",
        "https://example.test/v1?key=secret",
        "https://example.test/v1#fragment",
        "https://",
    ] {
        assert!(normalize_endpoint(endpoint).is_err(), "{endpoint}");
    }
}

#[test]
fn only_fetches_metadata_for_openrouter_hosts() {
    assert_eq!(metadata_url("https://example.test/v1/chat/completions", "a/model"), None);
}

#[test]
fn builds_the_openrouter_endpoints_url_from_the_chat_endpoint() {
    assert_eq!(
        metadata_url("https://openrouter.ai/api/v1/chat/completions", "openai/gpt-oss-20b").as_deref(),
        Some("https://openrouter.ai/api/v1/models/openai/gpt-oss-20b/endpoints")
    );
}

#[test]
fn reads_positive_context_lengths_from_endpoint_records() {
    assert_eq!(parse_context_window(&vec![Some(0), Some(131072), Some(32768)]), Some(131072));
}

#[test]
fn native_endpoint_uses_the_documented_ollama_routes() {
    assert!(is_native_ollama_endpoint("https://ollama.com/api/chat"));
    assert!(!is_native_ollama_endpoint("https://ollama.com/v1/chat/completions"));
    assert_eq!(
        api_url("https://ollama.com/api/chat", "/api/show").as_deref(),
        Some("https://ollama.com/api/show")
    );
}

fn delta(index: Option<u64>, id: Option<&str>, name: Option<&str>, arguments: Option<&str>) -> ToolCallDelta {
    ToolCallDelta {
        index,
        id: id.map(str::to_owned),
        name: name.map(str::to_owned),
        arguments: arguments.map(str::to_owned),
    }
}

#[test]
fn groups_parallel_calls_by_id_when_ollama_reuses_index_zero() {
    let deltas = vec![
        delta(Some(0), Some("call_one"), Some("list_directory"), Some("{\"path\":\"rag\"}")),
        delta(Some(0), Some("call_two"), Some("read_file"), Some("{\"path\":\".gitignore\"}")),
        delta(
            Some(0),
            Some("call_three"),
            Some("read_file"),
            Some("{\"path\":\"run_streamlit_ui_command.txt\"}"),
        ),
    ];
    let mut accumulator = ToolCallAccumulator::new();
    accumulator.append(&deltas).unwrap();

    let calls = accumulator.finish().unwrap();
    assert_eq!(calls.len(), 3);
    assert_eq!(calls[0].id, "call_one");
    assert_eq!(json(&calls[0].arguments), json("{\"path\": \"rag\"}"));
    assert_eq!(calls[1].id, "call_two");
    assert_eq!(json(&calls[1].arguments), json("{\"path\": \".gitignore\"}"));
    assert_eq!(calls[2].id, "call_three");
    assert_eq!(json(&calls[2].arguments), json("{\"path\": \"run_streamlit_ui_command.txt\"}"));
}

fn text_chunk(content: &str) -> StreamChunk {
    StreamChunk {
        error: None,
        reasoning: DeltaReasoning { direct: None, details: None },
        content: Some(content.to_owned()),
        finished: false,
    }
}

#[test]
fn parser_returns_text_and_completion_events() {
    match sse_data(r#"data: {"choices":[{"delta":{"content":"Hi"},"finish_reason":null}]}"#) {
        SseData::Payload(payload) => {
            assert_eq!(payload, r#"{"choices":[{"delta":{"content":"Hi"},"finish_reason":null}]}"#)
        }
        other => panic!("expected a payload, got {other:?}"),
    }
    assert_eq!(chunk_events(text_chunk("Hi")).unwrap(), vec![ProviderEvent::Text("Hi".to_owned())]);
    assert!(matches!(sse_data("data: [DONE]"), SseData::Done));
}

#[test]
fn tool_call_chunks_become_roven_tool_calls() {
    let mut chunks = IndexedToolCalls::new();
    chunks
        .append_tool_call_deltas(&vec![delta(Some(0), Some("call_1"), Some("prepare_"), Some("{\"path\":\"C:"))])
        .unwrap();
    chunks
        .append_tool_call_deltas(&vec![delta(Some(0), None, Some("project"), Some("\\\\work\"}"))])
        .unwrap();

    let calls = chunks.finish().unwrap();
    assert_eq!(calls.len(), 1);
    assert_eq!(calls[0].id, "call_1");
    assert_eq!(calls[0].name, "prepare_project");
    assert_eq!(json(&calls[0].arguments), json("{ \"path\": \"C:\\\\work\" }"));
}

#[test]
fn request_error_keeps_the_http_status_without_exposing_credentials() {
    let error = request_error(&TransportFailure::Status(401));

    assert_eq!(error.message(), "Provider rejected the request (HTTP 401)");
    assert!(!error.message().contains("Bearer"));
}

#[test]
fn request_errors_preserve_the_transport_failure_category() {
    assert_eq!(
        request_error(&TransportFailure::HostNotFound).message(),
        "Provider request failed (dns): host not found"
    );
    assert_eq!(
        request_error(&TransportFailure::ConnectionFailed).message(),
        "Provider request failed (connection): connection failed"
    );
    assert_eq!(
        request_error(&TransportFailure::Io {
            kind: "ConnectionRefused".to_owned(),
            detail: "connection refused by provider".to_owned(),
        })
        .message(),
        "Provider request failed (io): kind=connection_refused detail=connection refused by provider"
    );
    assert_eq!(
        request_error(&TransportFailure::Other(
            "the response body is larger than request limit: 42".to_owned()
        ))
        .message(),
        "Provider request failed (transport): the response body is larger than request limit: 42"
    );
}

#[test]
fn streamed_data_errors_report_the_stage_that_failed() {
    assert!(matches!(sse_data("data: not-json"), SseData::Payload(_)));
    assert_eq!(invalid_stream_json().message(), "Provider stream failed (json): invalid JSON stream event");
    assert_eq!(IndexedToolCalls::new().finish().unwrap().len(), 0);

    let error = io_error("stream", "TimedOut", "provider stopped responding");
    assert_eq!(
        error.message(),
        "Provider stream failed (io): kind=timed_out detail=provider stopped responding"
    );
}

#[test]
fn provider_stream_errors_expose_a_code_without_logging_the_response_message() {
    let chunk = StreamChunk {
        error: Some(Some("model_unavailable".to_owned())),
        reasoning: DeltaReasoning { direct: None, details: None },
        content: None,
        finished: false,
    };
    let error = chunk_events(chunk).unwrap_err().message();

    assert_eq!(
        error,
        "Provider stream failed (remote_error): provider reported a stream error code=model_unavailable"
    );
    assert!(!error.contains("secret-value"));
}

#[test]
fn tools_read_file_io_reason_classifies_permission_and_other_errors() {
    assert_eq!(read_file_io_reason(IoKind::PermissionDenied), ReadFileErrorReason::PermissionDenied);
    assert_eq!(read_file_io_reason(IoKind::Other), ReadFileErrorReason::IoError);
}

#[test]
fn mod_read_file_io_reason_classifies_permission_and_other_errors() {
    assert_eq!(read_file_io_reason(IoKind::PermissionDenied), ReadFileErrorReason::PermissionDenied);
    assert_eq!(read_file_io_reason(IoKind::Other), ReadFileErrorReason::IoError);
}

#[test]
fn read_file_read_file_io_reason_classifies_permission_and_other_errors() {
    assert_eq!(read_file_io_reason(IoKind::PermissionDenied), ReadFileErrorReason::PermissionDenied);
    assert_eq!(read_file_io_reason(IoKind::Other), ReadFileErrorReason::IoError);
}

#[test]
fn tools_list_directory_size_errors_use_stable_codes() {
    assert_eq!(size_error_reason(IoKind::PermissionDenied).code(), "permission_denied");
    assert_eq!(size_error_reason(IoKind::Other).code(), "io_error");
}

#[test]
fn mod_list_directory_size_errors_use_stable_codes() {
    assert_eq!(size_error_reason(IoKind::PermissionDenied).code(), "permission_denied");
    assert_eq!(size_error_reason(IoKind::Other).code(), "io_error");
}

#[test]
fn slash_commands_filter_navigate_and_insert_without_submitting() {
    let mut state = AppState::new();
    state.insert_char('/');

    assert_eq!(state.slash_commands().len(), 3);
    state.select_next_slash_command();
    state.select_next_slash_command();
    state.insert_selected_slash_command();

    assert_eq!(state.input, "/model");
    assert!(!state.slash_command_menu_open());
    assert!(state.messages.is_empty());
}

#[test]
fn slash_command_menu_hides_for_unknown_input_and_escape() {
    let mut state = AppState::new();
    for character in "/unknown".chars() {
        state.insert_char(character);
    }
    assert!(!state.slash_command_menu_open());

    for _ in 0..7 {
        state.backspace();
    }
    assert!(state.slash_command_menu_open());

    state.close_slash_command_menu();
    assert!(!state.slash_command_menu_open());
}

#[test]
fn submit_appends_only_the_user_turn_until_the_worker_replies() {
    let mut state = AppState::new();
    for character in "Hello".chars() {
        state.insert_char(character);
    }

    assert!(state.submit());
    assert_eq!(state.messages.len(), 1);
    assert!(matches!(state.messages[0].role, Role::User));
    assert_eq!(state.messages[0].content, "Hello");
}

#[test]
fn provider_thought_precedes_the_answer_and_records_its_duration() {
    let mut state = AppState::new();

    state.start_agent(1_000);
    assert_eq!(state.status.as_deref(), Some("Agent working..."));
    assert!(state.messages.is_empty());

    state.append_thought("Inspect the request.".to_owned());
    assert_eq!(state.status.as_deref(), Some("Thinking..."));
    state.append_agent_text("Hello".to_owned(), 1_250);
    assert_eq!(state.status.as_deref(), Some("Writing response..."));

    assert_eq!(state.messages[0].role, Role::Thought);
    assert_eq!(state.messages[0].content, "Inspect the request.");
    assert!(state.messages[0].duration_ms.is_some());
    assert_eq!(state.messages[1].role, Role::Roven);
    assert_eq!(state.messages[1].content, "Hello");
}

#[test]
fn streamed_text_deltas_accumulate_into_one_visible_model_message() {
    let mut state = AppState::new();
    state.start_agent(0);

    state.append_agent_text("Here is ".to_owned(), 10);
    state.append_agent_text("the answer.".to_owned(), 20);

    assert_eq!(state.messages.len(), 1);
    assert_eq!(state.messages[0].role, Role::Roven);
    assert_eq!(state.messages[0].content, "Here is the answer.");
}

#[test]
fn whitespace_only_input_does_not_create_turns() {
    let mut state = AppState::new();
    state.insert_char(' ');

    assert!(!state.submit());
    assert!(state.messages.is_empty());
    assert_eq!(state.input, " ");
}

#[test]
fn newline_and_backspace_edit_the_composer() {
    let mut state = AppState::new();
    state.insert_char('a');
    state.insert_newline();
    state.insert_char('b');
    state.backspace();

    assert_eq!(state.input, "a\n");
}

#[test]
fn running_agent_keeps_draft_editable_but_blocks_submission_until_finished() {
    let mut state = AppState::new();
    state.start_agent(0);

    state.insert_char('d');
    state.insert_char('r');
    state.insert_char('a');
    state.insert_char('f');
    state.insert_char('t');
    state.insert_newline();
    state.insert_char('2');
    state.backspace();

    assert_eq!(state.input, "draft\n");
    assert!(!state.submit());

    state.finish_agent(5);
    assert!(state.submit());
    assert_eq!(state.messages[0].content, "draft\n");
}

#[test]
fn scrolling_clamps_at_both_transcript_bounds() {
    let mut state = AppState::new();
    state.scroll_up(5);
    assert_eq!(state.scroll_offset, 0);

    state.scroll_down(5);
    assert_eq!(state.scroll_offset, 0);
}

#[test]
fn tool_appends_structured_tool_messages_for_live_calls() {
    let mut state = AppState::new();
    state.tool("list_directory".to_owned(), "{\"path\": \".\"}".to_owned(), "{\"status\": \"ok\"}".to_owned());

    assert_eq!(state.messages.len(), 1);
    let message = &state.messages[0];
    assert_eq!(message.role, Role::Activity);
    assert!(message.content.is_empty());
    match &message.kind {
        MessageKind::Tool { name, input, output } => {
            assert_eq!(name, "list_directory");
            assert_eq!(json(input)["path"], ".");
            assert_eq!(json(output)["status"], "ok");
        }
        MessageKind::Text => panic!("expected a tool message"),
    }
}
