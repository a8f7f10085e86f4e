use roven::agent::{AgentMessage, ToolCall, ToolResult};
use roven::controls::{
    access_problem_message, access_state, profile_label, unsupported_model_message, Key, UiAction, UiEvent,
    WorkerEvent,
};
use roven::conversation::{
    event_to_message, generation_events, request_messages, system_prompt, ConversationEvent, EventKind,
    SYSTEM_PREAMBLE, TOOL_USE_POLICY,
};
use roven::credentials::credential_account;
use roven::files::{
    check_read_target, human_workspace_path, list_entries, read_file_contents, DirectoryEntryKind,
    DirectoryEntrySizeError, RawDirectoryEntry, ReadFileErrorReason, READ_FILE_SIZE_LIMIT,
};
use roven::profiles::ProfileDocument;
use roven::runtime_log::{log_header, log_record, needs_header, sanitize};
use roven::state::{AppState, Message, MessageKind, ModelSelection, ProviderAccessState, ProviderChoice, ResumeEntry, Role};
use roven::tools::IoKind;
use roven::ui::register_project_prompt;

fn key(key: Key) -> UiEvent {
    UiEvent::Key { key, pressed: true, alt: false, control: false }
}

fn type_text(state: &mut AppState, text: &str) {
    for character in text.chars() {
        assert_eq!(state.handle_event(key(Key::Char(character))), UiAction::Nothing);
    }
}

fn trusted_state() -> AppState {
    let mut state = AppState::new();
    assert_eq!(state.handle_event(key(Key::Enter)), UiAction::TrustWorkspace);
    state.trusted = true;
    state
}

fn raw(name: &str, kind: DirectoryEntryKind, size: Result<u64, IoKind>) -> RawDirectoryEntry {
    RawDirectoryEntry { name: name.to_owned(), kind, size }
}

fn message_event(kind: EventKind, content: &str) -> ConversationEvent {
    ConversationEvent::message(kind, content.to_owned(), None, 7)
}

fn call_event(id: &str, name: &str, input: &str, output: &str) -> ConversationEvent {
    ConversationEvent::function_call_output(id.to_owned(), name.to_owned(), input.to_owned(), output.to_owned(), 7)
}

#[test]
fn log_records_keep_every_value_on_one_line() {
    let record = log_record(42, "pro`vider", "request\tfailed", "http_status=429\nignored\r");
    assert_eq!(
        record,
        "- `timestamp_ms=42` `component=pro'vider` `event=request failed` http_status=429 ignored \n"
    );
    assert_eq!(record.matches('\n').count(), 1);
    assert_eq!(sanitize("a`b\nc"), "a'b c");
    assert_eq!(log_header(), "# Roven runtime log\n\n");
    assert!(needs_header(None));
    assert!(needs_header(Some(0)));
    assert!(!needs_header(Some(12)));
}

#[test]
fn read_file_limit_is_inclusive() {
    assert_eq!(check_read_target(true, READ_FILE_SIZE_LIMIT), Ok(()));
    assert_eq!(check_read_target(true, READ_FILE_SIZE_LIMIT + 1), Err(ReadFileErrorReason::FileTooLarge));
    assert_eq!(check_read_target(false, 3), Err(ReadFileErrorReason::NotFile));
    assert_eq!(read_file_contents(vec![b'x'; 51200]).map(|text| text.len()), Ok(51200));
    assert_eq!(read_file_contents(vec![b'x'; 51201]), Err(ReadFileErrorReason::FileTooLarge));
    assert_eq!(read_file_contents(vec![0xff]), Err(ReadFileErrorReason::NotText));
    assert_eq!(read_file_contents("héllo\n".as_bytes().to_vec()), Ok("héllo\n".to_owned()));
    assert_eq!(ReadFileErrorReason::NotText.code(), "not_text");
}

#[test]
fn listings_put_directories_first_and_sort_by_name() {
    let (entries, truncated) = list_entries(
        "",
        vec![
            raw("zeta", DirectoryEntryKind::Directory, Ok(0)),
            raw("middle.txt", DirectoryEntryKind::File, Ok(4)),
            raw("link", DirectoryEntryKind::Symlink, Ok(0)),
            raw("alpha", DirectoryEntryKind::Directory, Ok(0)),
            raw("locked.txt", DirectoryEntryKind::File, Err(IoKind::PermissionDenied)),
        ],
    );
    assert!(!truncated);
    let names: Vec<&str> = entries.iter().map(|entry| entry.name.as_str()).collect();
    assert_eq!(names, vec!["alpha", "zeta", "locked.txt", "middle.txt", "link"]);
    assert_eq!(entries[0].path, "alpha");
    assert_eq!(entries[3].size_bytes, Some(4));
    assert_eq!(entries[2].size_error, Some(DirectoryEntrySizeError::PermissionDenied));
    assert_eq!(entries[4].size_error, Some(DirectoryEntrySizeError::SymlinkNotFollowed));
    assert_eq!(entries[0].size_bytes, None);
}

#[test]
fn listings_stop_at_one_hundred_entries() {
    let raw_entries: Vec<RawDirectoryEntry> = (0..101)
        .map(|number| raw(&format!("file-{number:03}.txt"), DirectoryEntryKind::File, Ok(4)))
        .collect();
    let (entries, truncated) = list_entries("src", raw_entries);
    assert!(truncated);
    assert_eq!(entries.len(), 100);
    assert_eq!(entries[0].path, "src/file-000.txt");
    assert_eq!(entries[99].name, "file-099.txt");
}

#[test]
fn workspace_roots_drop_verbatim_prefixes() {
    assert_eq!(human_workspace_path(r"\\?\C:\work"), r"C:\work");
    assert_eq!(human_workspace_path(r"\\?\UNC\server\share"), r"\\server\share");
    assert_eq!(human_workspace_path("/home/me/work"), "/home/me/work");
}

#[test]
fn stored_sessions_replay_turns_reasoning_and_tool_calls() {
    let events = vec![
        message_event(EventKind::User, "/register"),
        message_event(EventKind::Thought, "look "),
        message_event(EventKind::Thought, "first"),
        call_event("call-1", "list_directory", "{\"path\":\".\"}", "{\"status\":\"ok\"}"),
        ConversationEvent::message(EventKind::FunctionCallOutput, String::new(), None, 7),
        call_event("call-2", "read_file", "{\"path\":\"a\"}", "{\"status\":\"error\"}"),
        message_event(EventKind::Error, "boom"),
        message_event(EventKind::Assistant, "done"),
    ];
    let messages = request_messages(&events, "Be brief.");
    assert_eq!(messages.len(), 6);
    match &messages[0] {
        AgentMessage::System { content } => {
            assert!(content.starts_with(SYSTEM_PREAMBLE));
            assert!(content.contains(TOOL_USE_POLICY));
            assert!(content.ends_with("\n\nProject instructions:\nBe brief."));
        }
        other => panic!("expected the system message, got {other:?}"),
    }
    match &messages[1] {
        AgentMessage::User { content } => assert_eq!(content, register_project_prompt()),
        other => panic!("expected the user turn, got {other:?}"),
    }
    match &messages[2] {
        AgentMessage::Assistant { content, reasoning, tool_calls } => {
            assert!(content.is_empty());
            assert_eq!(reasoning.as_deref(), Some("look first"));
            assert_eq!(tool_calls.len(), 2);
            assert_eq!(tool_calls[1].id, "call-2");
            assert_eq!(tool_calls[1].arguments, "{\"path\":\"a\"}");
        }
        other => panic!("expected the tool-call turn, got {other:?}"),
    }
    match &messages[4] {
        AgentMessage::Tool { result } => {
            assert_eq!(result.tool_call_id, "call-2");
            assert_eq!(result.result, "{\"status\":\"error\"}");
        }
        other => panic!("expected a tool result, got {other:?}"),
    }
    match &messages[5] {
        AgentMessage::Assistant { content, reasoning, tool_calls } => {
            assert_eq!(content, "done");
            assert_eq!(reasoning, &None);
            assert!(tool_calls.is_empty());
        }
        other => panic!("expected the answer, got {other:?}"),
    }
    assert_eq!(system_prompt(""), format!("{SYSTEM_PREAMBLE}{TOOL_USE_POLICY}"));
}

#[test]
fn resumed_events_show_commands_and_tool_cards() {
    let prompt = message_event(EventKind::User, register_project_prompt());
    let shown = event_to_message(prompt);
    assert_eq!(shown.role, Role::User);
    assert_eq!(shown.content, "/register");

    let cancelled = event_to_message(message_event(EventKind::Cancelled, "partial"));
    assert_eq!(cancelled.role, Role::Roven);
    assert_eq!(cancelled.content, "partial");

    let mut missing = call_event("id", "read_file", "{}", "{}");
    missing.tool_input = None;
    let tool = event_to_message(missing);
    assert_eq!(tool.role, Role::Activity);
    match tool.kind {
        MessageKind::Tool { name, input, output } => {
            assert_eq!(name, "read_file");
            assert_eq!(input, "null");
            assert_eq!(output, "{}");
        }
        MessageKind::Text => panic!("expected a tool card"),
    }
}

#[test]
fn generations_record_thoughts_and_answers_only() {
    let messages = vec![
        Message::text(Role::User, "question".to_owned(), None),
        Message::text(Role::Thought, "thinking".to_owned(), Some(12)),
        Message::text(Role::Activity, "note".to_owned(), None),
        Message::text(Role::Roven, String::new(), None),
        Message::text(Role::Roven, "answer".to_owned(), None),
    ];
    let events = generation_events(&messages, EventKind::Cancelled, 99);
    assert_eq!(events.len(), 2);
    assert_eq!(events[0].kind, EventKind::Thought);
    assert_eq!(events[0].duration_ms, Some(12));
    assert_eq!(events[1].kind, EventKind::Cancelled);
    assert_eq!(events[1].content, "answer");
    assert_eq!(events[1].created_at_ms, 99);
}

#[test]
fn the_trust_prompt_decides_before_anything_else() {
    let mut state = AppState::new();
    assert_eq!(state.handle_event(key(Key::Char('x'))), UiAction::Nothing);
    assert!(state.input.is_empty());
    assert_eq!(state.handle_event(key(Key::Down)), UiAction::Nothing);
    assert!(!state.trust_yes_selected);
    assert_eq!(state.handle_event(key(Key::Enter)), UiAction::Exit);
    assert_eq!(
        state.handle_event(UiEvent::Key { key: Key::Enter, pressed: false, alt: false, control: false }),
        UiAction::Nothing
    );
    assert_eq!(state.handle_event(key(Key::Esc)), UiAction::Exit);
    assert_eq!(
        state.handle_event(UiEvent::Key { key: Key::Char('c'), pressed: true, alt: false, control: true }),
        UiAction::Exit
    );
}

#[test]
fn the_composer_opens_pickers_and_starts_turns() {
    let mut state = trusted_state();
    type_text(&mut state, "/resume");
    state.close_slash_command_menu();
    assert_eq!(state.handle_event(key(Key::Enter)), UiAction::OpenResumePicker);
    assert!(state.input.is_empty());

    type_text(&mut state, "hello");
    assert_eq!(
        state.handle_event(UiEvent::Key { key: Key::Enter, pressed: true, alt: true, control: false }),
        UiAction::Nothing
    );
    assert_eq!(state.input, "hello\n");
    assert_eq!(state.handle_event(key(Key::Enter)), UiAction::StartTurn);
    assert_eq!(state.messages.len(), 1);
    assert_eq!(state.messages[0].content, "hello\n");

    assert_eq!(state.handle_event(key(Key::Enter)), UiAction::Nothing);
    state.start_agent(0);
    assert_eq!(state.handle_event(key(Key::Esc)), UiAction::CancelTurn);
    assert_eq!(state.status.as_deref(), Some("Stopping agent..."));
}

#[test]
fn the_resume_picker_resumes_the_selected_session() {
    let mut state = trusted_state();
    state.open_resume(vec![
        ResumeEntry { id: "first".to_owned(), title: "First".to_owned(), updated_at_ms: 2 },
        ResumeEntry { id: "second".to_owned(), title: "Second".to_owned(), updated_at_ms: 1 },
    ]);
    assert_eq!(state.handle_event(key(Key::Down)), UiAction::Nothing);
    assert_eq!(state.handle_event(key(Key::Enter)), UiAction::ResumeSession("second".to_owned()));
    assert_eq!(state.handle_event(key(Key::Esc)), UiAction::Nothing);
    assert!(state.resume_entries.is_none());
}

fn choice(access: ProviderAccessState, endpoint: &str) -> ProviderChoice {
    ProviderChoice {
        id: "profile-1".to_owned(),
        name: "Cloud".to_owned(),
        endpoint: endpoint.to_owned(),
        model: "old-model".to_owned(),
        access,
    }
}

#[test]
fn model_switches_are_checked_before_they_are_saved() {
    let mut state = trusted_state();
    state.open_model_selection(vec![choice(ProviderAccessState::Ready, "https://ollama.com/api/chat")], None);
    assert_eq!(state.handle_event(key(Key::Enter)), UiAction::Nothing);
    assert!(matches!(state.model_selection, Some(ModelSelection::Model { .. })));
    for _ in 0..20 {
        state.handle_event(key(Key::Backspace));
    }
    type_text(&mut state, "llama3.1:8b");
    assert_eq!(state.handle_event(key(Key::Enter)), UiAction::Nothing);
    match &state.model_selection {
        Some(ModelSelection::Model { error, .. }) => assert_eq!(
            error.as_deref(),
            Some("`llama3.1:8b` is not a supported Ollama Cloud model for Cloud. Enter one of Ollama's documented cloud model IDs.")
        ),
        other => panic!("expected the model entry, got {other:?}"),
    }
    for _ in 0..20 {
        state.handle_event(key(Key::Backspace));
    }
    type_text(&mut state, " gpt-oss:20b-cloud ");
    assert_eq!(
        state.handle_event(key(Key::Enter)),
        UiAction::SwitchModel { id: "profile-1".to_owned(), model: "gpt-oss:20b-cloud".to_owned() }
    );
    state.complete_model_switch("Cloud", "gpt-oss:20b-cloud");
    assert!(state.model_selection.is_none());
    assert_eq!(state.provider_model.as_deref(), Some("Cloud · gpt-oss:20b-cloud"));
    assert_eq!(state.messages.last().unwrap().content, "Active provider set to Cloud · gpt-oss:20b-cloud");
}

#[test]
fn model_messages_name_the_profile_and_model() {
    assert_eq!(
        access_problem_message("Cloud", ProviderAccessState::MissingApiKey),
        "Cloud is missing an API key. Run `roven auth set` before switching to it."
    );
    assert_eq!(
        access_problem_message("Cloud", ProviderAccessState::CredentialStoreUnavailable),
        "Cloud is unavailable because the credential store could not be read."
    );
    assert_eq!(
        unsupported_model_message("https://openrouter.ai/api/v1/chat/completions", "Router", "gpt"),
        "`gpt` is not a valid OpenRouter model ID for Router. Enter it as `provider/model`."
    );
    assert_eq!(
        unsupported_model_message("https://example.test/v1", "Other", "m"),
        "`m` is not supported for Other."
    );
    assert_eq!(profile_label("Cloud", "m"), "Cloud · m");
    assert_eq!(access_state(Ok(true)), ProviderAccessState::Ready);
    assert_eq!(access_state(Ok(false)), ProviderAccessState::MissingApiKey);
    assert_eq!(access_state(Err(())), ProviderAccessState::CredentialStoreUnavailable);
}

#[test]
fn worker_events_update_the_transcript_and_the_session() {
    let mut state = trusted_state();
    type_text(&mut state, "hi");
    assert_eq!(state.handle_event(key(Key::Enter)), UiAction::StartTurn);
    state.start_agent(100);
    assert!(state.apply_worker_event(WorkerEvent::Thought("plan".to_owned()), 120).is_empty());
    assert!(state.apply_worker_event(WorkerEvent::Text("ans".to_owned()), 150).is_empty());
    let recorded = state.apply_worker_event(
        WorkerEvent::FunctionCallOutput {
            call: ToolCall { id: "c".to_owned(), name: "list_tools".to_owned(), arguments: "{}".to_owned() },
            result: ToolResult { tool_call_id: "c".to_owned(), name: "list_tools".to_owned(), result: "{\"status\":\"ok\"}".to_owned() },
        },
        160,
    );
    assert_eq!(recorded.len(), 1);
    assert_eq!(recorded[0].tool_output.as_deref(), Some("{\"status\":\"ok\"}"));
    let finished = state.apply_worker_event(WorkerEvent::Cancelled, 200);
    assert!(!state.running);
    assert_eq!(state.messages.last().unwrap().content, "Agent stopped");
    assert_eq!(finished.len(), 2);
    assert_eq!(finished[0].kind, EventKind::Thought);
    assert_eq!(finished[0].duration_ms, Some(50));
    assert_eq!(finished[1].kind, EventKind::Cancelled);
    assert_eq!(finished[1].content, "ans");

    let mut failing = trusted_state();
    failing.start_agent(0);
    let events = failing.apply_worker_event(WorkerEvent::Error("offline".to_owned()), 5);
    assert_eq!(events.len(), 1);
    assert_eq!(events[0].kind, EventKind::Error);
    assert_eq!(failing.messages.last().unwrap().content, "Error: offline");
    failing.apply_worker_event(WorkerEvent::ContextUsage(12), 6);
    assert_eq!(failing.context_percent, Some(12));
}

#[test]
fn profile_names_stay_unique_and_the_first_becomes_default() {
    let mut document = ProfileDocument::empty();
    let first = document.create(" Cloud ", "https://ollama.com/api/chat", "gpt-oss:20b-cloud").unwrap();
    assert_eq!(first.name, "Cloud");
    assert_eq!(document.default_profile().unwrap().id, first.id);
    assert!(document.create("Cloud", "https://ollama.com/api/chat", "gpt-oss:20b-cloud").is_err());
    let second = document.create("Router", "https://openrouter.ai/api/v1/chat/completions", "openai/gpt-oss-20b").unwrap();
    assert_eq!(document.default_profile().unwrap().id, first.id);
    document.set_default(&second.id).unwrap();
    assert_eq!(document.default_profile().unwrap().name, "Router");
    document.remove(&second.id).unwrap();
    assert!(document.default_profile().is_none());
    assert_eq!(document.list().len(), 1);
    assert_ne!(credential_account(&first.id), credential_account(&second.id));
}

#[test]
fn up_and_down_move_the_resume_selection_within_the_list() {
    let mut state = trusted_state();
    state.open_resume(vec![
        ResumeEntry { id: "first".to_owned(), title: "First".to_owned(), updated_at_ms: 3 },
        ResumeEntry { id: "second".to_owned(), title: "Second".to_owned(), updated_at_ms: 2 },
        ResumeEntry { id: "third".to_owned(), title: "Third".to_owned(), updated_at_ms: 1 },
    ]);
    assert_eq!(state.resume_index, 0);
    state.handle_event(key(Key::Up));
    assert_eq!(state.resume_index, 0);
    for expected in [1, 2, 2] {
        state.handle_event(key(Key::Down));
        assert_eq!(state.resume_index, expected);
    }
    state.handle_event(key(Key::Up));
    assert_eq!(state.resume_index, 1);
    assert_eq!(state.handle_event(key(Key::Enter)), UiAction::ResumeSession("second".to_owned()));
}

#[test]
fn up_and_down_move_the_provider_selection_and_typing_edits_the_model() {
    let mut state = trusted_state();
    let mut second = choice(ProviderAccessState::Ready, "https://ollama.com/api/chat");
    second.id = "profile-2".to_owned();
    state.open_model_selection(vec![choice(ProviderAccessState::Ready, "https://ollama.com/api/chat"), second], None);
    state.handle_event(key(Key::Down));
    state.handle_event(key(Key::Down));
    match &state.model_selection {
        Some(ModelSelection::Provider { index, .. }) => assert_eq!(*index, 1),
        _ => panic!("the provider list should stay open"),
    }
    state.handle_event(key(Key::Up));
    match &state.model_selection {
        Some(ModelSelection::Provider { index, .. }) => assert_eq!(*index, 0),
        _ => panic!("the provider list should stay open"),
    }
    state.handle_event(key(Key::Enter));
    state.handle_event(key(Key::Char('x')));
    state.handle_event(key(Key::Backspace));
    state.handle_event(key(Key::Backspace));
    match &state.model_selection {
        Some(ModelSelection::Model { value, error, .. }) => {
            assert_eq!(value, "old-mode");
            assert!(error.is_none());
        }
        _ => panic!("the model entry should be open"),
    }
}

#[test]
fn the_command_menu_selection_moves_and_tab_inserts_the_selected_word() {
    let mut state = trusted_state();
    type_text(&mut state, "/");
    assert!(state.slash_command_menu_open);
    for expected in [1, 2, 2] {
        state.handle_event(key(Key::Down));
        assert_eq!(state.slash_command_index, expected);
    }
    state.handle_event(key(Key::Up));
    assert_eq!(state.slash_command_index, 1);
    state.handle_event(key(Key::Tab));
    assert_eq!(state.input, "/resume");
    assert!(!state.slash_command_menu_open);
}

#[test]
fn page_keys_and_the_wheel_scroll_by_three_lines_within_the_limit() {
    let mut state = trusted_state();
    state.set_scroll_limit(7);
    state.handle_event(key(Key::PageUp));
    assert_eq!(state.scroll_offset, 3);
    state.handle_event(UiEvent::ScrollUp);
    assert_eq!(state.scroll_offset, 6);
    state.handle_event(UiEvent::ScrollUp);
    assert_eq!(state.scroll_offset, 7);
    state.handle_event(key(Key::PageDown));
    assert_eq!(state.scroll_offset, 4);
    state.handle_event(UiEvent::ScrollDown);
    state.handle_event(UiEvent::ScrollDown);
    assert_eq!(state.scroll_offset, 0);
}
