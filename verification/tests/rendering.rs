use roven::controls::provider_choices;
use roven::profiles::ProviderProfile;
use roven::state::ProviderAccessState;
use roven::transcript::{
    clip_to_width, count_label, model_style, normalize_line_endings, plain, render_markdown_events,
    title_case_words, tool_box_bottom, tool_box_line, tool_box_top, user_style, wrap_inline,
    InlineText, MarkdownEvent, MarkdownTag, Shade, StyledLine,
};

fn chars(s: &str) -> Vec<char> {
    s.chars().collect()
}

fn text_of(v: &[char]) -> String {
    v.iter().collect()
}

fn spans(line: &StyledLine) -> Vec<(String, Option<roven::transcript::TextStyle>)> {
    line.spans.iter().map(|span| (span.text.clone(), span.style)).collect()
}

fn profile(id: &str, name: &str) -> ProviderProfile {
    ProviderProfile {
        id: id.to_owned(),
        name: name.to_owned(),
        endpoint: "https://openrouter.ai/api/v1".to_owned(),
        model: "openai/gpt-4o".to_owned(),
    }
}

#[test]
fn provider_choices_need_a_profile() {
    let result = provider_choices(&Vec::new());
    assert_eq!(result.err().as_deref(), Some("No provider profiles. Run `roven auth set`."));
}

#[test]
fn provider_choices_keep_profile_order_and_access() {
    let profiles = vec![
        (profile("a", "first"), ProviderAccessState::Ready),
        (profile("b", "second"), ProviderAccessState::MissingApiKey),
    ];
    let choices = provider_choices(&profiles).unwrap();
    assert_eq!(choices.len(), 2);
    assert_eq!(choices[0].id, "a");
    assert_eq!(choices[0].name, "first");
    assert_eq!(choices[0].access, ProviderAccessState::Ready);
    assert_eq!(choices[1].id, "b");
    assert_eq!(choices[1].model, "openai/gpt-4o");
    assert_eq!(choices[1].access, ProviderAccessState::MissingApiKey);
}

#[test]
fn line_endings_become_line_feeds() {
    assert_eq!(normalize_line_endings("a\r\nb\rc\n"), "a\nb\nc\n");
    assert_eq!(normalize_line_endings("\r\r\n"), "\n\n");
}

#[test]
fn clipping_keeps_what_fits_and_at_least_one_column() {
    assert_eq!(text_of(&clip_to_width(&chars("abcdef"), 3)), "abc");
    assert_eq!(text_of(&clip_to_width(&chars("abcdef"), 0)), "a");
    assert_eq!(text_of(&clip_to_width(&chars("ab"), 10)), "ab");
    assert_eq!(text_of(&clip_to_width(&chars("日本語"), 5)), "日本");
}

#[test]
fn counts_take_singular_or_plural_nouns() {
    assert_eq!(text_of(&count_label(1, "item", "items")), "1 item");
    assert_eq!(text_of(&count_label(0, "item", "items")), "0 items");
    assert_eq!(text_of(&count_label(12, "line", "lines")), "12 lines");
}

#[test]
fn identifiers_read_as_capitalized_words() {
    assert_eq!(text_of(&title_case_words(&chars("  list-directory_now "))), "List Directory Now");
    assert_eq!(text_of(&title_case_words(&chars("__"))), "");
    assert_eq!(text_of(&title_case_words(&chars("éclair"))), "Éclair");
}

#[test]
fn tool_box_edges_and_rows_follow_the_width() {
    assert_eq!(text_of(&tool_box_top(0)), "");
    assert_eq!(text_of(&tool_box_top(1)), "┌");
    assert_eq!(text_of(&tool_box_top(2)), "┌┐");
    assert_eq!(text_of(&tool_box_top(5)), "┌───┐");
    assert_eq!(text_of(&tool_box_bottom(4)), "└──┘");
    assert_eq!(text_of(&tool_box_line(&chars("Status: Ok"), 2)), "││");
    assert_eq!(text_of(&tool_box_line(&chars("Status: Ok"), 16)), "│ Status: Ok   │");
    assert_eq!(text_of(&tool_box_line(&chars("Status: Ok"), 8)), "│ Stat │");
}

#[test]
fn wrapping_breaks_before_the_word_that_overflows() {
    let style = plain(Shade::Gray);
    let runs = vec![InlineText { text: chars("one two three"), style }];
    let lines = wrap_inline(&runs, 9, &chars("> "), &chars("  "), user_style());
    assert_eq!(lines.len(), 3);
    assert_eq!(spans(&lines[0]), vec![("> ".to_owned(), Some(user_style())), ("one ".to_owned(), Some(style))]);
    assert_eq!(spans(&lines[1]), vec![("  ".to_owned(), None), ("two ".to_owned(), Some(style))]);
    assert_eq!(spans(&lines[2]), vec![("  ".to_owned(), None), ("three".to_owned(), Some(style))]);
}

#[test]
fn wrapping_nothing_still_draws_the_prefix() {
    let lines = wrap_inline(&Vec::new(), 20, &chars("│ "), &chars("┆ "), model_style());
    assert_eq!(lines.len(), 1);
    assert_eq!(spans(&lines[0]), vec![("│ ".to_owned(), Some(model_style()))]);
}

#[test]
fn a_paragraph_is_drawn_behind_the_label_and_separated() {
    let events = vec![
        MarkdownEvent::Start(MarkdownTag::Paragraph),
        MarkdownEvent::Text("hi".to_owned()),
        MarkdownEvent::End(MarkdownTag::Paragraph),
    ];
    let lines = render_markdown_events(&events, &chars("│ "), &chars("┆ "), model_style(), model_style(), 40);
    assert_eq!(lines.len(), 2);
    assert_eq!(spans(&lines[0]), vec![("│ ".to_owned(), Some(model_style())), ("hi".to_owned(), Some(model_style()))]);
    assert!(lines[1].spans.is_empty());
}

#[test]
fn an_empty_unlabelled_message_keeps_one_blank_line() {
    let lines = render_markdown_events(&Vec::new(), &Vec::new(), &Vec::new(), model_style(), model_style(), 40);
    assert_eq!(lines.len(), 2);
    assert!(lines.iter().all(|line| line.spans.is_empty()));
}

#[test]
fn ordered_items_count_from_the_list_start() {
    let events = vec![
        MarkdownEvent::StartList(Some(7)),
        MarkdownEvent::Start(MarkdownTag::Item),
        MarkdownEvent::Text("a".to_owned()),
        MarkdownEvent::End(MarkdownTag::Item),
        MarkdownEvent::Start(MarkdownTag::Item),
        MarkdownEvent::Text("b".to_owned()),
        MarkdownEvent::End(MarkdownTag::Item),
        MarkdownEvent::End(MarkdownTag::List),
    ];
    let lines = render_markdown_events(&events, &chars(""), &chars(""), model_style(), model_style(), 40);
    let shown: Vec<String> = lines.iter().map(|line| line.spans.iter().map(|s| s.text.as_str()).collect()).collect();
    assert_eq!(shown, vec!["7. a".to_owned(), "8. b".to_owned(), String::new()]);
}

#[test]
fn strong_text_is_bold_until_it_ends() {
    let events = vec![
        MarkdownEvent::Start(MarkdownTag::Paragraph),
        MarkdownEvent::Start(MarkdownTag::Strong),
        MarkdownEvent::Text("loud".to_owned()),
        MarkdownEvent::End(MarkdownTag::Strong),
        MarkdownEvent::Text(" calm".to_owned()),
        MarkdownEvent::End(MarkdownTag::Paragraph),
    ];
    let lines = render_markdown_events(&events, &chars(""), &chars(""), model_style(), model_style(), 40);
    let bold = roven::transcript::TextStyle { bold: true, ..model_style() };
    assert_eq!(
        spans(&lines[0]),
        vec![
            (String::new(), Some(model_style())),
            ("loud".to_owned(), Some(bold)),
            (" ".to_owned(), Some(model_style())),
            ("calm".to_owned(), Some(model_style())),
        ]
    );
}

#[test]
fn no_tools_request_has_no_tool_definitions() {
    let request = roven::agent::AgentRequest::new(
        vec![roven::agent::AgentMessage::User { content: "hello".to_owned() }],
        false,
    );
    assert!(request.tools.is_empty());
}

#[test]
fn tool_requests_offer_every_workspace_tool_with_a_json_schema() {
    let request = roven::agent::AgentRequest::new(Vec::new(), true);
    let names: Vec<&str> = request.tools.iter().map(|tool| tool.name.as_str()).collect();
    assert_eq!(names, vec!["prepare_project", "list_directory", "read_file", "list_tools", "list_project"]);
    for tool in &request.tools {
        let schema: serde_json::Value = serde_json::from_str(&tool.input_schema).unwrap();
        assert_eq!(schema["type"], "object");
        assert_eq!(schema["additionalProperties"], false);
        assert!(roven::tools::tool_named(&tool.name).is_some());
    }
    let prepare: serde_json::Value = serde_json::from_str(&request.tools[0].input_schema).unwrap();
    assert_eq!(prepare["required"][0], "path");
    assert_eq!(prepare["properties"]["section_name"]["enum"][0], "summary");
}

#[test]
fn live_function_call_output_is_appended_as_a_structured_tool_message() {
    let mut state = roven::state::AppState::new();
    let call = roven::agent::ToolCall {
        id: "call-1".to_owned(),
        name: "list_directory".to_owned(),
        arguments: r#"{"path": "."}"#.to_owned(),
    };
    let result = roven::agent::ToolResult {
        tool_call_id: "call-1".to_owned(),
        name: "list_directory".to_owned(),
        result: r#"{"status": "ok"}"#.to_owned(),
    };

    state.apply_worker_event(roven::controls::WorkerEvent::FunctionCallOutput { call, result }, 0);

    assert_eq!(state.messages.len(), 1);
    let message = &state.messages[0];
    assert_eq!(message.role, roven::state::Role::Activity);
    assert!(message.content.is_empty());
    match &message.kind {
        roven::state::MessageKind::Tool { name, input, output } => {
            let input: serde_json::Value = serde_json::from_str(input).unwrap();
            let output: serde_json::Value = serde_json::from_str(output).unwrap();
            assert_eq!(name, "list_directory");
            assert_eq!(input["path"], ".");
            assert_eq!(output["status"], "ok");
        }
        roven::state::MessageKind::Text => panic!("expected a tool message"),
    }
}

fn run_turn(
    events: Vec<roven::agent::ProviderEvent>,
    allow_tools: bool,
    context_window: Option<usize>,
) -> (Vec<roven::agent::AgentEvent>, roven::agent::TurnOutcome) {
    let mut turn = roven::agent::TurnState::new();
    let mut reported = Vec::new();
    for event in events {
        if let Some(event) = turn.observe(event, allow_tools, context_window) {
            reported.push(event);
        }
    }
    (reported, turn.conclude())
}

#[test]
fn no_tools_turn_rejects_provider_tool_calls_without_dispatch() {
    let call = roven::agent::ToolCall {
        id: "unexpected".to_owned(),
        name: "list_tools".to_owned(),
        arguments: "{}".to_owned(),
    };
    let (reported, outcome) = run_turn(
        vec![roven::agent::ProviderEvent::ToolCalls(vec![call]), roven::agent::ProviderEvent::Finished],
        false,
        None,
    );
    assert!(matches!(outcome, roven::agent::TurnOutcome::Failed(_)));
    assert!(!reported.iter().any(|event| matches!(event, roven::agent::AgentEvent::ToolResult { .. })));
}

#[test]
fn agent_run_groups_runtime_dependencies_without_changing_context_usage() {
    let (reported, outcome) = run_turn(
        vec![roven::agent::ProviderEvent::ContextUsage(50), roven::agent::ProviderEvent::Finished],
        true,
        Some(100),
    );
    assert_eq!(reported.len(), 1);
    assert!(matches!(reported[0], roven::agent::AgentEvent::ContextUsage(50)));
    assert!(matches!(outcome, roven::agent::TurnOutcome::Finished));
}

fn strings(items: &[&str]) -> Vec<String> {
    items.iter().map(|item| item.to_string()).collect()
}

#[test]
fn changes_since_a_baseline_cover_new_committed_missing_and_reprinted_paths() {
    let prints = |pairs: &[(&str, &str)]| -> Vec<(String, String)> {
        pairs.iter().map(|(path, print)| (path.to_string(), print.to_string())).collect()
    };
    let changed = roven::git::changed_since_baseline(
        &strings(&["a", "d", "c", "b", "f"]),
        &strings(&["a", "b", "c", "f"]),
        &strings(&["b"]),
        &strings(&["f"]),
        &prints(&[("a", "1"), ("c", "3"), ("e", "5"), ("f", "6")]),
        &prints(&[("a", "1"), ("c", "4"), ("f", "6")]),
        &strings(&["e"]),
    );
    assert_eq!(changed, strings(&["b", "c", "d", "e", "f"]));
}

#[test]
fn unchanged_paths_are_not_reported_since_a_baseline() {
    let changed = roven::git::changed_since_baseline(
        &strings(&["a"]),
        &strings(&["a"]),
        &Vec::new(),
        &Vec::new(),
        &vec![("a".to_owned(), "1".to_owned()), ("g".to_owned(), "2".to_owned())],
        &vec![("a".to_owned(), "1".to_owned())],
        &Vec::new(),
    );
    assert!(changed.is_empty());
}

#[test]
fn deleted_and_moved_away_paths_are_missing() {
    let status = roven::git::WorkingTreeStatus {
        deleted_paths: strings(&["x"]),
        relationships: vec![roven::git::PathRelationship {
            kind: roven::git::PathRelationshipKind::Renamed,
            source: "y".to_owned(),
            target: "z".to_owned(),
        }],
        ..Default::default()
    };
    assert!(roven::git::working_tree_path_is_missing(true, &status, &"x".to_owned()));
    assert!(roven::git::working_tree_path_is_missing(true, &status, &"y".to_owned()));
    assert!(!roven::git::working_tree_path_is_missing(true, &status, &"z".to_owned()));
    assert!(roven::git::working_tree_path_is_missing(false, &status, &"z".to_owned()));
}

fn parsed(language: roven::inventory::Language, source: &str) -> Vec<roven::syntax::SyntaxNode> {
    match roven::parse::read_syntax(language, source) {
        roven::code_map::FileSource::Parsed(nodes) => nodes,
        roven::code_map::FileSource::Unavailable => panic!("the source should parse"),
    }
}

#[test]
fn rust_sources_yield_their_functions_methods_and_direct_calls() {
    let source = "struct Store;\n\nimpl Store {\n    fn load(&self) {\n        helper();\n    }\n}\n\nfn helper() {}\n";
    let nodes = parsed(roven::inventory::Language::Rust, source);
    assert!(nodes[0].parent.is_none());
    assert!(nodes.iter().enumerate().all(|(i, node)| node.parent.map_or(true, |p| p < i)));
    let (symbols, calls) =
        roven::syntax::extract_symbols_and_calls(roven::inventory::Language::Rust, &nodes, &"src/lib.rs".to_owned());
    let named: Vec<(&str, usize)> = symbols.iter().map(|symbol| (symbol.name.as_str(), symbol.line)).collect();
    assert_eq!(named, vec![("Store", 1), ("load", 4), ("helper", 9)]);
    assert_eq!(symbols[1].kind, roven::code_map::SymbolKind::Method);
    assert_eq!(symbols[1].container.as_deref(), Some("Store"));
    assert_eq!(calls.len(), 1);
    assert_eq!(calls[0].caller, "load");
    assert_eq!(calls[0].callee, "helper");
    assert_eq!(calls[0].evidence.line, 5);
}

#[test]
fn python_sources_yield_functions_and_calls() {
    let nodes = parsed(roven::inventory::Language::Python, "def main():\n    run()\n\ndef run():\n    pass\n");
    let (symbols, calls) =
        roven::syntax::extract_symbols_and_calls(roven::inventory::Language::Python, &nodes, &"app.py".to_owned());
    let names: Vec<&str> = symbols.iter().map(|symbol| symbol.name.as_str()).collect();
    assert_eq!(names, vec!["main", "run"]);
    assert_eq!(calls.len(), 1);
    assert_eq!(calls[0].caller, "main");
    assert_eq!(calls[0].callee, "run");
}

#[test]
fn unparsable_or_unstructured_sources_are_unavailable() {
    assert!(matches!(
        roven::parse::read_syntax(roven::inventory::Language::Rust, "fn broken( {"),
        roven::code_map::FileSource::Unavailable
    ));
    assert!(matches!(
        roven::parse::read_syntax(roven::inventory::Language::GenericText, "fn main() {}"),
        roven::code_map::FileSource::Unavailable
    ));
}

#[test]
fn parsed_nodes_come_in_pre_order_under_the_root() {
    let nodes = parsed(roven::inventory::Language::Go, "package main\n\nfunc main() {\n\tgo run()\n}\n\nfunc run() {}\n");
    assert!(nodes.len() > 1);
    assert!(nodes[0].parent.is_none());
    assert!(nodes[1..].iter().all(|node| node.parent.is_some()));
    for i in 1..nodes.len() {
        let parent = nodes[i].parent.unwrap();
        let mut at = Some(i - 1);
        while let Some(a) = at {
            if a == parent {
                break;
            }
            at = nodes[a].parent;
        }
        assert_eq!(at, Some(parent), "node {} hangs under no ancestor of the node before it", i);
    }
}

#[test]
fn profile_number_zero_is_not_a_displayed_number() {
    let profiles = vec![roven::profiles::ProviderProfile {
        id: "one".to_owned(),
        name: "first".to_owned(),
        endpoint: "https://openrouter.ai/api/v1".to_owned(),
        model: "m".to_owned(),
    }];
    assert_eq!(roven::auth::select_profile(&profiles, "0").err(), Some(roven::auth::AuthError::NoSuchNumber));
    assert_eq!(roven::auth::select_profile(&profiles, " 1 ").unwrap().name, "first");
    assert_eq!(roven::auth::select_profile(&profiles, "x").err(), Some(roven::auth::AuthError::NotANumber));
}

#[test]
fn parents_come_from_the_last_node_one_level_up() {
    let parents = roven::parse::parents_from_depths(&vec![0, 1, 2, 2, 1, 2, 3, 1]);
    assert_eq!(parents, vec![None, Some(0), Some(1), Some(1), Some(0), Some(4), Some(5), Some(0)]);
    assert_eq!(roven::parse::parents_from_depths(&vec![]), Vec::<Option<usize>>::new());
    assert_eq!(roven::parse::parents_from_depths(&vec![0, 0]), vec![None, None]);
}

fn status_of(paths: &[&str]) -> roven::git::WorkingTreeStatus {
    roven::git::WorkingTreeStatus {
        modified_paths: paths.iter().map(|p| p.to_string()).collect(),
        untracked_paths: vec!["new.rs".to_owned()],
        ..Default::default()
    }
}

#[test]
fn filtering_twice_keeps_the_narrower_filter() {
    let status = status_of(&["a.rs", "b.rs", "c.rs"]);
    let wide = vec!["a.rs".to_owned(), "b.rs".to_owned(), "new.rs".to_owned()];
    let narrow = vec!["b.rs".to_owned()];
    let once = roven::git::filter_status(&status, &wide);
    assert_eq!(once.modified_paths, vec!["a.rs".to_owned(), "b.rs".to_owned()]);
    assert_eq!(once.untracked_paths, vec!["new.rs".to_owned()]);
    let twice = roven::git::filter_status(&once, &narrow);
    assert_eq!(twice, roven::git::filter_status(&status, &narrow));
    assert_eq!(roven::git::filter_status(&once, &wide), once);
}

fn symbol(name: &str, path: &str, line: usize) -> roven::code_map::Symbol {
    roven::code_map::Symbol {
        path: path.to_owned(),
        name: name.to_owned(),
        kind: roven::code_map::SymbolKind::Function,
        line,
        container: None,
    }
}

fn call(caller: &str, callee: &str) -> roven::code_map::DirectCall {
    roven::code_map::DirectCall {
        caller: caller.to_owned(),
        callee: callee.to_owned(),
        evidence: roven::code_map::Evidence { path: "src/lib.rs".to_owned(), line: 1 },
        confidence: roven::code_map::Confidence::Exact,
    }
}

fn map_of(symbols: Vec<roven::code_map::Symbol>, calls: Vec<roven::code_map::DirectCall>) -> roven::code_map::CodeMap {
    roven::code_map::CodeMap {
        files: vec![],
        symbols,
        calls,
        imports: vec![],
        relationships: vec![],
        unsupported_paths: vec![],
    }
}

#[test]
fn each_call_partner_gives_one_neighbour_whatever_the_map_order() {
    let first = map_of(
        vec![symbol("main", "src/main.rs", 1), symbol("load", "src/lib.rs", 4), symbol("save", "src/lib.rs", 9)],
        vec![call("main", "load"), call("save", "main"), call("main", "load")],
    );
    let second = map_of(
        vec![symbol("save", "src/lib.rs", 9), symbol("main", "src/main.rs", 1), symbol("load", "src/lib.rs", 4)],
        vec![call("main", "load"), call("main", "load"), call("save", "main")],
    );
    let names = |map: &roven::code_map::CodeMap| -> Vec<String> {
        roven::code_map::structural_neighbors(map, "main").iter().map(|s| s.name.clone()).collect()
    };
    assert_eq!(names(&first), vec!["load".to_owned(), "save".to_owned()]);
    assert_eq!(names(&first), names(&second));
}

#[test]
fn identifiers_compare_by_their_values() {
    let a = roven::domain::ProjectId::new("project-1".to_owned());
    assert_eq!(a, roven::domain::ProjectId::new("project-1".to_owned()));
    assert_ne!(a, roven::domain::ProjectId::new("project-2".to_owned()));
    assert_eq!(a.as_str(), "project-1");
}

#[test]
fn path_tools_take_a_string_path_and_nothing_else() {
    assert_eq!(roven::tools::tool_path_argument(r#"{"path":"src"}"#), Some("src".to_owned()));
    assert_eq!(roven::tools::tool_path_argument(r#"{"path":"src","extra":1}"#), None);
    assert_eq!(roven::tools::tool_path_argument(r#"{"path":3}"#), None);
    assert_eq!(roven::tools::tool_path_argument(r#"{"other":"src"}"#), None);
    assert_eq!(roven::tools::tool_path_argument("not json"), None);
    assert_eq!(roven::tools::tool_path_argument(r#"["src"]"#), None);
    assert!(roven::tools::tool_input_is_empty("{}"));
    assert!(!roven::tools::tool_input_is_empty(r#"{"a":1}"#));
    assert!(!roven::tools::tool_input_is_empty("null"));
}

#[test]
fn prepare_project_input_is_checked_member_by_member() {
    let (path, update) = roven::tools::tool_prepare_arguments(r#"{"path":".","section_name":"Intro","text":"Hello","operation":"replace"}"#).unwrap();
    assert_eq!(path, ".");
    assert_eq!(update.section_name.as_deref(), Some("Intro"));
    assert_eq!(update.text.as_deref(), Some("Hello"));
    assert_eq!(update.operation.as_deref(), Some("replace"));
    let (_, bare) = roven::tools::tool_prepare_arguments(r#"{"path":"."}"#).unwrap();
    assert!(bare.section_name.is_none() && bare.text.is_none() && bare.operation.is_none());
    assert_eq!(roven::tools::tool_prepare_arguments(r#"{"path":".","text":null}"#).err(), Some(roven::tools::BlockedReason::InvalidSectionUpdate));
    assert_eq!(roven::tools::tool_prepare_arguments(r#"{"path":".","unknown":"x"}"#).err(), Some(roven::tools::BlockedReason::InvalidPath));
    assert_eq!(roven::tools::tool_prepare_arguments(r#"{"path":".","text":5}"#).err(), Some(roven::tools::BlockedReason::InvalidPath));
    assert_eq!(roven::tools::tool_prepare_arguments(r#"{"text":"x"}"#).err(), Some(roven::tools::BlockedReason::InvalidPath));
    assert_eq!(roven::tools::tool_prepare_arguments("[]").err(), Some(roven::tools::BlockedReason::InvalidPath));
}

#[test]
fn project_status_lists_the_header_then_each_changed_path() {
    let project = roven::status::ProjectStatus {
        name: "roven".to_owned(),
        path: "/work/roven".to_owned(),
        baseline_established: true,
        branch: None,
        head: Some("abc123".to_owned()),
        since_registration: roven::status::SinceRegistration::Count(12),
        since_baseline: roven::status::SinceBaseline::InspectionRequired,
    };
    let status = roven::git::WorkingTreeStatus {
        modified_paths: vec!["src/lib.rs".to_owned()],
        untracked_paths: vec!["notes.md".to_owned()],
        conflicted_paths: vec!["never-shown.rs".to_owned()],
        relationships: vec![roven::git::PathRelationship {
            kind: roven::git::PathRelationshipKind::Renamed,
            source: "old.rs".to_owned(),
            target: "new.rs".to_owned(),
        }],
        ..Default::default()
    };
    assert_eq!(
        roven::status::project_status_lines(&project, &status),
        vec![
            "roven\tbaseline established\t/work/roven",
            "branch\tdetached",
            "head\tabc123",
            "committed-since-registration\t12",
            "commits-since-baseline\tnot-applicable (initial inspection required)",
            "modified\tsrc/lib.rs",
            "untracked\tnotes.md",
            "renamed\told.rs\tnew.rs",
        ]
    );
}

fn prepare_project_schema() -> serde_json::Value {
    let prepare_project = roven::tools::definitions()
        .into_iter()
        .find(|definition| definition.name == "prepare_project")
        .expect("prepare_project must be registered");
    serde_json::from_str(&prepare_project.input_schema).unwrap()
}

fn check_prepare_project_schema() {
    let schema = prepare_project_schema();
    let json = |text: &str| -> serde_json::Value { serde_json::from_str(text).unwrap() };
    assert_eq!(schema["properties"]["section_name"]["enum"], json(r#"["summary"]"#));
    assert_eq!(schema["properties"]["operation"]["enum"], json(r#"["replace"]"#));
    assert_eq!(schema["required"], json(r#"["path"]"#));
    assert_eq!(schema["additionalProperties"], false);
}

#[test]
fn tools_prepare_project_schema_allows_only_the_summary_replace_update() {
    check_prepare_project_schema();
}

#[test]
fn mod_prepare_project_schema_allows_only_the_summary_replace_update() {
    check_prepare_project_schema();
}

#[test]
fn prepare_project_prepare_project_schema_allows_only_the_summary_replace_update() {
    check_prepare_project_schema();
}

#[test]
fn metadata_is_read_from_the_top_level_first() {
    let root = roven::git::metadata_root(Ok(" /work/roven\n".to_owned())).unwrap();
    assert_eq!(root, "/work/roven");
    let m = roven::git::metadata_at(root, Ok("main\n".to_owned()), Ok("  \n".to_owned()));
    assert_eq!(m.root, "/work/roven");
    assert_eq!(m.branch.as_deref(), Some("main"));
    assert!(m.head_commit.is_none());
}
