use roven::state::{Message, Role};
use roven::transcript::{render_message, StyledLine};
use unicode_width::UnicodeWidthStr;

fn text(role: Role, content: &str) -> Message {
    Message::text(role, content.to_owned(), None)
}

fn tool(name: &str, input: &str, output: &str) -> Message {
    Message::tool(name.to_owned(), input.to_owned(), output.to_owned())
}

fn shown(line: &StyledLine) -> String {
    line.spans.iter().map(|span| span.text.as_str()).collect()
}

#[test]
fn multiline_output_uses_role_specific_prefixes_and_continuations() {
    let user_lines = render_message(&text(Role::User, "first line\nsecond line"), 40);
    let roven_lines = render_message(&text(Role::Roven, "first line\nsecond line"), 40);
    let activity_lines = render_message(&text(Role::Activity, "agent working\nstill working"), 40);

    assert_eq!(shown(&user_lines[0]), "You › first line");
    assert_eq!(shown(&user_lines[1]), "│     second line");
    assert_eq!(shown(&roven_lines[0]), "│ first line");
    assert_eq!(shown(&roven_lines[1]), "┆       second line");
    assert_eq!(shown(&activity_lines[0]), "Activity agent working");
    assert!(shown(&activity_lines[1]).ends_with("still working"));
}

#[test]
fn wrapped_model_lines_stay_within_requested_width() {
    let width = 14;
    let lines = render_message(&text(Role::Roven, "one two three four five"), width);

    assert!(lines.len() > 2);
    assert!(lines.iter().all(|line| shown(line).width() <= width));
}

#[test]
fn fenced_code_preserves_tree_spacing() {
    let lines = render_message(
        &text(Role::Roven, "```text\n├── src/\n│   └── main.rs\n```"),
        40,
    );

    assert!(lines.iter().any(|line| shown(line).contains("├── src/")));
    assert!(lines.iter().any(|line| shown(line).contains("│   └── main.rs")));
}

#[test]
fn markdown_blocks_render_as_structured_terminal_lines() {
    let lines = render_message(
        &text(
            Role::Roven,
            "# Files\n\n- backend\n- frontend\n\n| Area | Status |\n| --- | --- |\n| UI | ready |",
        ),
        60,
    );

    assert!(lines.iter().any(|line| shown(line).contains("Files")));
    assert!(!lines.iter().any(|line| shown(line).contains("# Files")));
    assert!(lines.iter().any(|line| shown(line).contains("• backend")));
    assert!(lines.iter().any(|line| shown(line).contains("ready")));

    let task_lines = render_message(
        &text(Role::Roven, "- [x] read project\n- [ ] prepare context"),
        60,
    );
    assert!(task_lines.iter().any(|line| shown(line).contains("☒ read project")));
    assert!(task_lines.iter().any(|line| shown(line).contains("☐ prepare context")));
}

#[test]
fn wrapped_markdown_keeps_role_gutter_and_local_prefix() {
    let user_lines = render_message(
        &text(Role::User, "- user item that wraps across multiple words nicely"),
        28,
    );
    assert!(shown(&user_lines[0]).starts_with("You › • "));
    assert!(user_lines.iter().skip(1).any(|line| shown(line).starts_with("│       ")));

    let roven_task_lines = render_message(
        &text(Role::Roven, "- [x] roven task item that wraps across multiple words nicely"),
        28,
    );
    assert!(shown(&roven_task_lines[0]).starts_with("│ • ☒ "));
    assert!(roven_task_lines.iter().skip(1).any(|line| shown(line).starts_with("┆         ")));

    let roven_quote_lines = render_message(
        &text(Role::Roven, "> roven quote block that wraps across multiple words nicely"),
        28,
    );
    assert!(roven_quote_lines.iter().any(|line| shown(line).starts_with("│ │ ")));
    assert!(roven_quote_lines.iter().skip(1).any(|line| shown(line).starts_with("┆         ")));
}

#[test]
fn structured_tool_output_is_rendered_separately() {
    let message = tool(
        "list_directory",
        r#"{"path": "."}"#,
        r#"{"status": "ok", "path": ".", "workspace_path": ".", "entries": [{"name": "src", "path": "src", "kind": "directory"}], "truncated": true}"#,
    );
    let lines = render_message(&message, 60);

    assert!(shown(&lines[0]).starts_with("┌"));
    assert!(shown(&lines[1]).starts_with("│ List Directory"));
    assert!(lines.iter().any(|line| shown(line).contains("Status: Ok")));
    assert!(lines.iter().any(|line| shown(line).contains("Path: .")));
    assert!(lines.iter().any(|line| shown(line).contains("Entries: 1 item")));
    assert!(lines.iter().any(|line| shown(line).contains("Details: Truncated after 1 item")));
    assert!(lines.iter().all(|line| shown(line).width() <= 60));
    assert!(!lines.iter().any(|line| shown(line).contains("Roven")));
    assert!(!lines.iter().any(|line| shown(line).contains("◆")));
    assert!(!lines.iter().any(|line| shown(line).contains("input")));
    assert!(!lines.iter().any(|line| shown(line).contains("output")));
    assert!(!lines.iter().any(|line| shown(line).contains("list_directory")));
    assert!(!lines.iter().any(|line| shown(line).contains("\"name\"")));
    assert!(lines.iter().any(|line| shown(line).starts_with("└")));
    assert!(lines.last().is_some_and(|line| line.spans.is_empty()));
}

#[test]
fn model_table_lines_stay_within_requested_width() {
    let width = 14;
    let lines = render_message(
        &text(Role::Roven, "| A | B |\n| --- | --- |\n| wide | row |"),
        width,
    );

    assert!(lines.iter().all(|line| shown(line).width() <= width));
}

#[test]
fn structured_tool_output_clamps_to_narrow_width() {
    let message = tool("list_directory", r#"{"path": "."}"#, r#"{"status": "ok"}"#);
    let width = 12;
    let lines = render_message(&message, width);

    assert!(lines.iter().any(|line| shown(line).starts_with("┌")));
    assert!(lines.iter().any(|line| shown(line).starts_with("└")));
    assert!(lines.iter().all(|line| shown(line).width() <= width));
}

#[test]
fn role_label_is_emitted_once_per_message() {
    let lines = render_message(
        &text(
            Role::Roven,
            "First paragraph.\n\n- later item\n\n| A | B |\n| --- | --- |\n| 1 | 2 |",
        ),
        48,
    );

    assert!(shown(&lines[0]).starts_with("│ First paragraph."));
    assert!(!lines.iter().skip(1).any(|line| shown(line).starts_with("│ ")));
    assert!(lines.iter().skip(1).any(|line| shown(line).starts_with("┆       • later item")));
    assert!(lines
        .iter()
        .skip(1)
        .any(|line| shown(line).starts_with("┆") && shown(line).contains("A")));
}

#[test]
fn model_and_tool_output_have_no_branding_or_icon_labels() {
    let model_lines = render_message(&text(Role::Roven, "Answer"), 40);
    let tool_lines = render_message(
        &tool(
            "read_file",
            r#"{"path": "secret.txt"}"#,
            r#"{"status": "ok", "path": "secret.txt", "content": "top secret\nsecond line"}"#,
        ),
        40,
    );

    for line in model_lines.iter().chain(tool_lines.iter()) {
        let rendered = shown(line);
        assert!(!rendered.contains("Roven"));
        assert!(!rendered.contains("◆"));
    }
    assert!(tool_lines.iter().any(|line| shown(line).contains("Content: 2 lines, 22 chars")));
    assert!(!tool_lines.iter().any(|line| shown(line).contains("top secret")));
}

#[test]
fn tool_labels_are_friendly_and_unknown_tools_use_a_safe_fallback() {
    for (name, label) in [
        ("list_directory", "List Directory"),
        ("read_file", "Read File"),
        ("prepare_project", "Prepare Project"),
        ("list_tools", "List Tools"),
        ("custom_tool", "Custom Tool"),
    ] {
        let lines = render_message(
            &tool(
                name,
                r#"{"path": "workspace"}"#,
                r#"{"status": "unknown_tool", "reason": "unknown_tool"}"#,
            ),
            48,
        );
        assert!(shown(&lines[1]).contains(label));
        assert!(!shown(&lines[1]).contains(name));
    }

    let fallback_lines = render_message(&tool("", "null", r#"{"status": "error"}"#), 48);
    assert!(shown(&fallback_lines[1]).contains("Completed requested action"));
}

#[test]
fn tool_cards_render_structured_status_and_details_for_known_and_unknown_tools() {
    let prepared_lines = render_message(
        &tool(
            "prepare_project",
            r#"{"path": "workspace"}"#,
            r#"{"status": "prepared", "project": {"name": "pmemc", "path": "workspace", "github_remote": "origin", "baseline_commit": "abc123"}}"#,
        ),
        64,
    );
    assert!(prepared_lines.iter().any(|line| shown(line).contains("Status: Prepared")));
    assert!(prepared_lines.iter().any(|line| shown(line).contains("Project: pmemc")));
    assert!(prepared_lines.iter().any(|line| shown(line).contains("Path: workspace")));

    let unknown_lines = render_message(
        &tool(
            "custom_tool",
            r#"{"path": "notes.md"}"#,
            r#"{"status": "error", "reason": "unknown_tool"}"#,
        ),
        64,
    );
    assert!(unknown_lines.iter().any(|line| shown(line).contains("Status: Error")));
    assert!(unknown_lines.iter().any(|line| shown(line).contains("Reason: unknown tool")));
    assert!(unknown_lines.iter().any(|line| shown(line).contains("Custom Tool")));
}

#[test]
fn tool_cards_keep_a_blank_separator_before_the_next_turn() {
    let tool_lines = render_message(
        &tool(
            "read_file",
            r#"{"path": "notes.md"}"#,
            r#"{"status": "ok", "path": "notes.md", "content": "alpha\nbeta"}"#,
        ),
        48,
    );
    let separator_index = tool_lines.len() - 1;
    let mut combined = tool_lines;
    combined.extend(render_message(&text(Role::Roven, "next turn"), 48));

    assert!(combined[separator_index].spans.is_empty());
    assert_eq!(shown(&combined[separator_index + 1]), "│ next turn");
}
