use roven::auth::{format_profile_list, select_profile};
use roven::context::percent;
use roven::credentials::{credential_account, CredentialError, OsCredentialStore, SecretStore};
use roven::git::{RepositoryValidationBlockers, UnfinishedGitOperation};
use roven::model_catalog::{catalog_for, ProviderKind};
use roven::output::{
    colors_enabled, render_validation_error, startup_repository_validation_message, styled, Style,
};
use roven::profiles::ProviderProfile;
use roven::provider::{response_error, sanitize_diagnostic, OpenAiCompatibleProvider};
use roven::tools::{has_blocking_status, is_github_url};
use roven::ui::{detect_provider_status, slash_command, slash_command_prompt, SlashCommand, StartupProviderStatus};

fn profile(id: &str, name: &str) -> ProviderProfile {
    ProviderProfile {
        id: id.to_owned(),
        name: name.to_owned(),
        endpoint: "https://api.groq.com/openai/v1".to_owned(),
        model: "openai/gpt-oss-20b".to_owned(),
    }
}

#[test]
fn list_shows_the_user_chosen_name_without_a_secret() {
    let profiles = vec![profile("one", "personal groq")];

    assert_eq!(
        format_profile_list(&profiles, Some("one")),
        "* personal groq\thttps://api.groq.com/openai/v1\topenai/gpt-oss-20b\n"
    );
}

#[test]
fn selection_requires_an_existing_number() {
    let profiles = vec![profile("one", "openrouter")];

    assert!(select_profile(&profiles, "2").is_err());
    assert_eq!(select_profile(&profiles, "1").unwrap().name, "openrouter");
}

#[test]
fn calculates_context_percentage_without_exposing_token_counts() {
    assert_eq!(percent(5_243, 262_144), 2);
}

#[test]
fn empty_secret_cannot_be_stored() {
    let error = OsCredentialStore::for_profile_id("test-profile")
        .set(" \t")
        .expect_err("empty secret should be rejected");
    assert!(matches!(error, CredentialError::EmptyValue));
}

#[test]
fn profile_keys_use_distinct_credential_accounts() {
    assert_ne!(credential_account("profile-a"), credential_account("profile-b"));
}

#[test]
fn ollama_catalog_accepts_only_allowlisted_models() {
    let catalog = catalog_for(ProviderKind::OllamaCloud);

    assert!(catalog.validate("minimax-m3:cloud"));
    assert!(catalog.validate("gemma4:31b-cloud"));
    assert!(catalog.validate("gpt-oss:120b-cloud"));
    assert!(catalog.validate("gpt-oss:20b-cloud"));
    assert!(catalog.validate("kimi-k2.6:cloud"));
    assert!(!catalog.validate("llama3.1:8b"));
    assert!(!catalog.validate("totally-unknown:cloud"));
}

#[test]
fn plain_status_has_no_ansi_escape_sequences() {
    assert!(!styled("done", Style::Success, false).contains('\x1b'));
}

#[test]
fn styled_status_resets_terminal_style() {
    assert_eq!(styled("done", Style::Success, true), "\x1b[32mdone\x1b[0m");
}

#[test]
fn no_color_disables_styling() {
    assert!(!colors_enabled(true, true));
    assert!(!colors_enabled(false, true));
}

#[test]
fn startup_repository_validation_uses_terminal_colors() {
    assert_eq!(
        startup_repository_validation_message("C:/repo", "abc123", true),
        "[1/2] \x1b[36mRepository validation\x1b[0m\n  \x1b[32m✓ Git repository verified\x1b[0m\n  \x1b[32m✓ Clean committed state\x1b[0m\n  Repository: C:/repo\n  HEAD:       abc123"
    );
}

#[test]
fn validation_error_groups_blockers_and_sorts_paths() {
    let message = render_validation_error(
        "PMEMC inspection is blocked",
        "C:/repo",
        &RepositoryValidationBlockers {
            staged_paths: vec!["zeta.rs".into(), "alpha.rs".into()],
            unstaged_paths: vec!["tracked.rs".into()],
            untracked_paths: vec!["new.rs".into()],
            conflicted_paths: vec!["conflict.rs".into()],
            unfinished_operations: vec![UnfinishedGitOperation::Merge],
        },
        "Fix the repository, then retry.",
        false,
    );

    assert_eq!(
        message,
        "✗ PMEMC inspection is blocked\n  Repository: C:/repo\n  Blocking conditions:\n    ! Unfinished Git operations (1)\n      - merge\n    ! Merge conflicts (1)\n      - conflict.rs\n    ! Staged changes (2)\n      - alpha.rs\n      - zeta.rs\n    ! Unstaged changes (1)\n      - tracked.rs\n    ! Untracked files (1)\n      - new.rs\n  • Fix the repository, then retry."
    );
}

#[test]
fn provider_uses_the_configured_endpoint_without_appending_a_path() {
    let provider = OpenAiCompatibleProvider::new(
        "https://ollama.com/v1/chat/completions".to_owned(),
        "gemma4:31b-cloud".to_owned(),
    );

    assert_eq!(provider.request_endpoint(), "https://ollama.com/v1/chat/completions");
}

#[test]
fn diagnostic_detail_removes_bearer_tokens_and_line_breaks() {
    assert_eq!(
        sanitize_diagnostic("Authorization: Bearer secret-value\nrequest failed"),
        "Authorization: Bearer [redacted] request failed"
    );
}

#[test]
fn rate_limits_are_actionable_and_include_the_server_retry_delay() {
    assert_eq!(
        response_error(429, Some("30")).message(),
        "Provider rate limit reached (HTTP 429); retry after 30 seconds"
    );
    assert_eq!(
        response_error(429, None).message(),
        "Provider rate limit reached (HTTP 429). Wait briefly and try again; the configured model or account may have no capacity."
    );
}

fn check_blocking_status() {
    assert!(has_blocking_status("?? index.bin\n"));
    assert!(has_blocking_status(" M source.rs\n"));
    assert!(has_blocking_status("?? source.rs\n"));
}

fn check_github_urls() {
    for url in [
        "https://github.com/roven/example.git",
        "ssh://git@github.com/roven/example.git",
        "git://github.com/roven/example.git",
        "git@github.com:roven/example.git",
    ] {
        assert!(is_github_url(url), "{url} should be accepted");
    }
    assert!(!is_github_url("https://github.com.example/roven/example.git"));
}

#[test]
fn tools_git_status_is_blocked_when_any_change_is_present() {
    check_blocking_status();
}

#[test]
fn mod_git_status_is_blocked_when_any_change_is_present() {
    check_blocking_status();
}

#[test]
fn prepare_project_git_status_is_blocked_when_any_change_is_present() {
    check_blocking_status();
}

#[test]
fn tools_github_remote_detection_accepts_standard_git_url_forms_only() {
    check_github_urls();
}

#[test]
fn mod_github_remote_detection_accepts_standard_git_url_forms_only() {
    check_github_urls();
}

#[test]
fn prepare_project_github_remote_detection_accepts_standard_git_url_forms_only() {
    check_github_urls();
}

#[test]
fn detects_provider_level_access_without_saved_profiles() {
    assert_eq!(
        detect_provider_status(&[], |_| false, |kind| kind == ProviderKind::OpenRouter),
        StartupProviderStatus::OpenRouterOnly
    );
    assert_eq!(
        detect_provider_status(&[], |_| false, |kind| kind == ProviderKind::OllamaCloud),
        StartupProviderStatus::OllamaOnly
    );
    assert_eq!(
        detect_provider_status(&[], |_| false, |_| true),
        StartupProviderStatus::BothConfigured
    );
    assert_eq!(
        detect_provider_status(&[], |_| false, |_| false),
        StartupProviderStatus::NoProviderAccess
    );
}

#[test]
fn register_slash_command_expands_only_in_agent_context() {
    let prompt = slash_command_prompt("  /register  ").expect("command should expand");

    assert!(prompt.contains("prepare_project"));
    assert!(prompt.contains("summary"));
    assert!(slash_command("/unknown").is_none());
    assert_eq!(slash_command("/resume"), Some(SlashCommand::Resume));
    assert_eq!(slash_command("/model"), Some(SlashCommand::Model));
}
