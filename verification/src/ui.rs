//! The terminal interface's decisions: which providers the startup banner
//! reports, and which slash commands the composer understands.

use vstd::prelude::*;
use crate::endpoint::parsed_url;
use crate::model_catalog::{ProviderKind, classify};
use crate::profiles::ProviderProfile;
use crate::text::{str_equals, to_chars, trim, trim_chars};

verus! {

broadcast use vstd::string::group_string_axioms;

/// Which provider families can be used at startup.
#[derive(Debug, Clone, Copy, PartialEq, Eq, Structural)]
pub enum StartupProviderStatus {
    NoProviderAccess,
    OpenRouterOnly,
    OllamaOnly,
    BothConfigured,
}

/// The status for access to OpenRouter and to Ollama Cloud.
pub open spec fn status_for(openrouter: bool, ollama: bool) -> StartupProviderStatus {
    if openrouter && ollama {
        StartupProviderStatus::BothConfigured
    } else if openrouter {
        StartupProviderStatus::OpenRouterOnly
    } else if ollama {
        StartupProviderStatus::OllamaOnly
    } else {
        StartupProviderStatus::NoProviderAccess
    }
}

/// Whether some profile with access (`access[i]` for `profiles[i]`) has an
/// endpoint of the family `kind`.
pub open spec fn profile_grants(profiles: Seq<ProviderProfile>, access: Seq<bool>, kind: ProviderKind) -> bool {
    exists|i: int|
        0 <= i < profiles.len() && i < access.len() && access[i] && classify(
            parsed_url(#[trigger] profiles[i].endpoint@),
        ) == Some(kind)
}

/// The startup status: a family is usable when the environment grants it or
/// a profile with access points at it.
pub open spec fn startup_status(
    profiles: Seq<ProviderProfile>,
    access: Seq<bool>,
    openrouter: bool,
    ollama: bool,
) -> StartupProviderStatus {
    status_for(
        openrouter || profile_grants(profiles, access, ProviderKind::OpenRouter),
        ollama || profile_grants(profiles, access, ProviderKind::OllamaCloud),
    )
}

/// Detects which provider families are usable: `has_provider_access` says
/// whether a family is usable without a profile, `has_access` whether a
/// profile's key is available.  Every profile is asked once, in order.
pub fn detect_provider_status<F: Fn(&ProviderProfile) -> bool, G: Fn(ProviderKind) -> bool>(
    profiles: &[ProviderProfile],
    has_access: F,
    has_provider_access: G,
) -> (result: StartupProviderStatus)
    requires
        forall|p: &ProviderProfile| #[trigger] has_access.requires((p,)),
        forall|k: ProviderKind| #[trigger] has_provider_access.requires((k,)),
    ensures
        exists|openrouter: bool, ollama: bool, access: Seq<bool>|
            #![trigger has_provider_access.ensures((ProviderKind::OpenRouter,), openrouter), has_provider_access.ensures((ProviderKind::OllamaCloud,), ollama), startup_status(profiles@, access, openrouter, ollama)]
            has_provider_access.ensures((ProviderKind::OpenRouter,), openrouter)
                && has_provider_access.ensures((ProviderKind::OllamaCloud,), ollama) && access.len()
                == profiles@.len() && (forall|i: int|
                0 <= i < access.len() ==> has_access.ensures((&profiles@[i],), #[trigger] access[i]))
                && result == startup_status(profiles@, access, openrouter, ollama),
{
    let openrouter0 = has_provider_access(ProviderKind::OpenRouter);
    let ollama0 = has_provider_access(ProviderKind::OllamaCloud);
    let mut openrouter = openrouter0;
    let mut ollama = ollama0;
    let ghost mut access: Seq<bool> = Seq::empty();
    let mut i: usize = 0;
    while i < profiles.len()
        invariant
            i <= profiles.len(),
            forall|p: &ProviderProfile| #[trigger] has_access.requires((p,)),
            access.len() == i,
            forall|j: int| 0 <= j < i ==> has_access.ensures((&profiles@[j],), #[trigger] access[j]),
            openrouter == (openrouter0 || profile_grants(
                profiles@.take(i as int),
                access,
                ProviderKind::OpenRouter,
            )),
            ollama == (ollama0 || profile_grants(
                profiles@.take(i as int),
                access,
                ProviderKind::OllamaCloud,
            )),
        decreases profiles.len() - i,
    {
        let profile = &profiles[i];
        let granted = has_access(profile);
        let ghost before = access;
        proof {
            access = access.push(granted);
        }
        let kind = if granted {
            ProviderKind::from_endpoint(profile.endpoint.as_str())
        } else {
            None
        };
        match kind {
            Some(ProviderKind::OpenRouter) => {
                openrouter = true;
            },
            Some(ProviderKind::OllamaCloud) => {
                ollama = true;
            },
            None => {},
        }
        proof {
            let t0 = profiles@.take(i as int);
            let t1 = profiles@.take(i + 1);
            assert(t1[i as int] == profiles@[i as int]);
            assert forall|k: ProviderKind| profile_grants(t1, access, k) == (profile_grants(
                t0,
                before,
                k,
            ) || (granted && classify(parsed_url(profiles@[i as int].endpoint@)) == Some(k))) by {
                if profile_grants(t0, before, k) {
                    let j = choose|j: int|
                        0 <= j < t0.len() && j < before.len() && before[j] && classify(
                            parsed_url(#[trigger] t0[j].endpoint@),
                        ) == Some(k);
                    assert(t1[j] == t0[j]);
                    assert(access[j] == before[j]);
                }
                if profile_grants(t1, access, k) {
                    let j = choose|j: int|
                        0 <= j < t1.len() && j < access.len() && access[j] && classify(
                            parsed_url(#[trigger] t1[j].endpoint@),
                        ) == Some(k);
                    if j < i {
                        assert(t0[j] == t1[j]);
                        assert(before[j] == access[j]);
                    }
                }
                if granted && classify(parsed_url(profiles@[i as int].endpoint@)) == Some(k) {
                    assert(access[i as int] == granted);
                }
            }
            assert forall|j: int| 0 <= j < i + 1 implies has_access.ensures(
                (&profiles@[j],),
                #[trigger] access[j],
            ) by {
                if j < i {
                    assert(access[j] == before[j]);
                }
            }
        }
        i = i + 1;
    }
    assert(profiles@.take(i as int) =~= profiles@);
    let result = if openrouter && ollama {
        StartupProviderStatus::BothConfigured
    } else if openrouter {
        StartupProviderStatus::OpenRouterOnly
    } else if ollama {
        StartupProviderStatus::OllamaOnly
    } else {
        StartupProviderStatus::NoProviderAccess
    };
    assert(has_provider_access.ensures((ProviderKind::OpenRouter,), openrouter0));
    assert(has_provider_access.ensures((ProviderKind::OllamaCloud,), ollama0));
    assert(result == startup_status(profiles@, access, openrouter0, ollama0));
    result
}

/// The startup banner's lines for a status.
pub fn banner_lines(status: StartupProviderStatus) -> (result: Vec<&'static str>)
    ensures
        result@.map_values(|s: &str| s@) == match status {
            StartupProviderStatus::NoProviderAccess => seq![
                "OpenRouter: missing"@,
                "Ollama Cloud: missing"@,
                "Next step: roven auth set"@,
            ],
            StartupProviderStatus::OpenRouterOnly => seq![
                "OpenRouter: configured"@,
                "Ollama Cloud: missing"@,
            ],
            StartupProviderStatus::OllamaOnly => seq![
                "OpenRouter: missing"@,
                "Ollama Cloud: configured"@,
            ],
            StartupProviderStatus::BothConfigured => seq![
                "OpenRouter: configured"@,
                "Ollama Cloud: configured"@,
            ],
        },
{
    let mut v: Vec<&'static str> = Vec::new();
    match status {
        StartupProviderStatus::NoProviderAccess => {
            v.push("OpenRouter: missing");
            v.push("Ollama Cloud: missing");
            v.push("Next step: roven auth set");
        },
        StartupProviderStatus::OpenRouterOnly => {
            v.push("OpenRouter: configured");
            v.push("Ollama Cloud: missing");
        },
        StartupProviderStatus::OllamaOnly => {
            v.push("OpenRouter: missing");
            v.push("Ollama Cloud: configured");
        },
        StartupProviderStatus::BothConfigured => {
            v.push("OpenRouter: configured");
            v.push("Ollama Cloud: configured");
        },
    }
    assert(v@.map_values(|s: &str| s@) =~= match status {
        StartupProviderStatus::NoProviderAccess => seq![
            "OpenRouter: missing"@,
            "Ollama Cloud: missing"@,
            "Next step: roven auth set"@,
        ],
        StartupProviderStatus::OpenRouterOnly => seq![
            "OpenRouter: configured"@,
            "Ollama Cloud: missing"@,
        ],
        StartupProviderStatus::OllamaOnly => seq![
            "OpenRouter: missing"@,
            "Ollama Cloud: configured"@,
        ],
        StartupProviderStatus::BothConfigured => seq![
            "OpenRouter: configured"@,
            "Ollama Cloud: configured"@,
        ],
    });
    v
}

// ----------------------------------------------------------------------------
// Slash commands
// ----------------------------------------------------------------------------

/// A command typed in the composer.
#[derive(Debug, Clone, Copy, PartialEq, Eq, Structural)]
pub enum SlashCommand {
    Register,
    Resume,
    Model,
}

/// The word that invokes a command.
pub open spec fn command_word(command: SlashCommand) -> Seq<char> {
    match command {
        SlashCommand::Register => "/register"@,
        SlashCommand::Resume => "/resume"@,
        SlashCommand::Model => "/model"@,
    }
}

/// The command named by composer input: the whole input, trimmed, must be
/// the command's word.
pub open spec fn command_named(input: Seq<char>) -> Option<SlashCommand> {
    let t = trim(input);
    if t == "/register"@ {
        Some(SlashCommand::Register)
    } else if t == "/resume"@ {
        Some(SlashCommand::Resume)
    } else if t == "/model"@ {
        Some(SlashCommand::Model)
    } else {
        None
    }
}

impl SlashCommand {
    /// The word that invokes the command.
    pub fn name(self) -> (result: &'static str)
        ensures
            result@ == command_word(self),
    {
        match self {
            SlashCommand::Register => "/register",
            SlashCommand::Resume => "/resume",
            SlashCommand::Model => "/model",
        }
    }

    /// What the command does, as the command menu shows it.
    pub fn description(self) -> (result: &'static str)
        ensures
            result@ == match self {
                SlashCommand::Register => "Prepare this project"@,
                SlashCommand::Resume => "Resume a conversation"@,
                SlashCommand::Model => "Switch model"@,
            },
    {
        match self {
            SlashCommand::Register => "Prepare this project",
            SlashCommand::Resume => "Resume a conversation",
            SlashCommand::Model => "Switch model",
        }
    }
}

/// The commands the menu offers, in order.
pub fn slash_commands() -> (result: Vec<SlashCommand>)
    ensures
        result@ == seq![SlashCommand::Register, SlashCommand::Resume, SlashCommand::Model],
{
    let mut v: Vec<SlashCommand> = Vec::new();
    v.push(SlashCommand::Register);
    v.push(SlashCommand::Resume);
    v.push(SlashCommand::Model);
    assert(v@ =~= seq![SlashCommand::Register, SlashCommand::Resume, SlashCommand::Model]);
    v
}

/// The command the composer input names, if any.
pub fn slash_command(input: &str) -> (result: Option<SlashCommand>)
    ensures
        result == command_named(input@),
{
    let chars = to_chars(input);
    let t = trim_chars(&chars);
    if str_equals(&t, "/register") {
        Some(SlashCommand::Register)
    } else if str_equals(&t, "/resume") {
        Some(SlashCommand::Resume)
    } else if str_equals(&t, "/model") {
        Some(SlashCommand::Model)
    } else {
        None
    }
}

/// The instructions the agent receives when the operator types `/register`.
pub open spec fn register_prompt_text() -> Seq<char> {
    "Register the current trusted workspace as a Roven project. Call `prepare_project` with {\"path\":\".\"}. If the result is `prepared` or `already_added`, look at the project's top-level files with `list_directory` and read the few that explain it with `read_file`, then write a concise `summary` of what the project is for and how it is organised. Save it by calling `prepare_project` again with {\"path\":\".\",\"section_name\":\"summary\",\"operation\":\"replace\",\"text\":<the summary>}. If the result is `blocked`, explain the reason in plain words and what the operator can do about it; do not retry unchanged."@
}

/// The registration instructions `/register` expands to.
pub fn register_project_prompt() -> (result: &'static str)
    ensures
        result@ == register_prompt_text(),
{
    "Register the current trusted workspace as a Roven project. Call `prepare_project` with {\"path\":\".\"}. If the result is `prepared` or `already_added`, look at the project's top-level files with `list_directory` and read the few that explain it with `read_file`, then write a concise `summary` of what the project is for and how it is organised. Save it by calling `prepare_project` again with {\"path\":\".\",\"section_name\":\"summary\",\"operation\":\"replace\",\"text\":<the summary>}. If the result is `blocked`, explain the reason in plain words and what the operator can do about it; do not retry unchanged."
}

/// What the agent receives for composer input: the registration
/// instructions for `/register`, nothing special otherwise.
pub fn slash_command_prompt(input: &str) -> (result: Option<&'static str>)
    ensures
        result is Some <==> command_named(input@) == Some(SlashCommand::Register),
        result matches Some(p) ==> p@ == register_prompt_text(),
{
    match slash_command(input) {
        Some(SlashCommand::Register) => Some(register_project_prompt()),
        _ => None,
    }
}

} // verus!
