//! Provider classification by endpoint and model-ID validation.

use vstd::prelude::*;
use crate::endpoint::{UrlParts, UrlView, parse_url, parsed_url, parts_view};
use crate::text::{
    chars_blank, find_char, is_blank, slice_chars, str_equals, to_chars, trim_end_char,
    trim_end_chars,
};

verus! {

/// A provider family recognised by its endpoint.
#[derive(Debug, Clone, Copy, PartialEq, Eq)]
pub enum ProviderKind {
    OpenRouter,
    OllamaCloud,
}

/// The hosts that serve OpenRouter.
pub open spec fn openrouter_host(host: Seq<char>) -> bool {
    host == "openrouter.ai"@ || host == "eu.openrouter.ai"@
}

/// The provider family of a parsed endpoint: Ollama Cloud's native chat path
/// on `ollama.com`, or an OpenRouter host, always over HTTPS.
pub open spec fn classify(parsed: Option<UrlView>) -> Option<ProviderKind> {
    match parsed {
        None => None,
        Some(u) => if u.scheme != "https"@ {
            None
        } else if u.host == Some("ollama.com"@) && trim_end_char(u.path, '/') == "/api/chat"@ {
            Some(ProviderKind::OllamaCloud)
        } else {
            match u.host {
                Some(h) => if openrouter_host(h) {
                    Some(ProviderKind::OpenRouter)
                } else {
                    None
                },
                None => None,
            }
        },
    }
}

/// The provider family of an already parsed endpoint.
pub fn classify_endpoint(parts: &Option<UrlParts>) -> (result: Option<ProviderKind>)
    ensures
        result == classify(parts_view(*parts)),
{
    match parts {
        None => None,
        Some(u) => {
            let scheme = to_chars(u.scheme.as_str());
            if !str_equals(&scheme, "https") {
                return None;
            }
            let path = to_chars(u.path.as_str());
            let trimmed_path = trim_end_chars(&path, '/');
            match &u.host {
                Some(h) => {
                    let host = to_chars(h.as_str());
                    if str_equals(&host, "ollama.com") && str_equals(&trimmed_path, "/api/chat") {
                        Some(ProviderKind::OllamaCloud)
                    } else if str_equals(&host, "openrouter.ai") || str_equals(
                        &host,
                        "eu.openrouter.ai",
                    ) {
                        Some(ProviderKind::OpenRouter)
                    } else {
                        None
                    }
                },
                None => None,
            }
        },
    }
}

impl ProviderKind {
    /// The provider family of an endpoint URL.
    pub fn from_endpoint(endpoint: &str) -> (result: Option<Self>)
        ensures
            result == classify(parsed_url(endpoint@)),
    {
        let parts = parse_url(endpoint);
        classify_endpoint(&parts)
    }

    /// The environment variable that may hold the family's API key.
    pub fn api_key_env_var(self) -> (result: &'static str)
        ensures
            result@ == match self {
                ProviderKind::OpenRouter => "OPENROUTER_API_KEY"@,
                ProviderKind::OllamaCloud => "OLLAMA_API_KEY"@,
            },
    {
        match self {
            ProviderKind::OpenRouter => "OPENROUTER_API_KEY",
            ProviderKind::OllamaCloud => "OLLAMA_API_KEY",
        }
    }
}

/// The Ollama Cloud models that Roven accepts.
pub open spec fn ollama_cloud_models() -> Seq<Seq<char>> {
    seq![
        "deepseek-v4-flash:cloud"@,
        "deepseek-v4-pro:cloud"@,
        "gemma4:31b-cloud"@,
        "glm-5.1:cloud"@,
        "glm-5.2:cloud"@,
        "gpt-oss:20b-cloud"@,
        "gpt-oss:120b-cloud"@,
        "kimi-k2.6:cloud"@,
        "minimax-m2.7:cloud"@,
        "minimax-m3:cloud"@,
        "mistral-large-3:675b-cloud"@,
        "qwen3.5:cloud"@
    ]
}

/// An OpenRouter model ID: `author/slug`, split at the first `/`, with
/// neither side blank.
pub open spec fn valid_openrouter_model(model: Seq<char>) -> bool {
    exists|i: int|
        0 <= i < model.len() && model[i] == '/' && (forall|j: int| 0 <= j < i ==> model[j] != '/')
            && !is_blank(model.take(i)) && !is_blank(model.skip(i + 1))
}

/// Whether a model ID is accepted for a provider family.
pub open spec fn model_accepted(kind: ProviderKind, model: Seq<char>) -> bool {
    match kind {
        ProviderKind::OpenRouter => valid_openrouter_model(model),
        ProviderKind::OllamaCloud => ollama_cloud_models().contains(model),
    }
}

/// The model catalogue of a provider family.
#[derive(Debug, Clone, Copy, PartialEq, Eq)]
pub enum ModelCatalog {
    OpenRouter,
    OllamaCloud,
}

/// The provider family a catalogue belongs to.
pub open spec fn catalog_kind(catalog: ModelCatalog) -> ProviderKind {
    match catalog {
        ModelCatalog::OpenRouter => ProviderKind::OpenRouter,
        ModelCatalog::OllamaCloud => ProviderKind::OllamaCloud,
    }
}

/// The catalogue that validates model IDs for `kind`.
pub fn catalog_for(kind: ProviderKind) -> (result: ModelCatalog)
    ensures
        catalog_kind(result) == kind,
{
    match kind {
        ProviderKind::OpenRouter => ModelCatalog::OpenRouter,
        ProviderKind::OllamaCloud => ModelCatalog::OllamaCloud,
    }
}

fn is_ollama_cloud_model(model: &Vec<char>) -> (result: bool)
    ensures
        result == ollama_cloud_models().contains(model@),
{
    let r = str_equals(model, "deepseek-v4-flash:cloud") || str_equals(model, "deepseek-v4-pro:cloud")
        || str_equals(model, "gemma4:31b-cloud") || str_equals(model, "glm-5.1:cloud")
        || str_equals(model, "glm-5.2:cloud") || str_equals(model, "gpt-oss:20b-cloud")
        || str_equals(model, "gpt-oss:120b-cloud") || str_equals(model, "kimi-k2.6:cloud")
        || str_equals(model, "minimax-m2.7:cloud") || str_equals(model, "minimax-m3:cloud")
        || str_equals(model, "mistral-large-3:675b-cloud") || str_equals(model, "qwen3.5:cloud");
    proof {
        let m = ollama_cloud_models();
        if r {
            if model@ == "deepseek-v4-flash:cloud"@ { assert(m[0] == model@); }
            else if model@ == "deepseek-v4-pro:cloud"@ { assert(m[1] == model@); }
            else if model@ == "gemma4:31b-cloud"@ { assert(m[2] == model@); }
            else if model@ == "glm-5.1:cloud"@ { assert(m[3] == model@); }
            else if model@ == "glm-5.2:cloud"@ { assert(m[4] == model@); }
            else if model@ == "gpt-oss:20b-cloud"@ { assert(m[5] == model@); }
            else if model@ == "gpt-oss:120b-cloud"@ { assert(m[6] == model@); }
            else if model@ == "kimi-k2.6:cloud"@ { assert(m[7] == model@); }
            else if model@ == "minimax-m2.7:cloud"@ { assert(m[8] == model@); }
            else if model@ == "minimax-m3:cloud"@ { assert(m[9] == model@); }
            else if model@ == "mistral-large-3:675b-cloud"@ { assert(m[10] == model@); }
            else { assert(m[11] == model@); }
        } else {
            assert forall|k: int| 0 <= k < m.len() implies m[k] != model@ by {
                assert(0 <= k < 12);
            }
        }
    }
    r
}

fn is_valid_openrouter_model(model: &Vec<char>) -> (result: bool)
    ensures
        result == valid_openrouter_model(model@),
{
    match find_char(model, '/') {
        None => {
            proof {
                if valid_openrouter_model(model@) {
                    let i = choose|i: int|
                        0 <= i < model@.len() && model@[i] == '/' && (forall|j: int|
                            0 <= j < i ==> model@[j] != '/') && !is_blank(model@.take(i))
                            && !is_blank(model@.skip(i + 1));
                    assert(model@.contains('/'));
                }
            }
            false
        },
        Some(i) => {
            let author = slice_chars(model, 0, i);
            let slug = slice_chars(model, i + 1, model.len());
            assert(author@ =~= model@.take(i as int));
            assert(slug@ =~= model@.skip(i + 1));
            let r = !chars_blank(&author) && !chars_blank(&slug);
            proof {
                if valid_openrouter_model(model@) {
                    let k = choose|k: int|
                        0 <= k < model@.len() && model@[k] == '/' && (forall|j: int|
                            0 <= j < k ==> model@[j] != '/') && !is_blank(model@.take(k))
                            && !is_blank(model@.skip(k + 1));
                    if k < i {
                    } else if k > i {
                        assert(model@[i as int] != '/');
                    }
                    assert(k == i);
                }
            }
            r
        },
    }
}

impl ModelCatalog {
    /// Whether this catalogue accepts `model_id`.
    pub fn validate(&self, model_id: &str) -> (result: bool)
        ensures
            result == model_accepted(catalog_kind(*self), model_id@),
    {
        let model = to_chars(model_id);
        match self {
            ModelCatalog::OpenRouter => is_valid_openrouter_model(&model),
            ModelCatalog::OllamaCloud => is_ollama_cloud_model(&model),
        }
    }
}

/// A model ID is accepted for an endpoint whose provider family is unknown,
/// and otherwise only if that family's catalogue accepts it.
pub open spec fn model_valid_for(endpoint: Seq<char>, model: Seq<char>) -> bool {
    match classify(parsed_url(endpoint)) {
        None => true,
        Some(kind) => model_accepted(kind, model),
    }
}

/// Whether `model_id` may be used with `endpoint`.
pub fn validate_model(endpoint: &str, model_id: &str) -> (result: bool)
    ensures
        result == model_valid_for(endpoint@, model_id@),
{
    match ProviderKind::from_endpoint(endpoint) {
        None => true,
        Some(kind) => catalog_for(kind).validate(model_id),
    }
}

/// Ollama Cloud accepts exactly its twelve allowlisted model IDs:
/// `deepseek-v4-flash:cloud`, `deepseek-v4-pro:cloud`, `gemma4:31b-cloud`,
/// `glm-5.1:cloud`, `glm-5.2:cloud`, `gpt-oss:20b-cloud`,
/// `gpt-oss:120b-cloud`, `kimi-k2.6:cloud`, `minimax-m2.7:cloud`,
/// `minimax-m3:cloud`, `mistral-large-3:675b-cloud` and `qwen3.5:cloud`;
/// any other text is refused.
pub proof fn law_ollama_cloud_accepts_exactly_its_allowlist(model: Seq<char>)
    ensures
        model_accepted(ProviderKind::OllamaCloud, model) <==> (
            model == "deepseek-v4-flash:cloud"@
            || model == "deepseek-v4-pro:cloud"@
            || model == "gemma4:31b-cloud"@
            || model == "glm-5.1:cloud"@
            || model == "glm-5.2:cloud"@
            || model == "gpt-oss:20b-cloud"@
            || model == "gpt-oss:120b-cloud"@
            || model == "kimi-k2.6:cloud"@
            || model == "minimax-m2.7:cloud"@
            || model == "minimax-m3:cloud"@
            || model == "mistral-large-3:675b-cloud"@
            || model == "qwen3.5:cloud"@
        ),
{
    let m = ollama_cloud_models();
    if model_accepted(ProviderKind::OllamaCloud, model) {
        let k = choose|k: int| 0 <= k < m.len() && m[k] == model;
        assert(0 <= k < 12);
    }
    if model == "deepseek-v4-flash:cloud"@
            || model == "deepseek-v4-pro:cloud"@
            || model == "gemma4:31b-cloud"@
            || model == "glm-5.1:cloud"@
            || model == "glm-5.2:cloud"@
            || model == "gpt-oss:20b-cloud"@
            || model == "gpt-oss:120b-cloud"@
            || model == "kimi-k2.6:cloud"@
            || model == "minimax-m2.7:cloud"@
            || model == "minimax-m3:cloud"@
            || model == "mistral-large-3:675b-cloud"@
            || model == "qwen3.5:cloud"@ {
        assert(m.contains(model)) by {
            if model == "deepseek-v4-flash:cloud"@ { assert(m[0] == model); }
            else if model == "deepseek-v4-pro:cloud"@ { assert(m[1] == model); }
            else if model == "gemma4:31b-cloud"@ { assert(m[2] == model); }
            else if model == "glm-5.1:cloud"@ { assert(m[3] == model); }
            else if model == "glm-5.2:cloud"@ { assert(m[4] == model); }
            else if model == "gpt-oss:20b-cloud"@ { assert(m[5] == model); }
            else if model == "gpt-oss:120b-cloud"@ { assert(m[6] == model); }
            else if model == "kimi-k2.6:cloud"@ { assert(m[7] == model); }
            else if model == "minimax-m2.7:cloud"@ { assert(m[8] == model); }
            else if model == "minimax-m3:cloud"@ { assert(m[9] == model); }
            else if model == "mistral-large-3:675b-cloud"@ { assert(m[10] == model); }
            else if model == "qwen3.5:cloud"@ { assert(m[11] == model); }
        }
    }
}

} // verus!
