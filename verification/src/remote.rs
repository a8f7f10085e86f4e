//! Provider-specific endpoints: which URLs belong to OpenRouter and to
//! Ollama Cloud, and the metadata URLs built from them.

use vstd::prelude::*;
use crate::endpoint::{UrlView, parse_url, parsed_url};
use crate::model_catalog::{validate_model, model_valid_for};
use crate::text::{find_char, from_chars, slice_chars, str_equals, to_chars, trim_end_char, trim_end_chars};

verus! {

broadcast use vstd::string::group_string_axioms;

/// An OpenRouter endpoint: HTTPS on `openrouter.ai` or `eu.openrouter.ai`.
pub open spec fn openrouter_url(parsed: Option<UrlView>) -> bool {
    match parsed {
        Some(u) => u.scheme == "https"@ && (u.host == Some("openrouter.ai"@) || u.host == Some(
            "eu.openrouter.ai"@,
        )),
        None => false,
    }
}

/// Whether `endpoint` is an OpenRouter endpoint.
pub fn is_openrouter_endpoint(endpoint: &str) -> (result: bool)
    ensures
        result == openrouter_url(parsed_url(endpoint@)),
{
    match parse_url(endpoint) {
        None => false,
        Some(u) => {
            let scheme = to_chars(u.scheme.as_str());
            if !str_equals(&scheme, "https") {
                return false;
            }
            match &u.host {
                Some(h) => {
                    let host = to_chars(h.as_str());
                    str_equals(&host, "openrouter.ai") || str_equals(&host, "eu.openrouter.ai")
                },
                None => false,
            }
        },
    }
}

/// An Ollama Cloud endpoint: HTTPS on `ollama.com`.
pub open spec fn ollama_url(parsed: Option<UrlView>) -> bool {
    match parsed {
        Some(u) => u.scheme == "https"@ && u.host == Some("ollama.com"@),
        None => false,
    }
}

/// Whether `endpoint` is an Ollama Cloud endpoint.
pub fn is_ollama_endpoint(endpoint: &str) -> (result: bool)
    ensures
        result == ollama_url(parsed_url(endpoint@)),
{
    match parse_url(endpoint) {
        None => false,
        Some(u) => {
            let scheme = to_chars(u.scheme.as_str());
            let https = str_equals(&scheme, "https");
            match &u.host {
                Some(h) => {
                    let host = to_chars(h.as_str());
                    https && str_equals(&host, "ollama.com")
                },
                None => false,
            }
        },
    }
}

/// Ollama Cloud's native chat endpoint: an Ollama Cloud URL whose
/// serialization is again one, with the path `/api/chat` (trailing `/`
/// aside).
pub open spec fn ollama_native_url(endpoint: Seq<char>) -> bool {
    match parsed_url(endpoint) {
        Some(u) => ollama_url(parsed_url(u.serialization)) && trim_end_char(u.path, '/')
            == "/api/chat"@,
        None => false,
    }
}

/// Whether `endpoint` is Ollama Cloud's native chat endpoint.
pub fn is_native_ollama_endpoint(endpoint: &str) -> (result: bool)
    ensures
        result == ollama_native_url(endpoint@),
{
    match parse_url(endpoint) {
        None => false,
        Some(u) => {
            let path = to_chars(u.path.as_str());
            let trimmed = trim_end_chars(&path, '/');
            is_ollama_endpoint(u.serialization.as_str()) && str_equals(&trimmed, "/api/chat")
        },
    }
}

/// What `url` gives for `endpoint` with its path replaced by `path` and no
/// query or fragment.
pub uninterp spec fn url_with_path(endpoint: Seq<char>, path: Seq<char>) -> Option<Seq<char>>;

/// Parses `endpoint` with `url::Url::parse`, then sets the path, clears the
/// query and fragment (`set_path`, `set_query(None)`, `set_fragment(None)`)
/// and serializes; none when the endpoint does not parse.  The result is a
/// function of the two texts alone.
#[verifier::external_body]
fn replace_url_path(endpoint: &str, path: &str) -> (result: Option<String>)
    ensures
        match result {
            Some(r) => url_with_path(endpoint@, path@) == Some(r@),
            None => url_with_path(endpoint@, path@) is None,
        },
{
    let mut url = url::Url::parse(endpoint).ok()?;
    url.set_path(path);
    url.set_query(None);
    url.set_fragment(None);
    Some(url.to_string())
}

/// The URL of an Ollama API route on the endpoint's host.
pub fn api_url(endpoint: &str, path: &str) -> (result: Option<String>)
    ensures
        match result {
            Some(r) => url_with_path(endpoint@, path@) == Some(r@),
            None => url_with_path(endpoint@, path@) is None,
        },
{
    replace_url_path(endpoint, path)
}

/// What `url` gives for `url` with `segment` pushed onto its path
/// (percent-encoded); none when it does not parse or cannot be a base.
pub uninterp spec fn url_with_segment(url: Seq<char>, segment: Seq<char>) -> Option<Seq<char>>;

/// Parses `url` with `url::Url::parse`, pushes `segment` through
/// `path_segments_mut` (which percent-encodes it) and serializes; none when
/// the text does not parse or cannot be a base.  A function of the two
/// texts alone.
#[verifier::external_body]
fn push_url_segment(url: &str, segment: &str) -> (result: Option<String>)
    ensures
        match result {
            Some(r) => url_with_segment(url@, segment@) == Some(r@),
            None => url_with_segment(url@, segment@) is None,
        },
{
    let mut parsed = url::Url::parse(url).ok()?;
    parsed.path_segments_mut().ok()?.push(segment);
    Some(parsed.to_string())
}

/// The route of OpenRouter's model records.
pub open spec fn models_route() -> Seq<char> {
    "/api/v1/models"@
}

/// The segments pushed after the author and slug of a model.
pub open spec fn endpoints_segment() -> Seq<char> {
    "endpoints"@
}

/// The URL of the endpoint records of model `author/slug`: the endpoint
/// with the path `/api/v1/models` and no query or fragment, then the
/// segments `author`, `slug` and `endpoints`.
pub open spec fn models_endpoints_url(endpoint: Seq<char>, author: Seq<char>, slug: Seq<char>) -> Option<
    Seq<char>,
> {
    match url_with_path(endpoint, models_route()) {
        None => None,
        Some(base) => match url_with_segment(base, author) {
            None => None,
            Some(a) => match url_with_segment(a, slug) {
                None => None,
                Some(b) => url_with_segment(b, endpoints_segment()),
            },
        },
    }
}

fn model_endpoints_url(endpoint: &str, author: &str, slug: &str) -> (result: Option<String>)
    ensures
        match result {
            Some(r) => models_endpoints_url(endpoint@, author@, slug@) == Some(r@),
            None => models_endpoints_url(endpoint@, author@, slug@) is None,
        },
{
    let base = replace_url_path(endpoint, "/api/v1/models")?;
    let with_author = push_url_segment(base.as_str(), author)?;
    let with_slug = push_url_segment(with_author.as_str(), slug)?;
    push_url_segment(with_slug.as_str(), "endpoints")
}

/// The OpenRouter metadata URL of a model: for an OpenRouter endpoint and
/// a model it accepts, split at its first `/` into author and slug.
pub open spec fn metadata_url_of(endpoint: Seq<char>, model: Seq<char>) -> Option<Seq<char>> {
    if !openrouter_url(parsed_url(endpoint)) || !model_valid_for(endpoint, model) || !model.contains(
        '/',
    ) {
        None
    } else {
        let k = choose|k: int|
            0 <= k < model.len() && model[k] == '/' && forall|j: int| 0 <= j < k ==> model[j] != '/';
        models_endpoints_url(endpoint, model.take(k), model.skip(k + 1))
    }
}

/// The OpenRouter metadata URL of `model` on `endpoint`.
pub fn metadata_url(endpoint: &str, model: &str) -> (result: Option<String>)
    ensures
        match result {
            Some(r) => metadata_url_of(endpoint@, model@) == Some(r@),
            None => metadata_url_of(endpoint@, model@) is None,
        },
{
    if !is_openrouter_endpoint(endpoint) || !validate_model(endpoint, model) {
        return None;
    }
    let m = to_chars(model);
    match find_char(&m, '/') {
        None => None,
        Some(k) => {
            assert(m@[k as int] == '/');
            let a = slice_chars(&m, 0, k);
            let b = slice_chars(&m, k + 1, m.len());
            assert(a@ =~= model@.take(k as int));
            assert(b@ =~= model@.skip(k + 1));
            let author = from_chars(a.as_slice());
            let slug = from_chars(b.as_slice());
            proof {
                let c = choose|c: int|
                    0 <= c < model@.len() && model@[c] == '/' && forall|j: int|
                        0 <= j < c ==> model@[j] != '/';
                if c < k {
                    assert(m@[c] != '/');
                }
                if k < c {
                    assert(model@[k as int] != '/');
                }
            }
            model_endpoints_url(endpoint, author.as_str(), slug.as_str())
        },
    }
}

/// The largest positive context length among the endpoint records, if any
/// fits in `usize`.
pub open spec fn largest_context(lengths: Seq<Option<u64>>) -> Option<nat>
    decreases lengths.len(),
{
    if lengths.len() == 0 {
        None
    } else {
        let prev = largest_context(lengths.drop_last());
        match lengths.last() {
            Some(t) => if t > 0 && t <= usize::MAX {
                match prev {
                    Some(p) => Some(if p >= t {
                        p
                    } else {
                        t as nat
                    }),
                    None => Some(t as nat),
                }
            } else {
                prev
            },
            None => prev,
        }
    }
}

/// The context window an OpenRouter model's endpoint records report: the
/// largest positive `context_length` (none for a record without one).
pub fn parse_context_window(lengths: &Vec<Option<u64>>) -> (result: Option<usize>)
    ensures
        match result {
            Some(n) => largest_context(lengths@) == Some(n as nat),
            None => largest_context(lengths@) is None,
        },
{
    let mut best: Option<usize> = None;
    let mut i: usize = 0;
    while i < lengths.len()
        invariant
            i <= lengths.len(),
            match best {
                Some(n) => largest_context(lengths@.take(i as int)) == Some(n as nat),
                None => largest_context(lengths@.take(i as int)) is None,
            },
        decreases lengths.len() - i,
    {
        assert(lengths@.take(i + 1).drop_last() =~= lengths@.take(i as int));
        match lengths[i] {
            Some(t) => {
                if t > 0 && t <= usize::MAX as u64 {
                    let tu = t as usize;
                    best = match best {
                        Some(p) => Some(
                            if p >= tu {
                                p
                            } else {
                                tu
                            },
                        ),
                        None => Some(tu),
                    };
                }
            },
            None => {},
        }
        i = i + 1;
    }
    assert(lengths@.take(i as int) =~= lengths@);
    best
}

/// The context window Ollama's model information reports: the first
/// `*.context_length` entry holding a positive number that fits in `usize`.
pub open spec fn model_info_context(entries: Seq<(Seq<char>, Option<u64>)>) -> Option<nat>
    decreases entries.len(),
{
    if entries.len() == 0 {
        None
    } else {
        let (key, value) = entries[0];
        match value {
            Some(t) => if ".context_length"@.is_suffix_of(key) && t > 0 && t <= usize::MAX {
                Some(t as nat)
            } else {
                model_info_context(entries.skip(1))
            },
            None => model_info_context(entries.skip(1)),
        }
    }
}

/// The context window of an Ollama model from its `model_info` entries, in
/// the order the JSON object lists them.
pub fn ollama_context_window(entries: &Vec<(String, Option<u64>)>) -> (result: Option<usize>)
    ensures
        match result {
            Some(n) => model_info_context(entries@.map_values(|e: (String, Option<u64>)| (e.0@, e.1)))
                == Some(n as nat),
            None => model_info_context(entries@.map_values(|e: (String, Option<u64>)| (e.0@, e.1))) is None,
        },
{
    let ghost views = entries@.map_values(|e: (String, Option<u64>)| (e.0@, e.1));
    let suffix = to_chars(".context_length");
    let mut i: usize = 0;
    assert(views.skip(0) =~= views);
    while i < entries.len()
        invariant
            i <= entries.len(),
            views == entries@.map_values(|e: (String, Option<u64>)| (e.0@, e.1)),
            suffix@ == ".context_length"@,
            model_info_context(views) == model_info_context(views.skip(i as int)),
        decreases entries.len() - i,
    {
        assert(views.skip(i as int)[0] == (entries@[i as int].0@, entries@[i as int].1));
        assert(views.skip(i as int).skip(1) =~= views.skip(i + 1));
        let key = to_chars(entries[i].0.as_str());
        match entries[i].1 {
            Some(t) => {
                if crate::text::ends_with(&key, &suffix) && t > 0 && t <= usize::MAX as u64 {
                    return Some(t as usize);
                }
            },
            None => {},
        }
        i = i + 1;
    }
    None
}

} // verus!
