//! The OpenAI-compatible provider: which endpoint it calls, and how every
//! failure is reported without exposing a credential.
//!
//! The HTTP exchange itself is made by the caller, which hands back what the
//! transport reported as a [`TransportFailure`].

use vstd::prelude::*;
use crate::text::{
    collapse_ws, collapse_whitespace, contains_seq, decimal, decimal_chars, find_position,
    first_occurrence, from_chars, is_blank, is_whitespace, is_ws, lower_chars, lower_seq,
    position_of, push_all, push_str, slice_chars, str_blank, to_ascii_lower, to_chars,
};

verus! {

broadcast use vstd::string::group_string_axioms;

/// Why a provider request or stream failed.
#[derive(Debug)]
pub enum ProviderError {
    Diagnostic { stage: String, category: String, detail: String },
    RateLimited(String),
    HttpStatus { status: u16 },
}

/// The text of a provider error.
pub open spec fn provider_error_text(e: ProviderError) -> Seq<char> {
    match e {
        ProviderError::Diagnostic { stage, category, detail } => "Provider "@ + stage@
            + " failed ("@ + category@ + "): "@ + detail@,
        ProviderError::RateLimited(d) => "Provider rate limit reached (HTTP 429)"@ + d@,
        ProviderError::HttpStatus { status } => "Provider rejected the request (HTTP "@ + decimal(
            status as nat,
        ) + ")"@,
    }
}

impl ProviderError {
    /// The error's text.
    pub fn message(&self) -> (result: String)
        ensures
            result@ == provider_error_text(*self),
    {
        let mut out: Vec<char> = Vec::new();
        match self {
            ProviderError::Diagnostic { stage, category, detail } => {
                push_str(&mut out, "Provider ");
                push_str(&mut out, stage.as_str());
                push_str(&mut out, " failed (");
                push_str(&mut out, category.as_str());
                push_str(&mut out, "): ");
                push_str(&mut out, detail.as_str());
            },
            ProviderError::RateLimited(d) => {
                push_str(&mut out, "Provider rate limit reached (HTTP 429)");
                push_str(&mut out, d.as_str());
            },
            ProviderError::HttpStatus { status } => {
                push_str(&mut out, "Provider rejected the request (HTTP ");
                let digits = decimal_chars(*status as u64);
                push_all(&mut out, &digits);
                push_str(&mut out, ")");
            },
        }
        from_chars(out.as_slice())
    }

    /// A diagnostic whose detail is sanitized first.
    pub fn diagnostic(stage: &str, category: &str, detail: &str) -> (result: Self)
        ensures
            result matches ProviderError::Diagnostic { stage: s, category: c, detail: d } && s@
                == stage@ && c@ == category@ && d@ == sanitized(detail@),
    {
        ProviderError::Diagnostic {
            stage: crate::text::owned(stage),
            category: crate::text::owned(category),
            detail: sanitize_diagnostic(detail),
        }
    }
}

// ----------------------------------------------------------------------------
// Sanitizing diagnostic text
// ----------------------------------------------------------------------------

/// The number of leading characters of `s` before its first whitespace.
pub open spec fn token_length(s: Seq<char>) -> nat
    decreases s.len(),
{
    if s.len() == 0 || is_ws(s[0]) {
        0
    } else {
        1 + token_length(s.drop_first())
    }
}

/// `s` with the token after each `bearer ` (in any ASCII case) replaced by
/// `[redacted]`.
pub open spec fn redact_bearer(s: Seq<char>) -> Seq<char>
    decreases s.len(),
{
    if !contains_seq(lower_seq(s), "bearer "@) {
        s
    } else {
        let start = find_position(lower_seq(s), "bearer "@) + 7;
        if start < 7 || start > s.len() {
            s
        } else {
            let rest = s.skip(start);
            proof {
                lemma_token_length_bound(rest);
            }
            s.take(start) + "[redacted]"@ + redact_bearer(rest.skip(token_length(rest) as int))
        }
    }
}

/// At most 512 characters, with `…` marking a cut.
pub open spec fn clip_diagnostic(s: Seq<char>) -> Seq<char> {
    if s.len() > 512 {
        s.take(512).push('…')
    } else {
        s
    }
}

/// A diagnostic detail made safe to show and log: whitespace runs become
/// single spaces, bearer tokens are redacted, and the text is clipped.
pub open spec fn sanitized(detail: Seq<char>) -> Seq<char> {
    clip_diagnostic(redact_bearer(collapse_ws(detail)))
}

/// A token is no longer than the text it starts.
pub proof fn lemma_token_length_bound(s: Seq<char>)
    ensures
        token_length(s) <= s.len(),
        token_length(s) < s.len() ==> is_ws(s[token_length(s) as int]),
        forall|k: int| 0 <= k < token_length(s) ==> !is_ws(#[trigger] s[k]),
    decreases s.len(),
{
    if s.len() > 0 && !is_ws(s[0]) {
        lemma_token_length_bound(s.drop_first());
        assert forall|k: int| 0 <= k < token_length(s) implies !is_ws(#[trigger] s[k]) by {
            if k > 0 {
                assert(s[k] == s.drop_first()[k - 1]);
            }
        }
    }
}

fn token_length_of(s: &Vec<char>, from: usize) -> (result: usize)
    requires
        from <= s.len(),
    ensures
        result as nat == token_length(s@.skip(from as int)),
{
    let ghost t = s@.skip(from as int);
    proof {
        lemma_token_length_bound(t);
    }
    let mut i: usize = from;
    while i < s.len() && !is_whitespace(s[i])
        invariant
            from <= i <= s.len(),
            t == s@.skip(from as int),
            token_length(t) <= t.len(),
            token_length(t) < t.len() ==> is_ws(t[token_length(t) as int]),
            forall|k: int| 0 <= k < token_length(t) ==> !is_ws(#[trigger] t[k]),
            i - from <= token_length(t),
        decreases s.len() - i,
    {
        assert(t[i - from] == s@[i as int]);
        i = i + 1;
    }
    proof {
        if i < s.len() {
            assert(t[i - from] == s@[i as int]);
        }
    }
    i - from
}

/// Redacts bearer tokens in `s`.
fn redact_bearer_tokens(s: &Vec<char>) -> (result: Vec<char>)
    ensures
        result@ == redact_bearer(s@),
{
    let marker = to_chars("bearer ");
    proof {
        reveal_strlit("bearer ");
    }
    let mut safe: Vec<char> = Vec::new();
    let mut rem: Vec<char> = slice_chars(s, 0, s.len());
    assert(rem@ =~= s@);
    assert(safe@ + redact_bearer(rem@) =~= redact_bearer(s@));
    loop
        invariant
            marker@ == "bearer "@,
            marker@.len() == 7,
            safe@ + redact_bearer(rem@) == redact_bearer(s@),
        decreases rem.len(),
    {
        let lower = lower_chars(&rem);
        match position_of(&lower, &marker) {
            None => {
                let ghost before = safe@;
                push_all(&mut safe, &rem);
                assert(safe@ =~= before + redact_bearer(rem@));
                return safe;
            },
            Some(offset) => {
                let ghost before = safe@;
                let ghost r = rem@;
                assert(offset + 7 <= lower@.len());
                let start = offset + 7;
                let head = slice_chars(&rem, 0, start);
                push_all(&mut safe, &head);
                push_str(&mut safe, "[redacted]");
                let tl = token_length_of(&rem, start);
                proof {
                    lemma_token_length_bound(rem@.skip(start as int));
                }
                let next = slice_chars(&rem, start + tl, rem.len());
                assert(next@ =~= r.skip(start as int).skip(tl as int));
                assert(head@ =~= r.take(start as int));
                assert(contains_seq(lower_seq(r), "bearer "@));
                assert(redact_bearer(r) == r.take(start as int) + "[redacted]"@ + redact_bearer(
                    next@,
                ));
                assert(safe@ + redact_bearer(next@) =~= before + redact_bearer(r));
                rem = next;
            },
        }
    }
}

/// Makes a diagnostic detail safe to show.
pub fn sanitize_diagnostic(detail: &str) -> (result: String)
    ensures
        result@ == sanitized(detail@),
{
    let chars = to_chars(detail);
    let collapsed = collapse_whitespace(&chars);
    let safe = redact_bearer_tokens(&collapsed);
    if safe.len() > 512 {
        let mut clipped = slice_chars(&safe, 0, 512);
        clipped.push('…');
        from_chars(clipped.as_slice())
    } else {
        from_chars(safe.as_slice())
    }
}

// ----------------------------------------------------------------------------
// HTTP responses and transport failures
// ----------------------------------------------------------------------------

/// The detail of a rate limit: the server's retry delay when it sent one.
pub open spec fn rate_limit_detail(retry_after: Option<Seq<char>>) -> Seq<char> {
    match retry_after {
        Some(v) => if is_blank(v) {
            ". Wait briefly and try again; the configured model or account may have no capacity."@
        } else {
            "; retry after "@ + v + " seconds"@
        },
        None => ". Wait briefly and try again; the configured model or account may have no capacity."@,
    }
}

/// The error for an unsuccessful HTTP status: a rate limit for 429, else
/// the status alone.
pub fn response_error(status: u16, retry_after: Option<&str>) -> (result: ProviderError)
    ensures
        status == 429 ==> (result matches ProviderError::RateLimited(d) && d@ == rate_limit_detail(
            match retry_after {
                Some(v) => Some(v@),
                None => None,
            },
        )),
        status != 429 ==> (result matches ProviderError::HttpStatus { status: s } && s == status),
{
    if status == 429 {
        let mut out: Vec<char> = Vec::new();
        let mut given = false;
        match retry_after {
            Some(v) => {
                if !str_blank(v) {
                    push_str(&mut out, "; retry after ");
                    push_str(&mut out, v);
                    push_str(&mut out, " seconds");
                    given = true;
                }
            },
            None => {},
        }
        if !given {
            push_str(
                &mut out,
                ". Wait briefly and try again; the configured model or account may have no capacity.",
            );
        }
        ProviderError::RateLimited(from_chars(out.as_slice()))
    } else {
        ProviderError::HttpStatus { status }
    }
}

/// What the HTTP transport reported instead of a response.
#[derive(Debug)]
pub enum TransportFailure {
    Status(u16),
    HostNotFound,
    Timeout(String),
    Tls(String),
    Proxy(String),
    ConnectionFailed,
    Io { kind: String, detail: String },
    Protocol(String),
    Redirect(String),
    Other(String),
}

/// `CamelCase` as `snake_case`: an underscore before each ASCII capital
/// but the first character, and ASCII letters lowered.
pub open spec fn snake_case(name: Seq<char>) -> Seq<char>
    decreases name.len(),
{
    if name.len() == 0 {
        name
    } else {
        let prev = snake_case(name.drop_last());
        let c = name.last();
        if name.len() > 1 && 'A' <= c && c <= 'Z' {
            prev.push('_').push(crate::text::ascii_lower(c))
        } else {
            prev.push(crate::text::ascii_lower(c))
        }
    }
}

/// The name of an I/O error kind (its `Debug` text) in snake case.
pub fn normalized_error_kind(kind: &str) -> (result: String)
    ensures
        result@ == snake_case(kind@),
{
    let name = to_chars(kind);
    let mut out: Vec<char> = Vec::new();
    let mut i: usize = 0;
    while i < name.len()
        invariant
            i <= name.len(),
            out@ == snake_case(name@.take(i as int)),
        decreases name.len() - i,
    {
        assert(name@.take(i + 1).drop_last() =~= name@.take(i as int));
        let c = name[i];
        if i > 0 && 'A' <= c && c <= 'Z' {
            out.push('_');
        }
        out.push(to_ascii_lower(c));
        i = i + 1;
    }
    assert(name@.take(i as int) =~= name@);
    from_chars(out.as_slice())
}

/// The diagnostic for an I/O failure at `stage`.
pub fn io_error(stage: &str, kind: &str, detail: &str) -> (result: ProviderError)
    ensures
        result matches ProviderError::Diagnostic { stage: s, category: c, detail: d } && s@
            == stage@ && c@ == "io"@ && d@ == sanitized("kind="@ + snake_case(kind@) + " detail="@
            + detail@),
{
    let k = normalized_error_kind(kind);
    let mut out: Vec<char> = Vec::new();
    push_str(&mut out, "kind=");
    push_str(&mut out, k.as_str());
    push_str(&mut out, " detail=");
    push_str(&mut out, detail);
    let text = from_chars(out.as_slice());
    ProviderError::diagnostic(stage, "io", text.as_str())
}

/// The error for a failed request, classified by what the transport
/// reported.
pub fn request_error(failure: &TransportFailure) -> (result: ProviderError)
    ensures
        match *failure {
            TransportFailure::Status(status) => status == 429 ==> result is RateLimited,
            TransportFailure::HostNotFound => result matches ProviderError::Diagnostic {
                stage,
                category,
                detail,
            } && stage@ == "request"@ && category@ == "dns"@ && detail@ == sanitized(
                "host not found"@,
            ),
            TransportFailure::Timeout(d) => result matches ProviderError::Diagnostic {
                stage,
                category,
                detail,
            } && stage@ == "request"@ && category@ == "timeout"@ && detail@ == sanitized(d@),
            TransportFailure::Tls(d) => result matches ProviderError::Diagnostic {
                stage,
                category,
                detail,
            } && stage@ == "request"@ && category@ == "tls"@ && detail@ == sanitized(d@),
            TransportFailure::Proxy(d) => result matches ProviderError::Diagnostic {
                stage,
                category,
                detail,
            } && stage@ == "request"@ && category@ == "proxy"@ && detail@ == sanitized(d@),
            TransportFailure::ConnectionFailed => result matches ProviderError::Diagnostic {
                stage,
                category,
                detail,
            } && stage@ == "request"@ && category@ == "connection"@ && detail@ == sanitized(
                "connection failed"@,
            ),
            TransportFailure::Io { kind, detail: d } => result matches ProviderError::Diagnostic {
                stage,
                category,
                detail,
            } && stage@ == "request"@ && category@ == "io"@ && detail@ == sanitized(
                "kind="@ + snake_case(kind@) + " detail="@ + d@,
            ),
            TransportFailure::Protocol(d) => result matches ProviderError::Diagnostic {
                stage,
                category,
                detail,
            } && stage@ == "request"@ && category@ == "protocol"@ && detail@ == sanitized(d@),
            TransportFailure::Redirect(d) => result matches ProviderError::Diagnostic {
                stage,
                category,
                detail,
            } && stage@ == "request"@ && category@ == "redirect"@ && detail@ == sanitized(d@),
            TransportFailure::Other(d) => result matches ProviderError::Diagnostic {
                stage,
                category,
                detail,
            } && stage@ == "request"@ && category@ == "transport"@ && detail@ == sanitized(d@),
        },
        match *failure {
            TransportFailure::Status(status) => status != 429 ==> (
            result matches ProviderError::HttpStatus { status: s } && s == status),
            _ => true,
        },
{
    match failure {
        TransportFailure::Status(status) => response_error(*status, None),
        TransportFailure::HostNotFound => ProviderError::diagnostic("request", "dns", "host not found"),
        TransportFailure::Timeout(d) => ProviderError::diagnostic("request", "timeout", d.as_str()),
        TransportFailure::Tls(d) => ProviderError::diagnostic("request", "tls", d.as_str()),
        TransportFailure::Proxy(d) => ProviderError::diagnostic("request", "proxy", d.as_str()),
        TransportFailure::ConnectionFailed => ProviderError::diagnostic(
            "request",
            "connection",
            "connection failed",
        ),
        TransportFailure::Io { kind, detail } => io_error("request", kind.as_str(), detail.as_str()),
        TransportFailure::Protocol(d) => ProviderError::diagnostic("request", "protocol", d.as_str()),
        TransportFailure::Redirect(d) => ProviderError::diagnostic("request", "redirect", d.as_str()),
        TransportFailure::Other(d) => ProviderError::diagnostic("request", "transport", d.as_str()),
    }
}

// ----------------------------------------------------------------------------
// The provider
// ----------------------------------------------------------------------------

/// An OpenAI-compatible chat-completions provider: the endpoint is used as
/// configured, with no path appended.
#[derive(Debug)]
pub struct OpenAiCompatibleProvider {
    endpoint: String,
    model: String,
}

impl OpenAiCompatibleProvider {
    /// The configured endpoint, in specifications.
    pub closed spec fn endpoint_view(&self) -> Seq<char> {
        self.endpoint@
    }

    /// The configured model, in specifications.
    pub closed spec fn model_view(&self) -> Seq<char> {
        self.model@
    }

    /// A provider for `endpoint` and `model`.
    pub fn new(endpoint: String, model: String) -> (result: Self)
        ensures
            result.endpoint_view() == endpoint@,
            result.model_view() == model@,
    {
        OpenAiCompatibleProvider { endpoint, model }
    }

    /// The URL requests are sent to: the configured endpoint itself.
    pub fn request_endpoint(&self) -> (result: &str)
        ensures
            result@ == self.endpoint_view(),
    {
        self.endpoint.as_str()
    }

    /// The model requests name.
    pub fn model(&self) -> (result: &str)
        ensures
            result@ == self.model_view(),
    {
        self.model.as_str()
    }
}

} // verus!
