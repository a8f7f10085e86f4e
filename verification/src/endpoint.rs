//! Parsed endpoint URLs, as the `url` crate parses them.

use vstd::prelude::*;

verus! {

/// The components of a parsed absolute URL, as plain values.
pub struct UrlParts {
    pub serialization: String,
    pub scheme: String,
    pub host: Option<String>,
    pub path: String,
    pub username: String,
    pub password: Option<String>,
    pub query: Option<String>,
    pub fragment: Option<String>,
}

/// The components of a parsed URL, in specifications.
pub struct UrlView {
    pub serialization: Seq<char>,
    pub scheme: Seq<char>,
    pub host: Option<Seq<char>>,
    pub path: Seq<char>,
    pub username: Seq<char>,
    pub password: Option<Seq<char>>,
    pub query: Option<Seq<char>>,
    pub fragment: Option<Seq<char>>,
}

/// The characters of an optional string.
pub open spec fn opt_view(s: Option<String>) -> Option<Seq<char>> {
    match s {
        Some(v) => Some(v@),
        None => None,
    }
}

impl View for UrlParts {
    type V = UrlView;

    open spec fn view(&self) -> UrlView {
        UrlView {
            serialization: self.serialization@,
            scheme: self.scheme@,
            host: opt_view(self.host),
            path: self.path@,
            username: self.username@,
            password: opt_view(self.password),
            query: opt_view(self.query),
            fragment: opt_view(self.fragment),
        }
    }
}

/// What `url::Url::parse` yields for `text`: `None` where it reports an
/// error, else the components of the URL it builds.
pub uninterp spec fn parsed_url(text: Seq<char>) -> Option<UrlView>;

/// The view of an optional parse result.
pub open spec fn parts_view(parts: Option<UrlParts>) -> Option<UrlView> {
    match parts {
        Some(p) => Some(p@),
        None => None,
    }
}

/// Calls `url::Url::parse` and copies out the serialization (`as_str`),
/// `scheme`, `host_str`, `path`, `username`, `password`, `query` and
/// `fragment`. The contract claims only that the result is the function
/// [`parsed_url`] of the input: parsing is deterministic and depends on the
/// text alone. What the WHATWG parser does is not restated here.
#[verifier::external_body]
pub fn parse_url(text: &str) -> (result: Option<UrlParts>)
    ensures
        parts_view(result) == parsed_url(text@),
{
    match url::Url::parse(text) {
        Ok(u) => Some(UrlParts {
            serialization: u.as_str().to_owned(),
            scheme: u.scheme().to_owned(),
            host: u.host_str().map(str::to_owned),
            path: u.path().to_owned(),
            username: u.username().to_owned(),
            password: u.password().map(str::to_owned),
            query: u.query().map(str::to_owned),
            fragment: u.fragment().map(str::to_owned),
        }),
        Err(_) => None,
    }
}

} // verus!
