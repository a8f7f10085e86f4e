//! The lines of Roven's append-only runtime log: a Markdown header and one
//! list item per record, with no value able to break out of its line.
//!
//! The caller finds the log file, reads the clock and appends the text.

use vstd::prelude::*;
use crate::text::{decimal, decimal_chars, from_chars, push_all, push_str, to_chars};

verus! {

/// The header written at the top of an empty log.
pub open spec fn log_header_text() -> Seq<char> {
    "# Roven runtime log\n\n"@
}

/// The header written at the top of an empty log.
pub fn log_header() -> (result: &'static str)
    ensures
        result@ == log_header_text(),
{
    "# Roven runtime log\n\n"
}

/// Whether the header is written before the first record: only when the
/// file is missing or empty.
pub fn needs_header(existing_len: Option<u64>) -> (result: bool)
    ensures
        result == match existing_len {
            Some(len) => len == 0,
            None => true,
        },
{
    match existing_len {
        Some(len) => len == 0,
        None => true,
    }
}

/// A character as it is written into a record: line breaks and tabs become
/// spaces, and backticks become apostrophes.
pub open spec fn sanitized_char(c: char) -> char {
    if c == '\n' || c == '\r' || c == '\t' {
        ' '
    } else if c == '`' {
        '\''
    } else {
        c
    }
}

/// A value as it is written into a record.
pub open spec fn sanitized(s: Seq<char>) -> Seq<char> {
    s.map_values(|c: char| sanitized_char(c))
}

/// Writes a value so that it stays on its line and inside its code span.
pub fn sanitize(value: &str) -> (result: String)
    ensures
        result@ == sanitized(value@),
{
    let chars = to_chars(value);
    let mut out: Vec<char> = Vec::new();
    let mut i: usize = 0;
    while i < chars.len()
        invariant
            i <= chars.len(),
            chars@ == value@,
            out@ =~= sanitized(chars@.take(i as int)),
        decreases chars.len() - i,
    {
        let c = chars[i];
        let d = if c == '\n' || c == '\r' || c == '\t' {
            ' '
        } else if c == '`' {
            '\''
        } else {
            c
        };
        out.push(d);
        proof {
            assert(chars@.take(i + 1) =~= chars@.take(i as int).push(c));
        }
        i = i + 1;
    }
    proof {
        assert(chars@.take(i as int) =~= chars@);
    }
    from_chars(out.as_slice())
}

/// One record of the log.
pub open spec fn record_line(timestamp_ms: nat, component: Seq<char>, event: Seq<char>, detail: Seq<char>) -> Seq<char> {
    "- `timestamp_ms="@ + decimal(timestamp_ms) + "` `component="@ + sanitized(component)
        + "` `event="@ + sanitized(event) + "` "@ + sanitized(detail) + "\n"@
}

/// No sanitized value holds a line break or a backtick.
pub proof fn lemma_sanitized_is_inline(s: Seq<char>)
    ensures
        forall|i: int| 0 <= i < sanitized(s).len() ==> #[trigger] sanitized(s)[i] != '\n' && sanitized(s)[i] != '\r' && sanitized(s)[i] != '`',
{
}

/// Formats one record of operational metadata.
pub fn log_record(timestamp_ms: u64, component: &str, event: &str, detail: &str) -> (result: String)
    ensures
        result@ == record_line(timestamp_ms as nat, component@, event@, detail@),
        result@.len() > 0,
        result@.last() == '\n',
        forall|i: int| 0 <= i < result@.len() - 1 ==> #[trigger] result@[i] != '\n',
{
    let mut out: Vec<char> = Vec::new();
    push_str(&mut out, "- `timestamp_ms=");
    let digits = decimal_chars(timestamp_ms);
    push_all(&mut out, &digits);
    push_str(&mut out, "` `component=");
    let c = sanitize(component);
    push_str(&mut out, c.as_str());
    push_str(&mut out, "` `event=");
    let e = sanitize(event);
    push_str(&mut out, e.as_str());
    push_str(&mut out, "` ");
    let d = sanitize(detail);
    push_str(&mut out, d.as_str());
    push_str(&mut out, "\n");
    proof {
        reveal_strlit("- `timestamp_ms=");
        reveal_strlit("` `component=");
        reveal_strlit("` `event=");
        reveal_strlit("` ");
        reveal_strlit("\n");
        lemma_sanitized_is_inline(component@);
        lemma_sanitized_is_inline(event@);
        lemma_sanitized_is_inline(detail@);
        crate::text::lemma_decimal_digits(timestamp_ms as nat);
        let body = "- `timestamp_ms="@ + decimal(timestamp_ms as nat) + "` `component="@ + sanitized(component@)
            + "` `event="@ + sanitized(event@) + "` "@ + sanitized(detail@);
        assert(out@ =~= body + "\n"@);
    }
    from_chars(out.as_slice())
}

} // verus!
