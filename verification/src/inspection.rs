//! The evidence bundle of an approved first inspection: small, redacted
//! excerpts of the repository's files beside its structural map.
//!
//! The caller reads the files; what is kept of each, and how much in all,
//! is decided here.

use vstd::prelude::*;
use crate::code_map::{CodeMap, CodeMapError};
use crate::git::WorkingTreeStatus;
use crate::inventory::Language;
use crate::text::{
    contains, contains_seq, find_char, from_chars, lower_chars, lower_seq, push_all, push_str,
    slice_chars, split_chars, split_on, strs, to_chars, views, contains_string,
};

verus! {

broadcast use vstd::string::group_string_axioms;

/// Whether an excerpt shows committed content or work in progress.
#[derive(Debug, Clone, Copy, PartialEq, Eq, Structural)]
pub enum EvidenceState {
    Committed,
    InProgress,
}

/// One excerpt of a repository file.
#[derive(Debug)]
pub struct EvidenceFile {
    pub path: String,
    pub state: EvidenceState,
    pub content: String,
    pub redacted: bool,
}

/// What an approved first inspection hands on.
#[derive(Debug)]
pub struct EvidenceBundle {
    pub schema_version: u8,
    pub project_id: String,
    pub initial_inspection: bool,
    pub files: Vec<EvidenceFile>,
    pub code_map: CodeMap,
}

/// Why a bundle could not be built.
#[derive(Debug)]
pub enum InspectionError {
    CodeMap(CodeMapError),
}

// ----------------------------------------------------------------------------
// Byte budgets
// ----------------------------------------------------------------------------

/// The number of bytes UTF-8 takes for `c`.
pub open spec fn utf8_len(c: char) -> nat {
    if (c as int) < 0x80 {
        1
    } else if (c as int) < 0x800 {
        2
    } else if (c as int) < 0x10000 {
        3
    } else {
        4
    }
}

/// The number of bytes UTF-8 takes for `s`.
pub open spec fn byte_len(s: Seq<char>) -> nat
    decreases s.len(),
{
    if s.len() == 0 {
        0
    } else {
        byte_len(s.drop_last()) + utf8_len(s.last())
    }
}

/// The bytes UTF-8 takes for `c`.
pub fn char_utf8_len(c: char) -> (result: usize)
    ensures
        result as nat == utf8_len(c),
{
    if c <= '\x7f' {
        1
    } else if 'ࠀ' > c {
        2
    } else if '𐀀' > c {
        3
    } else {
        4
    }
}

/// The UTF-8 length of `s`, saturating at `usize::MAX`.
pub fn utf8_byte_len(s: &Vec<char>) -> (result: usize)
    ensures
        byte_len(s@) <= usize::MAX ==> result as nat == byte_len(s@),
        byte_len(s@) > usize::MAX ==> result == usize::MAX,
{
    let mut total: usize = 0;
    let mut i: usize = 0;
    while i < s.len()
        invariant
            i <= s.len(),
            byte_len(s@.take(i as int)) <= usize::MAX ==> total as nat == byte_len(s@.take(i as int)),
            byte_len(s@.take(i as int)) > usize::MAX ==> total == usize::MAX,
        decreases s.len() - i,
    {
        assert(s@.take(i + 1).drop_last() =~= s@.take(i as int));
        let n = char_utf8_len(s[i]);
        total = total.saturating_add(n);
        i = i + 1;
    }
    assert(s@.take(i as int) =~= s@);
    total
}

/// The number of leading characters of `s` that fit in `limit` bytes.
pub open spec fn fitting(s: Seq<char>, limit: nat) -> nat
    decreases s.len(),
{
    if s.len() == 0 || utf8_len(s[0]) > limit {
        0
    } else {
        1 + fitting(s.drop_first(), (limit - utf8_len(s[0])) as nat)
    }
}

/// The longest prefix of `s` that fits in `limit` UTF-8 bytes, cut at a
/// character boundary.
pub open spec fn truncated(s: Seq<char>, limit: nat) -> Seq<char> {
    s.take(fitting(s, limit) as int)
}

proof fn lemma_fitting_step(s: Seq<char>, i: int, limit: nat, used: nat)
    requires
        0 <= i < s.len(),
        used + utf8_len(s[i]) <= limit,
        fitting(s, limit) == i + fitting(s.skip(i), (limit - used) as nat),
    ensures
        fitting(s, limit) == i + 1 + fitting(s.skip(i + 1), (limit - used - utf8_len(s[i])) as nat),
{
    assert(s.skip(i)[0] == s[i]);
    assert(s.skip(i).drop_first() =~= s.skip(i + 1));
}

/// The longest prefix of `value` within `limit` bytes.
pub fn truncate_to_byte_limit(value: &str, limit: usize) -> (result: String)
    ensures
        result@ == truncated(value@, limit as nat),
{
    let chars = to_chars(value);
    let mut used: usize = 0;
    let mut i: usize = 0;
    assert(chars@.skip(0) =~= chars@);
    while i < chars.len() && char_utf8_len(chars[i]) <= limit - used
        invariant
            i <= chars.len(),
            used <= limit,
            chars@ == value@,
            fitting(value@, limit as nat) == i + fitting(chars@.skip(i as int), (limit - used) as nat),
        decreases chars.len() - i,
    {
        let n = char_utf8_len(chars[i]);
        proof {
            lemma_fitting_step(chars@, i as int, limit as nat, used as nat);
        }
        used = used + n;
        i = i + 1;
    }
    proof {
        if i == chars.len() {
            assert(chars@.skip(i as int).len() == 0);
        } else {
            assert(chars@.skip(i as int)[0] == chars@[i as int]);
        }
    }
    let r = slice_chars(&chars, 0, i);
    assert(r@ =~= value@.take(i as int));
    from_chars(r.as_slice())
}

// ----------------------------------------------------------------------------
// Redaction of likely secrets
// ----------------------------------------------------------------------------

/// std's `str::split_inclusive('\n')`: the lines with their `\n`, and a
/// last line without one when the text does not end in `\n`.
pub open spec fn inclusive_lines(s: Seq<char>) -> Seq<Seq<char>> {
    let parts = split_on(s, '\n');
    let init = parts.drop_last().map_values(|p: Seq<char>| p.push('\n'));
    if parts.last().len() == 0 {
        init
    } else {
        init.push(parts.last())
    }
}

/// The words that mark a line as holding a secret.
pub open spec fn secret_markers() -> Seq<Seq<char>> {
    seq!["api_key"@, "api_token"@, "password"@, "secret"@, "token"@, "authorization"@]
}

/// Whether the lower-cased line names a secret.
pub open spec fn looks_sensitive(line: Seq<char>) -> bool {
    exists|i: int|
        0 <= i < secret_markers().len() && contains_seq(lower_seq(line), #[trigger] secret_markers()[i])
}

/// The first `=` of a line, else its first `:`.
pub open spec fn separator(line: Seq<char>) -> Option<int> {
    if line.contains('=') {
        Some(choose|k: int| 0 <= k < line.len() && line[k] == '=' && forall|j: int| 0 <= j < k ==> line[j] != '=')
    } else if line.contains(':') {
        Some(choose|k: int| 0 <= k < line.len() && line[k] == ':' && forall|j: int| 0 <= j < k ==> line[j] != ':')
    } else {
        None
    }
}

/// A line with a likely secret keeps what comes up to its separator and
/// replaces the rest by ` [REDACTED]` and a line break.
pub open spec fn redact_line(line: Seq<char>) -> Option<Seq<char>> {
    if looks_sensitive(line) {
        match separator(line) {
            Some(k) => Some(line.take(k + 1) + " [REDACTED]\n"@),
            None => None,
        }
    } else {
        None
    }
}

/// The lines after redaction, joined back.
pub open spec fn redacted_text(lines: Seq<Seq<char>>) -> Seq<char>
    decreases lines.len(),
{
    if lines.len() == 0 {
        Seq::<char>::empty()
    } else {
        redacted_text(lines.drop_last()) + match redact_line(lines.last()) {
            Some(r) => r,
            None => lines.last(),
        }
    }
}

/// Whether some line was redacted.
pub open spec fn any_redacted(lines: Seq<Seq<char>>) -> bool {
    exists|i: int| 0 <= i < lines.len() && redact_line(#[trigger] lines[i]) is Some
}

proof fn lemma_first_char(line: Seq<char>, c: char, k: int)
    requires
        0 <= k < line.len(),
        line[k] == c,
        forall|j: int| 0 <= j < k ==> line[j] != c,
    ensures
        (choose|m: int| 0 <= m < line.len() && line[m] == c && forall|j: int| 0 <= j < m ==> line[j] != c) == k,
{
    let m = choose|m: int| 0 <= m < line.len() && line[m] == c && forall|j: int| 0 <= j < m ==> line[j] != c;
    assert(0 <= m < line.len() && line[m] == c && forall|j: int| 0 <= j < m ==> line[j] != c);
    if m < k {
        assert(line[m] != c);
    }
    if k < m {
        assert(line[k] != c);
    }
}

fn line_sensitive(line: &Vec<char>) -> (result: bool)
    ensures
        result == looks_sensitive(line@),
{
    let lower = lower_chars(line);
    let markers: [&str; 6] = ["api_key", "api_token", "password", "secret", "token", "authorization"];
    let mut i: usize = 0;
    while i < 6
        invariant
            i <= 6,
            lower@ == lower_seq(line@),
            markers@.map_values(|m: &str| m@) == secret_markers(),
            forall|j: int| 0 <= j < i ==> !contains_seq(lower_seq(line@), #[trigger] secret_markers()[j]),
        decreases 6 - i,
    {
        let m = to_chars(markers[i]);
        assert(markers@.map_values(|m: &str| m@)[i as int] == markers@[i as int]@);
        if contains(&lower, &m) {
            assert(contains_seq(lower_seq(line@), secret_markers()[i as int]));
            return true;
        }
        i = i + 1;
    }
    false
}

fn redact_one(line: &Vec<char>) -> (result: Option<Vec<char>>)
    ensures
        match result {
            Some(r) => redact_line(line@) == Some(r@),
            None => redact_line(line@) is None,
        },
{
    if !line_sensitive(line) {
        return None;
    }
    let at = match find_char(line, '=') {
        Some(k) => {
            proof {
                lemma_first_char(line@, '=', k as int);
                assert(line@.contains('='));
            }
            k
        },
        None => match find_char(line, ':') {
            Some(k) => {
                proof {
                    lemma_first_char(line@, ':', k as int);
                    assert(line@.contains(':'));
                }
                k
            },
            None => {
                return None;
            },
        },
    };
    let mut r = slice_chars(line, 0, at + 1);
    assert(r@ =~= line@.take(at + 1));
    push_str(&mut r, " [REDACTED]\n");
    Some(r)
}

/// Replaces the rest of each line that looks like it holds a secret, and
/// says whether any line was.
pub fn redact_suspected_secrets(content: &str) -> (result: (String, bool))
    ensures
        result.0@ == redacted_text(inclusive_lines(content@)),
        result.1 == any_redacted(inclusive_lines(content@)),
{
    let chars = to_chars(content);
    let parts = split_chars(&chars, '\n');
    let ghost ls = inclusive_lines(content@);
    let n = parts.len();
    let mut lines: Vec<Vec<char>> = Vec::new();
    let mut i: usize = 0;
    while i + 1 < n
        invariant
            n == parts.len(),
            n >= 1,
            i + 1 <= n,
            views(parts@) == split_on(content@, '\n'),
            views(lines@) =~= views(parts@).take(i as int).map_values(|p: Seq<char>| p.push('\n')),
        decreases n - i,
    {
        let mut l = slice_chars(&parts[i], 0, parts[i].len());
        assert(l@ =~= parts@[i as int]@);
        l.push('\n');
        let ghost before = lines@;
        lines.push(l);
        assert(views(lines@) =~= views(before).push(parts@[i as int]@.push('\n')));
        assert(views(parts@).take(i + 1) =~= views(parts@).take(i as int).push(parts@[i as int]@));
        i = i + 1;
    }
    assert(views(parts@).take(i as int) =~= views(parts@).drop_last());
    assert(views(parts@).last() == parts@[n - 1]@);
    if parts[n - 1].len() > 0 {
        let ghost before = lines@;
        lines.push(slice_chars(&parts[n - 1], 0, parts[n - 1].len()));
        assert(parts@[n - 1]@.subrange(0, parts@[n - 1]@.len() as int) =~= parts@[n - 1]@);
        assert(views(lines@) =~= views(before).push(parts@[n - 1]@));
    }
    assert(views(lines@) == ls);
    let mut out: Vec<char> = Vec::new();
    let mut redacted = false;
    let mut k: usize = 0;
    while k < lines.len()
        invariant
            k <= lines.len(),
            views(lines@) == ls,
            out@ == redacted_text(ls.take(k as int)),
            redacted == any_redacted(ls.take(k as int)),
        decreases lines.len() - k,
    {
        assert(ls.take(k + 1).drop_last() =~= ls.take(k as int));
        assert(ls.take(k + 1).last() == lines@[k as int]@);
        match redact_one(&lines[k]) {
            Some(r) => {
                crate::text::push_all(&mut out, &r);
                redacted = true;
                assert(redact_line(ls.take(k + 1)[k as int]) is Some);
            },
            None => {
                crate::text::push_all(&mut out, &lines[k]);
                proof {
                    if any_redacted(ls.take(k + 1)) {
                        let j = choose|j: int|
                            0 <= j < ls.take(k + 1).len() && redact_line(#[trigger] ls.take(k + 1)[j]) is Some;
                        assert(ls.take(k as int)[j] == ls.take(k + 1)[j]);
                    }
                }
            },
        }
        proof {
            if any_redacted(ls.take(k as int)) {
                let j = choose|j: int|
                    0 <= j < ls.take(k as int).len() && redact_line(#[trigger] ls.take(k as int)[j]) is Some;
                assert(ls.take(k + 1)[j] == ls.take(k as int)[j]);
            }
        }
        k = k + 1;
    }
    assert(ls.take(k as int) =~= ls);
    (from_chars(out.as_slice()), redacted)
}

// ----------------------------------------------------------------------------
// The bundle
// ----------------------------------------------------------------------------

/// Whether the working tree reports `path` as changed in any way.
pub open spec fn changed(status: WorkingTreeStatus, path: Seq<char>) -> bool {
    strs(status.added_paths@).contains(path) || strs(status.modified_paths@).contains(path)
        || strs(status.untracked_paths@).contains(path) || strs(status.staged_paths@).contains(
        path,
    ) || strs(status.unstaged_paths@).contains(path) || strs(status.deleted_paths@).contains(path)
}

/// Whether `path` is changed in the working tree.
pub fn is_changed(status: &WorkingTreeStatus, path: &String) -> (result: bool)
    ensures
        result == changed(*status, path@),
{
    contains_string(&status.added_paths, path) || contains_string(&status.modified_paths, path)
        || contains_string(&status.untracked_paths, path) || contains_string(
        &status.staged_paths,
        path,
    ) || contains_string(&status.unstaged_paths, path) || contains_string(
        &status.deleted_paths,
        path,
    )
}

/// The content of an excerpt.
pub struct EvidenceView {
    pub path: Seq<char>,
    pub state: EvidenceState,
    pub content: Seq<char>,
    pub redacted: bool,
}

impl View for EvidenceFile {
    type V = EvidenceView;

    open spec fn view(&self) -> EvidenceView {
        EvidenceView {
            path: self.path@,
            state: self.state,
            content: self.content@,
            redacted: self.redacted,
        }
    }
}

/// The bundle budget: 64 KiB in all.
pub open spec fn bundle_budget() -> nat {
    65536
}

/// The excerpts of the first `n` files and the bytes left: each readable
/// file of a known kind, while bytes are left, is cut to the smaller of
/// 8 KiB and what is left, then redacted; what it takes is subtracted.
pub open spec fn excerpts(
    files: Seq<crate::inventory::InventoryFile>,
    contents: Seq<Option<String>>,
    status: WorkingTreeStatus,
    n: int,
) -> (Seq<EvidenceView>, nat)
    decreases n,
{
    if n <= 0 {
        (Seq::<EvidenceView>::empty(), bundle_budget())
    } else {
        let (prev, remaining) = excerpts(files, contents, status, n - 1);
        let f = files[n - 1];
        if f.language == Language::Unsupported || remaining == 0 {
            (prev, remaining)
        } else {
            match contents[n - 1] {
                None => (prev, remaining),
                Some(text) => {
                    let limit = if remaining < 8192 {
                        remaining
                    } else {
                        8192
                    };
                    let cut = truncated(text@, limit);
                    let lines = inclusive_lines(cut);
                    let content = redacted_text(lines);
                    let left = if byte_len(content) >= remaining {
                        0
                    } else {
                        (remaining - byte_len(content)) as nat
                    };
                    (
                        prev.push(
                            EvidenceView {
                                path: f.path@,
                                state: if changed(status, f.path@) {
                                    EvidenceState::InProgress
                                } else {
                                    EvidenceState::Committed
                                },
                                content,
                                redacted: any_redacted(lines),
                            },
                        ),
                        left,
                    )
                },
            }
        }
    }
}

/// The views of a list of excerpts.
pub open spec fn evidence_views(v: Seq<EvidenceFile>) -> Seq<EvidenceView> {
    v.map_values(|e: EvidenceFile| e@)
}

/// Builds the first-inspection bundle of `project_id` from its map and the
/// text read of each mapped file (`contents[i]` for `code_map.files[i]`,
/// none when it could not be read).
pub fn assemble_bundle(
    project_id: &str,
    code_map: CodeMap,
    status: &WorkingTreeStatus,
    contents: &Vec<Option<String>>,
) -> (result: EvidenceBundle)
    requires
        contents.len() == code_map.files.len(),
    ensures
        result.schema_version == 1,
        result.project_id@ == project_id@,
        result.initial_inspection,
        evidence_views(result.files@) == excerpts(
            code_map.files@,
            contents@,
            *status,
            code_map.files.len() as int,
        ).0,
        result.code_map == code_map,
{
    let mut files: Vec<EvidenceFile> = Vec::new();
    let mut remaining: usize = 65536;
    let mut i: usize = 0;
    while i < code_map.files.len()
        invariant
            i <= code_map.files.len(),
            contents.len() == code_map.files.len(),
            evidence_views(files@) == excerpts(code_map.files@, contents@, *status, i as int).0,
            remaining as nat == excerpts(code_map.files@, contents@, *status, i as int).1,
        decreases code_map.files.len() - i,
    {
        let file = &code_map.files[i];
        let unsupported = match file.language {
            Language::Unsupported => true,
            _ => false,
        };
        if !unsupported && remaining != 0 {
            match &contents[i] {
                None => {},
                Some(text) => {
                    let limit: usize = if remaining < 8192 {
                        remaining
                    } else {
                        8192
                    };
                    let cut = truncate_to_byte_limit(text.as_str(), limit);
                    let (content, redacted) = redact_suspected_secrets(cut.as_str());
                    let cc = to_chars(content.as_str());
                    let used = utf8_byte_len(&cc);
                    let state = if is_changed(status, &file.path) {
                        EvidenceState::InProgress
                    } else {
                        EvidenceState::Committed
                    };
                    let ghost before = files@;
                    files.push(
                        EvidenceFile { path: file.path.clone(), state, content, redacted },
                    );
                    assert(evidence_views(files@) =~= evidence_views(before).push(files@.last()@));
                    remaining = remaining.saturating_sub(used);
                },
            }
        }
        i = i + 1;
    }
    EvidenceBundle {
        schema_version: 1,
        project_id: crate::text::owned(project_id),
        initial_inspection: true,
        files,
        code_map,
    }
}

/// A path counts as changed exactly when the working tree lists it among
/// the added, modified, untracked, staged, unstaged or deleted paths; the
/// committed and conflicted lists alone do not make it changed.  So an
/// excerpt of a listed path is in progress, and of any other committed.
pub proof fn law_changed_paths_are_the_working_tree_changes(status: WorkingTreeStatus, path: Seq<char>)
    ensures
        changed(status, path) <==> (exists|k: int|
            0 <= k < status.added_paths@.len() && #[trigger] status.added_paths@[k]@ == path)
            || (exists|k: int|
            0 <= k < status.modified_paths@.len() && #[trigger] status.modified_paths@[k]@ == path)
            || (exists|k: int|
            0 <= k < status.untracked_paths@.len() && #[trigger] status.untracked_paths@[k]@ == path)
            || (exists|k: int|
            0 <= k < status.staged_paths@.len() && #[trigger] status.staged_paths@[k]@ == path)
            || (exists|k: int|
            0 <= k < status.unstaged_paths@.len() && #[trigger] status.unstaged_paths@[k]@ == path)
            || (exists|k: int|
            0 <= k < status.deleted_paths@.len() && #[trigger] status.deleted_paths@[k]@ == path),
{
    lemma_listed(status.added_paths@, path);
    lemma_listed(status.modified_paths@, path);
    lemma_listed(status.untracked_paths@, path);
    lemma_listed(status.staged_paths@, path);
    lemma_listed(status.unstaged_paths@, path);
    lemma_listed(status.deleted_paths@, path);
}

proof fn lemma_listed(paths: Seq<String>, path: Seq<char>)
    ensures
        strs(paths).contains(path) <==> exists|k: int| 0 <= k < paths.len() && #[trigger] paths[k]@ == path,
{
    if strs(paths).contains(path) {
        let k = choose|k: int| 0 <= k < strs(paths).len() && strs(paths)[k] == path;
        assert(paths[k]@ == path);
    }
    if exists|k: int| 0 <= k < paths.len() && #[trigger] paths[k]@ == path {
        let k = choose|k: int| 0 <= k < paths.len() && #[trigger] paths[k]@ == path;
        assert(strs(paths)[k] == path);
    }
}

/// Every excerpt of the bundle is marked in progress exactly when its path
/// is changed in the working tree, and committed otherwise.
pub proof fn law_excerpt_state_follows_the_working_tree(
    files: Seq<crate::inventory::InventoryFile>,
    contents: Seq<Option<String>>,
    status: WorkingTreeStatus,
    n: int,
)
    ensures
        forall|k: int|
            0 <= k < excerpts(files, contents, status, n).0.len() ==> (#[trigger] excerpts(
                files,
                contents,
                status,
                n,
            ).0[k]).state == if changed(status, excerpts(files, contents, status, n).0[k].path) {
                EvidenceState::InProgress
            } else {
                EvidenceState::Committed
            },
    decreases n,
{
    if n > 0 {
        law_excerpt_state_follows_the_working_tree(files, contents, status, n - 1);
        let prev = excerpts(files, contents, status, n - 1).0;
        let cur = excerpts(files, contents, status, n).0;
        assert forall|k: int| 0 <= k < cur.len() implies (#[trigger] cur[k]).state == if changed(status, cur[k].path) {
            EvidenceState::InProgress
        } else {
            EvidenceState::Committed
        } by {
            if k < prev.len() {
                assert(cur[k] == prev[k]);
            }
        }
    }
}

} // verus!
