//! The rules of Roven's local storage: which project records are valid,
//! how projects are identified, how sessions are titled and ordered.
//!
//! Files are read and written by the caller.

use vstd::prelude::*;
use crate::order::{
    Natural, SortKey, lemma_seq_le_total, lemma_seq_le_transitive, seq_le, sorted, stable_sort,
    str_le,
};
use crate::text::{
    chars_blank, from_chars, is_blank, lines, lines_of, push_str, slice_chars, str_blank, strs,
    to_chars, views,
};

verus! {

broadcast use vstd::string::group_string_axioms;

/// Why local storage refused an operation.
#[derive(Debug)]
pub enum StorageError {
    Io(String),
    Json(String),
    AlreadyRegistered,
    DuplicateProjectName(String),
    InvalidProjectData(String),
}

/// The text of a storage error.
pub open spec fn storage_error_text(e: StorageError) -> Seq<char> {
    match e {
        StorageError::Io(_) => "local Roven storage could not be read or written"@,
        StorageError::Json(_) => "local Roven storage contains invalid structured data"@,
        StorageError::AlreadyRegistered => "project is already registered"@,
        StorageError::DuplicateProjectName(n) => "project name is already registered: "@ + n@,
        StorageError::InvalidProjectData(d) => "local Roven storage contains invalid project data: "@
            + d@,
    }
}

impl StorageError {
    /// The error's text.
    pub fn message(&self) -> (result: String)
        ensures
            result@ == storage_error_text(*self),
    {
        let mut out: Vec<char> = Vec::new();
        match self {
            StorageError::Io(_) => push_str(&mut out, "local Roven storage could not be read or written"),
            StorageError::Json(_) => push_str(
                &mut out,
                "local Roven storage contains invalid structured data",
            ),
            StorageError::AlreadyRegistered => push_str(&mut out, "project is already registered"),
            StorageError::DuplicateProjectName(n) => {
                push_str(&mut out, "project name is already registered: ");
                push_str(&mut out, n.as_str());
            },
            StorageError::InvalidProjectData(d) => {
                push_str(&mut out, "local Roven storage contains invalid project data: ");
                push_str(&mut out, d.as_str());
            },
        }
        from_chars(out.as_slice())
    }
}

/// A registered project's durable facts.
#[derive(Debug)]
pub struct ProjectSnapshot {
    pub project_name: String,
    pub project_facts: Vec<String>,
    pub user_context_facts: Vec<String>,
    pub user_contribution_facts: Vec<String>,
}

/// A registered project's repository facts.
#[derive(Debug)]
pub struct RepositoryMetadata {
    pub github_remote: String,
    pub baseline_commit: String,
}

/// Whether any of `facts` is blank.
pub open spec fn has_blank(facts: Seq<String>) -> bool {
    exists|i: int| 0 <= i < facts.len() && is_blank(#[trigger] facts[i]@)
}

fn any_blank(facts: &Vec<String>) -> (result: bool)
    ensures
        result == has_blank(facts@),
{
    let mut i: usize = 0;
    while i < facts.len()
        invariant
            i <= facts.len(),
            forall|j: int| 0 <= j < i ==> !is_blank(#[trigger] facts@[j]@),
        decreases facts.len() - i,
    {
        if str_blank(facts[i].as_str()) {
            return true;
        }
        i = i + 1;
    }
    false
}

/// What validating a snapshot yields: the name must not be blank, then no
/// fact may be.
pub open spec fn snapshot_problem(s: ProjectSnapshot) -> Option<Seq<char>> {
    if is_blank(s.project_name@) {
        Some("project_name must not be blank"@)
    } else if has_blank(s.project_facts@) || has_blank(s.user_context_facts@) || has_blank(
        s.user_contribution_facts@,
    ) {
        Some("fact entries must not be blank"@)
    } else {
        None
    }
}

/// What validating repository metadata yields.
pub open spec fn metadata_problem(m: RepositoryMetadata) -> Option<Seq<char>> {
    if is_blank(m.github_remote@) {
        Some("github_remote must not be blank"@)
    } else if is_blank(m.baseline_commit@) {
        Some("baseline_commit must not be blank"@)
    } else {
        None
    }
}

/// The result of a validation that found `problem`.
pub open spec fn validation_result(problem: Option<Seq<char>>, result: Result<(), StorageError>) -> bool {
    match problem {
        None => result is Ok,
        Some(p) => result matches Err(StorageError::InvalidProjectData(d)) && d@ == p,
    }
}

fn invalid(detail: &str) -> (result: Result<(), StorageError>)
    ensures
        result matches Err(StorageError::InvalidProjectData(d)) && d@ == detail@,
{
    Err(StorageError::InvalidProjectData(crate::text::owned(detail)))
}

impl ProjectSnapshot {
    /// Refuses a blank project name or a blank fact.
    pub fn validate(&self) -> (result: Result<(), StorageError>)
        ensures
            validation_result(snapshot_problem(*self), result),
    {
        if str_blank(self.project_name.as_str()) {
            return invalid("project_name must not be blank");
        }
        if any_blank(&self.project_facts) || any_blank(&self.user_context_facts) || any_blank(
            &self.user_contribution_facts,
        ) {
            return invalid("fact entries must not be blank");
        }
        Ok(())
    }
}

impl RepositoryMetadata {
    /// Refuses a blank remote or baseline commit.
    pub fn validate(&self) -> (result: Result<(), StorageError>)
        ensures
            validation_result(metadata_problem(*self), result),
    {
        if str_blank(self.github_remote.as_str()) {
            return invalid("github_remote must not be blank");
        }
        if str_blank(self.baseline_commit.as_str()) {
            return invalid("baseline_commit must not be blank");
        }
        Ok(())
    }
}

/// Whether some snapshot is named `name`.
pub open spec fn name_taken(existing: Seq<ProjectSnapshot>, name: Seq<char>) -> bool {
    exists|i: int| 0 <= i < existing.len() && #[trigger] existing[i].project_name@ == name
}

/// Checks a registration before anything is written: the snapshot and the
/// metadata must be valid, and no registered project may have the name.
pub fn check_registration(
    snapshot: &ProjectSnapshot,
    metadata: &RepositoryMetadata,
    existing: &Vec<ProjectSnapshot>,
) -> (result: Result<(), StorageError>)
    ensures
        snapshot_problem(*snapshot) is Some ==> validation_result(snapshot_problem(*snapshot), result),
        snapshot_problem(*snapshot) is None && metadata_problem(*metadata) is Some
            ==> validation_result(metadata_problem(*metadata), result),
        snapshot_problem(*snapshot) is None && metadata_problem(*metadata) is None ==> (if name_taken(
            existing@,
            snapshot.project_name@,
        ) {
            result matches Err(StorageError::DuplicateProjectName(n)) && n@ == snapshot.project_name@
        } else {
            result is Ok
        }),
{
    match snapshot.validate() {
        Err(e) => {
            return Err(e);
        },
        Ok(()) => {},
    }
    match metadata.validate() {
        Err(e) => {
            return Err(e);
        },
        Ok(()) => {},
    }
    let mut i: usize = 0;
    while i < existing.len()
        invariant
            i <= existing.len(),
            snapshot_problem(*snapshot) is None,
            metadata_problem(*metadata) is None,
            forall|j: int| 0 <= j < i ==> #[trigger] existing@[j].project_name@ != snapshot.project_name@,
        decreases existing.len() - i,
    {
        if existing[i].project_name == snapshot.project_name {
            return Err(StorageError::DuplicateProjectName(snapshot.project_name.clone()));
        }
        i = i + 1;
    }
    Ok(())
}

impl SortKey<Natural> for ProjectSnapshot {
    open spec fn key_le(&self, other: &Self) -> bool {
        seq_le(self.project_name@, other.project_name@)
    }

    fn le(&self, other: &Self) -> (result: bool) {
        str_le(self.project_name.as_str(), other.project_name.as_str())
    }

    proof fn lemma_total(a: &Self, b: &Self) {
        lemma_seq_le_total(a.project_name@, b.project_name@);
    }

    proof fn lemma_transitive(a: &Self, b: &Self, c: &Self) {
        lemma_seq_le_transitive(a.project_name@, b.project_name@, c.project_name@);
    }
}

/// The first snapshot, in read order, whose name an earlier one already
/// has.
pub open spec fn first_repeated(snapshots: Seq<ProjectSnapshot>, n: int) -> Option<int>
    decreases n,
{
    if n <= 0 {
        None
    } else {
        match first_repeated(snapshots, n - 1) {
            Some(k) => Some(k),
            None => if name_taken(snapshots.take(n - 1), snapshots[n - 1].project_name@) {
                Some(n - 1)
            } else {
                None
            },
        }
    }
}

/// The registered projects, ordered by name; a name read twice is refused.
pub fn order_snapshots(snapshots: Vec<ProjectSnapshot>) -> (result: Result<
    Vec<ProjectSnapshot>,
    StorageError,
>)
    ensures
        match first_repeated(snapshots@, snapshots@.len() as int) {
            Some(k) => result matches Err(StorageError::DuplicateProjectName(n)) && n@
                == snapshots@[k].project_name@,
            None => result matches Ok(v) && sorted::<Natural, ProjectSnapshot>(v@)
                && v@.to_multiset() == snapshots@.to_multiset(),
        },
{
    let mut i: usize = 0;
    while i < snapshots.len()
        invariant
            i <= snapshots.len(),
            first_repeated(snapshots@, i as int) is None,
        decreases snapshots.len() - i,
    {
        let mut j: usize = 0;
        while j < i
            invariant
                j <= i,
                i < snapshots.len(),
                first_repeated(snapshots@, i as int) is None,
                forall|k: int| 0 <= k < j ==> #[trigger] snapshots@[k].project_name@ != snapshots@[i as int].project_name@,
            decreases i - j,
        {
            if snapshots[j].project_name == snapshots[i].project_name {
                assert(snapshots@.take(i as int)[j as int].project_name@ == snapshots@[i as int].project_name@);
                proof {
                    lemma_first_repeated_stays(snapshots@, i as int + 1, snapshots@.len() as int);
                }
                return Err(StorageError::DuplicateProjectName(snapshots[i].project_name.clone()));
            }
            j = j + 1;
        }
        proof {
            if name_taken(snapshots@.take(i as int), snapshots@[i as int].project_name@) {
                let k = choose|k: int|
                    0 <= k < snapshots@.take(i as int).len() && #[trigger] snapshots@.take(
                        i as int,
                    )[k].project_name@ == snapshots@[i as int].project_name@;
                assert(snapshots@[k].project_name@ != snapshots@[i as int].project_name@);
            }
        }
        i = i + 1;
    }
    Ok(stable_sort::<Natural, ProjectSnapshot>(snapshots))
}

proof fn lemma_first_repeated_stays(s: Seq<ProjectSnapshot>, n: int, m: int)
    requires
        0 < n <= m,
        first_repeated(s, n) == Some(n - 1),
    ensures
        first_repeated(s, m) == Some(n - 1),
    decreases m - n,
{
    if m > n {
        lemma_first_repeated_stays(s, n, m - 1);
    }
}

// ----------------------------------------------------------------------------
// Project identity
// ----------------------------------------------------------------------------

/// The SHA-256 digest of a text's UTF-8 bytes.
pub uninterp spec fn sha256_of(text: Seq<char>) -> Seq<u8>;

/// sha2's `Sha256::digest` of the text's UTF-8 bytes: 32 bytes, a function
/// of the text alone.
#[verifier::external_body]
fn sha256_text(text: &str) -> (result: Vec<u8>)
    ensures
        result@ == sha256_of(text@),
        result@.len() == 32,
{
    <sha2::Sha256 as sha2::Digest>::digest(text.as_bytes()).to_vec()
}

/// The lower-case hexadecimal digit of `d`.
pub open spec fn hex_digit(d: nat) -> char {
    if d < 10 {
        ((d + 48) as u32) as char
    } else {
        ((d + 87) as u32) as char
    }
}

/// Bytes as lower-case hexadecimal, two digits each.
pub open spec fn hex(bytes: Seq<u8>) -> Seq<char>
    decreases bytes.len(),
{
    if bytes.len() == 0 {
        Seq::<char>::empty()
    } else {
        let b = bytes.last();
        hex(bytes.drop_last()).push(hex_digit((b / 16) as nat)).push(hex_digit((b % 16) as nat))
    }
}

fn hex_char(d: u8) -> (result: char)
    requires
        d < 16,
    ensures
        result == hex_digit(d as nat),
{
    match d {
        0 => '0',
        1 => '1',
        2 => '2',
        3 => '3',
        4 => '4',
        5 => '5',
        6 => '6',
        7 => '7',
        8 => '8',
        9 => '9',
        10 => 'a',
        11 => 'b',
        12 => 'c',
        13 => 'd',
        14 => 'e',
        _ => 'f',
    }
}

/// The identifier of a project: the lower-case hexadecimal SHA-256 digest
/// of its canonical path.
pub fn project_id(canonical_path: &str) -> (result: String)
    ensures
        result@ == hex(sha256_of(canonical_path@)),
        result@.len() == 64,
{
    let digest = sha256_text(canonical_path);
    let mut out: Vec<char> = Vec::new();
    let mut i: usize = 0;
    while i < digest.len()
        invariant
            i <= digest.len(),
            out@ == hex(digest@.take(i as int)),
            out@.len() == 2 * i,
        decreases digest.len() - i,
    {
        assert(digest@.take(i + 1).drop_last() =~= digest@.take(i as int));
        let b = digest[i];
        out.push(hex_char(b / 16));
        out.push(hex_char(b % 16));
        i = i + 1;
    }
    assert(digest@.take(i as int) =~= digest@);
    from_chars(out.as_slice())
}

// ----------------------------------------------------------------------------
// Sessions
// ----------------------------------------------------------------------------

/// A conversation's metadata.
#[derive(Debug)]
pub struct SessionMeta {
    pub id: String,
    pub title: String,
    pub created_at_ms: u64,
    pub updated_at_ms: u64,
}

/// The title of a conversation: the first line of its first message, cut
/// to 80 characters, or `New conversation` when that is blank.
pub open spec fn title_of(message: Seq<char>) -> Seq<char> {
    let ls = lines(message);
    let first = if ls.len() == 0 {
        Seq::<char>::empty()
    } else {
        ls[0]
    };
    let title = if first.len() > 80 {
        first.take(80)
    } else {
        first
    };
    if is_blank(title) {
        "New conversation"@
    } else {
        title
    }
}

/// Titles a conversation from its first message.
pub fn title_from(message: &str) -> (result: String)
    ensures
        result@ == title_of(message@),
{
    let chars = to_chars(message);
    let ls = lines_of(&chars);
    let first: Vec<char> = if ls.len() == 0 {
        Vec::new()
    } else {
        assert(views(ls@)[0] == ls@[0]@);
        slice_chars(&ls[0], 0, ls[0].len())
    };
    proof {
        if ls.len() > 0 {
            assert(ls@[0]@.subrange(0, ls@[0]@.len() as int) =~= ls@[0]@);
        } else {
            assert(first@ =~= Seq::<char>::empty());
        }
    }
    let title = if first.len() > 80 {
        slice_chars(&first, 0, 80)
    } else {
        slice_chars(&first, 0, first.len())
    };
    assert(first@.len() > 80 ==> title@ =~= first@.take(80));
    assert(first@.len() <= 80 ==> title@ =~= first@);
    if chars_blank(&title) {
        crate::text::owned("New conversation")
    } else {
        from_chars(title.as_slice())
    }
}

/// Orders sessions by their last update, newest first.
pub struct NewestFirst;

impl SortKey<NewestFirst> for SessionMeta {
    open spec fn key_le(&self, other: &Self) -> bool {
        self.updated_at_ms >= other.updated_at_ms
    }

    fn le(&self, other: &Self) -> (result: bool) {
        self.updated_at_ms >= other.updated_at_ms
    }

    proof fn lemma_total(a: &Self, b: &Self) {
    }

    proof fn lemma_transitive(a: &Self, b: &Self, c: &Self) {
    }
}

/// The sessions, most recently updated first; sessions updated at the same
/// moment keep their order.
pub fn order_sessions(sessions: Vec<SessionMeta>) -> (result: Vec<SessionMeta>)
    ensures
        sorted::<NewestFirst, SessionMeta>(result@),
        result@.to_multiset() == sessions@.to_multiset(),
{
    stable_sort::<NewestFirst, SessionMeta>(sessions)
}

/// Refuses to save a blank resume.
pub fn check_resume(markdown: &str) -> (result: Result<(), StorageError>)
    ensures
        is_blank(markdown@) ==> result matches Err(StorageError::Io(_)),
        !is_blank(markdown@) ==> result is Ok,
{
    if str_blank(markdown) {
        Err(StorageError::Io(crate::text::owned("resume Markdown must not be empty")))
    } else {
        Ok(())
    }
}

} // verus!
