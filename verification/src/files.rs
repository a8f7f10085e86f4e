//! The rules of the `read_file` and `list_directory` tools: which outcome
//! each check leads to, the size limit, and the order and bound of a
//! directory listing.
//!
//! The caller opens files and reads directories, and reports each outcome
//! here as plain values.

use vstd::prelude::*;
use crate::order::{
    lemma_multiset_map, lemma_seq_le_total, lemma_seq_le_transitive, seq_le, sorted, stable_sort,
    str_le, SortKey,
};
use crate::text::{copy_string, from_chars, push_all, push_str, strip_prefix, strip_prefix_str, to_chars};
use crate::tools::{display_relative, workspace_relative_path_from_relative, IoKind, WorkspacePathError};

verus! {

broadcast use vstd::seq_lib::group_to_multiset_ensures;

// ----------------------------------------------------------------------------
// read_file
// ----------------------------------------------------------------------------

/// The largest file `read_file` returns, in bytes (50 KiB).
pub const READ_FILE_SIZE_LIMIT: u64 = 51200;

/// Why `read_file` refused a request.
#[derive(Debug, Clone, Copy, PartialEq, Eq, Structural)]
pub enum ReadFileErrorReason {
    InvalidPath,
    PathNotAllowed,
    NotFile,
    FileTooLarge,
    NotText,
    PermissionDenied,
    IoError,
}

impl ReadFileErrorReason {
    /// The stable code reported for this reason.
    pub fn code(&self) -> (result: &'static str)
        ensures
            result@ == match *self {
                ReadFileErrorReason::InvalidPath => "invalid_path"@,
                ReadFileErrorReason::PathNotAllowed => "path_not_allowed"@,
                ReadFileErrorReason::NotFile => "not_file"@,
                ReadFileErrorReason::FileTooLarge => "file_too_large"@,
                ReadFileErrorReason::NotText => "not_text"@,
                ReadFileErrorReason::PermissionDenied => "permission_denied"@,
                ReadFileErrorReason::IoError => "io_error"@,
            },
    {
        match self {
            ReadFileErrorReason::InvalidPath => "invalid_path",
            ReadFileErrorReason::PathNotAllowed => "path_not_allowed",
            ReadFileErrorReason::NotFile => "not_file",
            ReadFileErrorReason::FileTooLarge => "file_too_large",
            ReadFileErrorReason::NotText => "not_text",
            ReadFileErrorReason::PermissionDenied => "permission_denied",
            ReadFileErrorReason::IoError => "io_error",
        }
    }
}

/// What `read_file` answers.
#[derive(Debug, Clone, PartialEq, Eq)]
pub enum ReadFileResult {
    Content { path: String, content: String },
    Error { reason: ReadFileErrorReason, path: String },
}

/// The `read_file` reason for a path the workspace check refused.
pub open spec fn read_reason_for_path(error: WorkspacePathError) -> ReadFileErrorReason {
    match error {
        WorkspacePathError::InvalidPath => ReadFileErrorReason::InvalidPath,
        WorkspacePathError::PathNotAllowed => ReadFileErrorReason::PathNotAllowed,
        WorkspacePathError::PermissionDenied => ReadFileErrorReason::PermissionDenied,
        WorkspacePathError::IoError => ReadFileErrorReason::IoError,
    }
}

/// Maps a refused workspace path to the reason `read_file` reports.
pub fn read_file_path_reason(error: WorkspacePathError) -> (result: ReadFileErrorReason)
    ensures
        result == read_reason_for_path(error),
{
    match error {
        WorkspacePathError::InvalidPath => ReadFileErrorReason::InvalidPath,
        WorkspacePathError::PathNotAllowed => ReadFileErrorReason::PathNotAllowed,
        WorkspacePathError::PermissionDenied => ReadFileErrorReason::PermissionDenied,
        WorkspacePathError::IoError => ReadFileErrorReason::IoError,
    }
}

/// Maps an I/O failure while opening or reading a file to the reason
/// `read_file` reports: a missing file is an invalid path.
pub fn read_file_io_reason(kind: IoKind) -> (result: ReadFileErrorReason)
    ensures
        result == match kind {
            IoKind::PermissionDenied => ReadFileErrorReason::PermissionDenied,
            IoKind::NotFound => ReadFileErrorReason::InvalidPath,
            IoKind::Other => ReadFileErrorReason::IoError,
        },
{
    match kind {
        IoKind::PermissionDenied => ReadFileErrorReason::PermissionDenied,
        IoKind::NotFound => ReadFileErrorReason::InvalidPath,
        IoKind::Other => ReadFileErrorReason::IoError,
    }
}

/// Checks what the metadata of an opened file says before it is read: it
/// must be a regular file of at most the size limit.
pub fn check_read_target(is_file: bool, len: u64) -> (result: Result<(), ReadFileErrorReason>)
    ensures
        result == (if !is_file {
            Err(ReadFileErrorReason::NotFile)
        } else if len > READ_FILE_SIZE_LIMIT {
            Err(ReadFileErrorReason::FileTooLarge)
        } else {
            Ok(())
        }),
{
    if !is_file {
        Err(ReadFileErrorReason::NotFile)
    } else if len > READ_FILE_SIZE_LIMIT {
        Err(ReadFileErrorReason::FileTooLarge)
    } else {
        Ok(())
    }
}

/// Decodes bytes with std's `String::from_utf8`, which succeeds exactly on
/// valid UTF-8 and then holds the decoded text.
#[verifier::external_body]
pub(crate) fn utf8_text(bytes: Vec<u8>) -> (result: Option<String>)
    ensures
        result is Some <==> vstd::utf8::valid_utf8(bytes@),
        result matches Some(s) ==> s@ == vstd::utf8::decode_utf8(bytes@),
{
    String::from_utf8(bytes).ok()
}

/// The text of the bytes read from a file, which the caller reads up to one
/// byte past the limit: more than the limit is too large, and bytes that are
/// not UTF-8 are not text.
pub fn read_file_contents(bytes: Vec<u8>) -> (result: Result<String, ReadFileErrorReason>)
    ensures
        bytes@.len() > READ_FILE_SIZE_LIMIT ==> result == Err::<String, ReadFileErrorReason>(
            ReadFileErrorReason::FileTooLarge,
        ),
        bytes@.len() <= READ_FILE_SIZE_LIMIT ==> (match result {
            Ok(text) => vstd::utf8::valid_utf8(bytes@) && text@ == vstd::utf8::decode_utf8(bytes@),
            Err(reason) => !vstd::utf8::valid_utf8(bytes@) && reason == ReadFileErrorReason::NotText,
        }),
{
    if bytes.len() > 51200 {
        return Err(ReadFileErrorReason::FileTooLarge);
    }
    match utf8_text(bytes) {
        Some(text) => Ok(text),
        None => Err(ReadFileErrorReason::NotText),
    }
}

// ----------------------------------------------------------------------------
// list_directory
// ----------------------------------------------------------------------------

/// The most entries one listing returns.
pub const DIRECTORY_LIST_LIMIT: usize = 100;

/// Why `list_directory` refused a request.
#[derive(Debug, Clone, Copy, PartialEq, Eq, Structural)]
pub enum ListDirectoryErrorReason {
    InvalidPath,
    PathNotAllowed,
    NotDirectory,
    PermissionDenied,
    IoError,
}

impl ListDirectoryErrorReason {
    /// The stable code reported for this reason.
    pub fn code(&self) -> (result: &'static str)
        ensures
            result@ == match *self {
                ListDirectoryErrorReason::InvalidPath => "invalid_path"@,
                ListDirectoryErrorReason::PathNotAllowed => "path_not_allowed"@,
                ListDirectoryErrorReason::NotDirectory => "not_directory"@,
                ListDirectoryErrorReason::PermissionDenied => "permission_denied"@,
                ListDirectoryErrorReason::IoError => "io_error"@,
            },
    {
        match self {
            ListDirectoryErrorReason::InvalidPath => "invalid_path",
            ListDirectoryErrorReason::PathNotAllowed => "path_not_allowed",
            ListDirectoryErrorReason::NotDirectory => "not_directory",
            ListDirectoryErrorReason::PermissionDenied => "permission_denied",
            ListDirectoryErrorReason::IoError => "io_error",
        }
    }
}

/// What an entry of a directory is, as its file type says without
/// following links.
#[derive(Debug, Clone, Copy, PartialEq, Eq, Structural)]
pub enum DirectoryEntryKind {
    File,
    Directory,
    Symlink,
    Other,
}

impl DirectoryEntryKind {
    /// The stable code reported for this kind.
    pub fn code(&self) -> (result: &'static str)
        ensures
            result@ == match *self {
                DirectoryEntryKind::File => "file"@,
                DirectoryEntryKind::Directory => "directory"@,
                DirectoryEntryKind::Symlink => "symlink"@,
                DirectoryEntryKind::Other => "other"@,
            },
    {
        match self {
            DirectoryEntryKind::File => "file",
            DirectoryEntryKind::Directory => "directory",
            DirectoryEntryKind::Symlink => "symlink",
            DirectoryEntryKind::Other => "other",
        }
    }
}

/// Why an entry carries no size.
#[derive(Debug, Clone, Copy, PartialEq, Eq, Structural)]
pub enum DirectoryEntrySizeError {
    PermissionDenied,
    IoError,
    SymlinkNotFollowed,
}

impl DirectoryEntrySizeError {
    /// The stable code reported for this reason.
    pub fn code(&self) -> (result: &'static str)
        ensures
            result@ == match *self {
                DirectoryEntrySizeError::PermissionDenied => "permission_denied"@,
                DirectoryEntrySizeError::IoError => "io_error"@,
                DirectoryEntrySizeError::SymlinkNotFollowed => "symlink_not_followed"@,
            },
    {
        match self {
            DirectoryEntrySizeError::PermissionDenied => "permission_denied",
            DirectoryEntrySizeError::IoError => "io_error",
            DirectoryEntrySizeError::SymlinkNotFollowed => "symlink_not_followed",
        }
    }
}

/// An entry as the directory read reported it: its name, its kind and, for
/// a regular file, what reading its metadata gave.
#[derive(Debug)]
pub struct RawDirectoryEntry {
    pub name: String,
    pub kind: DirectoryEntryKind,
    pub size: Result<u64, IoKind>,
}

/// An entry of a listing. The size is in bytes; it is shown in KiB.
#[derive(Debug, Clone, PartialEq, Eq)]
pub struct ListDirectoryEntry {
    pub name: String,
    pub path: String,
    pub kind: DirectoryEntryKind,
    pub size_bytes: Option<u64>,
    pub size_error: Option<DirectoryEntrySizeError>,
}

/// What `list_directory` answers.
#[derive(Debug, Clone, PartialEq, Eq)]
pub enum ListDirectoryResult {
    Listing { path: String, workspace_path: String, entries: Vec<ListDirectoryEntry>, truncated: bool },
    Error { reason: ListDirectoryErrorReason, path: String },
}

/// The `list_directory` reason for a path the workspace check refused.
pub open spec fn list_reason_for_path(error: WorkspacePathError) -> ListDirectoryErrorReason {
    match error {
        WorkspacePathError::InvalidPath => ListDirectoryErrorReason::InvalidPath,
        WorkspacePathError::PathNotAllowed => ListDirectoryErrorReason::PathNotAllowed,
        WorkspacePathError::PermissionDenied => ListDirectoryErrorReason::PermissionDenied,
        WorkspacePathError::IoError => ListDirectoryErrorReason::IoError,
    }
}

/// Maps a refused workspace path to the reason `list_directory` reports.
pub fn list_directory_path_reason(error: WorkspacePathError) -> (result: ListDirectoryErrorReason)
    ensures
        result == list_reason_for_path(error),
{
    match error {
        WorkspacePathError::InvalidPath => ListDirectoryErrorReason::InvalidPath,
        WorkspacePathError::PathNotAllowed => ListDirectoryErrorReason::PathNotAllowed,
        WorkspacePathError::PermissionDenied => ListDirectoryErrorReason::PermissionDenied,
        WorkspacePathError::IoError => ListDirectoryErrorReason::IoError,
    }
}

/// Maps an I/O failure while reading a directory to the reason reported.
pub fn list_directory_io_reason(kind: IoKind) -> (result: ListDirectoryErrorReason)
    ensures
        result == match kind {
            IoKind::PermissionDenied => ListDirectoryErrorReason::PermissionDenied,
            IoKind::NotFound => ListDirectoryErrorReason::InvalidPath,
            IoKind::Other => ListDirectoryErrorReason::IoError,
        },
{
    match kind {
        IoKind::PermissionDenied => ListDirectoryErrorReason::PermissionDenied,
        IoKind::NotFound => ListDirectoryErrorReason::InvalidPath,
        IoKind::Other => ListDirectoryErrorReason::IoError,
    }
}

/// The size error of a file whose metadata could not be read.
pub open spec fn size_error_for(kind: IoKind) -> DirectoryEntrySizeError {
    match kind {
        IoKind::PermissionDenied => DirectoryEntrySizeError::PermissionDenied,
        _ => DirectoryEntrySizeError::IoError,
    }
}

/// Maps a metadata failure to the size error an entry carries.
pub fn size_error_reason(kind: IoKind) -> (result: DirectoryEntrySizeError)
    ensures
        result == size_error_for(kind),
{
    match kind {
        IoKind::PermissionDenied => DirectoryEntrySizeError::PermissionDenied,
        _ => DirectoryEntrySizeError::IoError,
    }
}

/// Directories come first, then files, then everything else.
pub open spec fn kind_rank(kind: DirectoryEntryKind) -> u8 {
    match kind {
        DirectoryEntryKind::Directory => 0,
        DirectoryEntryKind::File => 1,
        _ => 2,
    }
}

/// The rank of a kind in a listing.
pub fn entry_kind_rank(kind: DirectoryEntryKind) -> (result: u8)
    ensures
        result == kind_rank(kind),
{
    match kind {
        DirectoryEntryKind::Directory => 0,
        DirectoryEntryKind::File => 1,
        _ => 2,
    }
}

/// The path of a child below a workspace-relative directory, before it is
/// written for display.
pub open spec fn child_relative(dir: Seq<char>, name: Seq<char>) -> Seq<char> {
    if dir.len() == 0 {
        name
    } else {
        dir + "/"@ + name
    }
}

/// The listing entry for what the directory read reported.
pub open spec fn listed_entry(dir: Seq<char>, raw: RawDirectoryEntry) -> (Seq<char>, Seq<char>, DirectoryEntryKind, Option<u64>, Option<DirectoryEntrySizeError>) {
    let (size, error) = match raw.kind {
        DirectoryEntryKind::File => match raw.size {
            Ok(len) => (Some(len), None),
            Err(kind) => (None, Some(size_error_for(kind))),
        },
        DirectoryEntryKind::Symlink => (None, Some(DirectoryEntrySizeError::SymlinkNotFollowed)),
        _ => (None, None),
    };
    (raw.name@, display_relative(child_relative(dir, raw.name@)), raw.kind, size, error)
}

/// The parts of an entry that a listing states.
pub open spec fn entry_parts(e: ListDirectoryEntry) -> (Seq<char>, Seq<char>, DirectoryEntryKind, Option<u64>, Option<DirectoryEntrySizeError>) {
    (e.name@, e.path@, e.kind, e.size_bytes, e.size_error)
}

/// The parts of each entry of `v`.
pub open spec fn entries_parts(v: Seq<ListDirectoryEntry>) -> Seq<(Seq<char>, Seq<char>, DirectoryEntryKind, Option<u64>, Option<DirectoryEntrySizeError>)> {
    v.map_values(|e: ListDirectoryEntry| entry_parts(e))
}

/// The listing entries for what the directory read reported, in its order.
pub open spec fn listed_entries(dir: Seq<char>, raw: Seq<RawDirectoryEntry>) -> Seq<(Seq<char>, Seq<char>, DirectoryEntryKind, Option<u64>, Option<DirectoryEntrySizeError>)> {
    raw.map_values(|r: RawDirectoryEntry| listed_entry(dir, r))
}

/// Builds the listing entry for one reported entry of directory `dir`.
pub fn list_entry(dir: &str, raw: RawDirectoryEntry) -> (result: ListDirectoryEntry)
    ensures
        entry_parts(result) == listed_entry(dir@, raw),
{
    let mut child: Vec<char> = Vec::new();
    let dir_chars = to_chars(dir);
    if dir_chars.len() > 0 {
        push_all(&mut child, &dir_chars);
        push_str(&mut child, "/");
    }
    push_str(&mut child, raw.name.as_str());
    proof {
        reveal_strlit("/");
    }
    assert(child@ == child_relative(dir@, raw.name@));
    let child_text = from_chars(child.as_slice());
    let path = workspace_relative_path_from_relative(child_text.as_str());
    let (size_bytes, size_error) = match raw.kind {
        DirectoryEntryKind::File => match raw.size {
            Ok(len) => (Some(len), None),
            Err(kind) => (None, Some(size_error_reason(kind))),
        },
        DirectoryEntryKind::Symlink => (None, Some(DirectoryEntrySizeError::SymlinkNotFollowed)),
        _ => (None, None),
    };
    ListDirectoryEntry { name: raw.name, path, kind: raw.kind, size_bytes, size_error }
}

/// The order of a listing: by kind rank, then by name.
pub struct ByKindThenName;

impl SortKey<ByKindThenName> for ListDirectoryEntry {
    open spec fn key_le(&self, other: &Self) -> bool {
        kind_rank(self.kind) < kind_rank(other.kind) || (kind_rank(self.kind) == kind_rank(
            other.kind,
        ) && seq_le(self.name@, other.name@))
    }

    fn le(&self, other: &Self) -> (result: bool) {
        let a = entry_kind_rank(self.kind);
        let b = entry_kind_rank(other.kind);
        a < b || (a == b && str_le(self.name.as_str(), other.name.as_str()))
    }

    proof fn lemma_total(a: &Self, b: &Self) {
        lemma_seq_le_total(a.name@, b.name@);
    }

    proof fn lemma_transitive(a: &Self, b: &Self, c: &Self) {
        if kind_rank(a.kind) == kind_rank(b.kind) && kind_rank(b.kind) == kind_rank(c.kind) {
            lemma_seq_le_transitive(a.name@, b.name@, c.name@);
        }
    }
}

/// The entries of a listing: every reported entry, ordered by kind and
/// name, cut to the limit; and whether entries were cut.
pub fn list_entries(dir: &str, raw: Vec<RawDirectoryEntry>) -> (result: (Vec<ListDirectoryEntry>, bool))
    ensures
        result.1 == (raw@.len() > DIRECTORY_LIST_LIMIT),
        result.0@.len() == if raw@.len() > DIRECTORY_LIST_LIMIT { DIRECTORY_LIST_LIMIT as nat } else { raw@.len() },
        exists|all: Seq<ListDirectoryEntry>|
            #![trigger sorted::<ByKindThenName, ListDirectoryEntry>(all)]
            sorted::<ByKindThenName, ListDirectoryEntry>(all)
            && entries_parts(all).to_multiset() == listed_entries(dir@, raw@).to_multiset()
            && result.0@ == all.take(result.0@.len() as int),
{
    let mut built: Vec<ListDirectoryEntry> = Vec::new();
    let mut i: usize = 0;
    while i < raw.len()
        invariant
            i <= raw@.len(),
            entries_parts(built@) =~= listed_entries(dir@, raw@.take(i as int)),
        decreases raw@.len() - i,
    {
        let copy = RawDirectoryEntry {
            name: copy_string(&raw[i].name),
            kind: raw[i].kind,
            size: raw[i].size,
        };
        let entry = list_entry(dir, copy);
        let ghost before = built@;
        built.push(entry);
        proof {
            assert(raw@.take(i + 1) =~= raw@.take(i as int).push(raw@[i as int]));
            assert(entries_parts(built@) =~= entries_parts(before).push(entry_parts(entry)));
        }
        i = i + 1;
    }
    proof {
        assert(raw@.take(i as int) =~= raw@);
    }
    let ghost full = built@;
    let ordered = stable_sort::<ByKindThenName, ListDirectoryEntry>(built);
    proof {
        lemma_multiset_map(ordered@, full, |e: ListDirectoryEntry| entry_parts(e));
    }
    let ghost all = ordered@;
    let truncated = ordered.len() > 100;
    let mut kept = ordered;
    if kept.len() > 100 {
        kept.truncate(100);
    }
    proof {
        assert(kept@ =~= all.take(kept@.len() as int));
        assert(sorted::<ByKindThenName, ListDirectoryEntry>(all));
    }
    (kept, truncated)
}

/// A workspace root as shown to the model: Windows verbatim prefixes are
/// dropped, `\\?\UNC\server` becoming `\\server`.
pub open spec fn human_path(p: Seq<char>) -> Seq<char> {
    match strip_prefix(p, "\\\\?\\UNC\\"@) {
        Some(rest) => "\\\\"@ + rest,
        None => match strip_prefix(p, "\\\\?\\"@) {
            Some(rest) => rest,
            None => p,
        },
    }
}

/// Writes a workspace root for display.
pub fn human_workspace_path(path: &str) -> (result: String)
    ensures
        result@ == human_path(path@),
{
    let chars = to_chars(path);
    match strip_prefix_str(&chars, "\\\\?\\UNC\\") {
        Some(rest) => {
            let mut out: Vec<char> = Vec::new();
            push_str(&mut out, "\\\\");
            push_all(&mut out, &rest);
            from_chars(out.as_slice())
        },
        None => match strip_prefix_str(&chars, "\\\\?\\") {
            Some(rest) => from_chars(rest.as_slice()),
            None => from_chars(chars.as_slice()),
        },
    }
}

} // verus!
