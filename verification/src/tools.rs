//! The rules of Roven's workspace tools: which paths a tool may touch, how
//! results are reported, and the order of `prepare_project`'s checks.
//!
//! The file system, Git and the project registry are reached by the caller,
//! which reports each outcome back.

use vstd::prelude::*;
use crate::text::{
    chars_blank, from_chars, is_blank, lines, lines_of, lower_chars, lower_seq, position_of,
    find_position, contains_seq, slice_chars, split_chars, split_on, str_equals, to_chars, trim,
    trim_chars, trimmed, views,
};

verus! {

broadcast use vstd::string::group_string_axioms;

// ----------------------------------------------------------------------------
// Workspace paths
// ----------------------------------------------------------------------------

/// Why a requested workspace path was refused.
#[derive(Debug, Clone, Copy, PartialEq, Eq, Structural)]
pub enum WorkspacePathError {
    InvalidPath,
    PathNotAllowed,
    PermissionDenied,
    IoError,
}

/// The `Normal` components of a relative Unix path: its `/`-separated
/// pieces other than empty ones, `.` and `..`.
pub open spec fn normal_component(piece: Seq<char>) -> bool {
    piece.len() > 0 && piece != "."@ && piece != ".."@
}

/// The lexical verdict on a path given to a workspace tool: an absolute
/// path is invalid, a `..` component is not allowed, and a component
/// holding `:` is invalid, checked in that order.
pub open spec fn lexical_verdict(path: Seq<char>) -> Result<(), WorkspacePathError> {
    let pieces = split_on(path, '/');
    if path.len() > 0 && path[0] == '/' {
        Err(WorkspacePathError::InvalidPath)
    } else if exists|i: int| 0 <= i < pieces.len() && #[trigger] pieces[i] == ".."@ {
        Err(WorkspacePathError::PathNotAllowed)
    } else if exists|i: int|
        0 <= i < pieces.len() && normal_component(#[trigger] pieces[i]) && pieces[i].contains(':') {
        Err(WorkspacePathError::InvalidPath)
    } else {
        Ok(())
    }
}

/// Checks a requested path before it is joined to the workspace.
pub fn check_workspace_path(path: &str) -> (result: Result<(), WorkspacePathError>)
    ensures
        result == lexical_verdict(path@),
{
    let chars = to_chars(path);
    if chars.len() > 0 && chars[0] == '/' {
        return Err(WorkspacePathError::InvalidPath);
    }
    let pieces = split_chars(&chars, '/');
    proof {
        reveal_strlit("..");
        reveal_strlit(".");
    }
    let mut i: usize = 0;
    while i < pieces.len()
        invariant
            i <= pieces.len(),
            views(pieces@) == split_on(path@, '/'),
            chars@ == path@,
            !(path@.len() > 0 && path@[0] == '/'),
            forall|j: int| 0 <= j < i ==> #[trigger] split_on(path@, '/')[j] != ".."@,
        decreases pieces.len() - i,
    {
        assert(views(pieces@)[i as int] == pieces@[i as int]@);
        if str_equals(&pieces[i], "..") {
            assert(split_on(path@, '/')[i as int] == ".."@);
            return Err(WorkspacePathError::PathNotAllowed);
        }
        i = i + 1;
    }
    let mut k: usize = 0;
    while k < pieces.len()
        invariant
            k <= pieces.len(),
            views(pieces@) == split_on(path@, '/'),
            chars@ == path@,
            !(path@.len() > 0 && path@[0] == '/'),
            forall|j: int| 0 <= j < pieces.len() ==> #[trigger] split_on(path@, '/')[j] != ".."@,
            forall|j: int|
                0 <= j < k ==> !(normal_component(#[trigger] split_on(path@, '/')[j]) && split_on(
                    path@,
                    '/',
                )[j].contains(':')),
        decreases pieces.len() - k,
    {
        let piece = &pieces[k];
        assert(views(pieces@)[k as int] == piece@);
        let normal = piece.len() > 0 && !str_equals(piece, ".") && !str_equals(piece, "..");
        if normal {
            match crate::text::find_char(piece, ':') {
                Some(at) => {
                    assert(piece@[at as int] == ':');
                    return Err(WorkspacePathError::InvalidPath);
                },
                None => {},
            }
        }
        k = k + 1;
    }
    Ok(())
}

/// A workspace-relative path for display: `\` becomes `/`, and the empty
/// path is `.`.
pub open spec fn display_relative(path: Seq<char>) -> Seq<char> {
    if path.len() == 0 {
        "."@
    } else {
        path.map_values(|c: char| if c == '\\' { '/' } else { c })
    }
}

/// Writes a workspace-relative path for display.
pub fn workspace_relative_path_from_relative(path: &str) -> (result: String)
    ensures
        result@ == display_relative(path@),
{
    let chars = to_chars(path);
    if chars.len() == 0 {
        return crate::text::owned(".");
    }
    let mut out: Vec<char> = Vec::new();
    let mut i: usize = 0;
    while i < chars.len()
        invariant
            i <= chars.len(),
            out@ =~= chars@.take(i as int).map_values(|c: char| if c == '\\' { '/' } else { c }),
        decreases chars.len() - i,
    {
        if chars[i] == '\\' {
            out.push('/');
        } else {
            out.push(chars[i]);
        }
        i = i + 1;
    }
    assert(chars@.take(i as int) =~= chars@);
    from_chars(out.as_slice())
}

/// The kinds of I/O failure the tools tell apart.
#[derive(Debug, Clone, Copy, PartialEq, Eq, Structural)]
pub enum IoKind {
    PermissionDenied,
    NotFound,
    Other,
}

/// The reason reported for an I/O failure while resolving a path.
pub fn io_error_reason(kind: IoKind) -> (result: WorkspacePathError)
    ensures
        result == match kind {
            IoKind::PermissionDenied => WorkspacePathError::PermissionDenied,
            IoKind::NotFound => WorkspacePathError::InvalidPath,
            IoKind::Other => WorkspacePathError::IoError,
        },
{
    match kind {
        IoKind::PermissionDenied => WorkspacePathError::PermissionDenied,
        IoKind::NotFound => WorkspacePathError::InvalidPath,
        IoKind::Other => WorkspacePathError::IoError,
    }
}

// ----------------------------------------------------------------------------
// Git checks of prepare_project
// ----------------------------------------------------------------------------

/// Whether `git status --porcelain` output reports any change: some line
/// that is not blank.
pub open spec fn blocking_status(status: Seq<char>) -> bool {
    exists|i: int| 0 <= i < lines(status).len() && !is_blank(#[trigger] lines(status)[i])
}

/// Whether the status output blocks registration.
pub fn has_blocking_status(status: &str) -> (result: bool)
    ensures
        result == blocking_status(status@),
{
    let chars = to_chars(status);
    let ls = lines_of(&chars);
    let mut i: usize = 0;
    while i < ls.len()
        invariant
            i <= ls.len(),
            views(ls@) == lines(status@),
            forall|j: int| 0 <= j < i ==> is_blank(#[trigger] lines(status@)[j]),
        decreases ls.len() - i,
    {
        assert(views(ls@)[i as int] == ls@[i as int]@);
        if !chars_blank(&ls[i]) {
            return true;
        }
        i = i + 1;
    }
    false
}

/// The host a Git remote URL names: for `scheme://authority/...` the
/// authority, else the part before the first `:`; then the part after the
/// last `@`, up to the first `:`.  Compared in ASCII lower case.
pub open spec fn remote_host(url: Seq<char>) -> Seq<char> {
    let u = lower_seq(trim(url));
    let authority = if contains_seq(u, "://"@) {
        split_on(u.skip(find_position(u, "://"@) + 3), '/')[0]
    } else {
        split_on(u, ':')[0]
    };
    split_on(split_on(authority, '@').last(), ':')[0]
}

/// Whether a remote URL is a GitHub URL.
pub open spec fn github_url(url: Seq<char>) -> bool {
    remote_host(url) == "github.com"@
}

/// Whether `url` names GitHub.
pub fn is_github_url(url: &str) -> (result: bool)
    ensures
        result == github_url(url@),
{
    let chars = to_chars(url);
    let t = trim_chars(&chars);
    let u = lower_chars(&t);
    let sep = to_chars("://");
    proof {
        reveal_strlit("://");
    }
    let authority = match position_of(&u, &sep) {
        Some(at) => {
            let ulen = u.len();
            assert(at + 3 <= ulen);
            let rest = slice_chars(&u, at + 3, ulen);
            assert(rest@ =~= u@.skip(at + 3));
            let parts = split_chars(&rest, '/');
            assert(views(parts@)[0] == parts@[0]@);
            let a = slice_chars(&parts[0], 0, parts[0].len());
            assert(a@ =~= parts@[0]@);
            a
        },
        None => {
            let parts = split_chars(&u, ':');
            assert(views(parts@)[0] == parts@[0]@);
            let a = slice_chars(&parts[0], 0, parts[0].len());
            assert(a@ =~= parts@[0]@);
            a
        },
    };
    let at_parts = split_chars(&authority, '@');
    let last = &at_parts[at_parts.len() - 1];
    assert(views(at_parts@).last() == last@);
    let host_parts = split_chars(last, ':');
    assert(views(host_parts@)[0] == host_parts@[0]@);
    str_equals(&host_parts[0], "github.com")
}

/// The non-empty remote names other than `origin`, in order.
pub open spec fn other_remotes(names: Seq<Seq<char>>) -> Seq<Seq<char>>
    decreases names.len(),
{
    if names.len() == 0 {
        names
    } else {
        let prev = other_remotes(names.drop_last());
        let n = names.last();
        if n.len() > 0 && n != "origin"@ {
            prev.push(n)
        } else {
            prev
        }
    }
}

/// The remotes to try, in order: `origin` first when present, then every
/// other non-empty remote name as Git listed it.
pub open spec fn remote_order(names: Seq<Seq<char>>) -> Seq<Seq<char>> {
    let others = other_remotes(names);
    if names.contains("origin"@) {
        seq!["origin"@] + others
    } else {
        others
    }
}

/// The remote names of `git remote` output, in the order they are tried.
pub fn remote_candidates(output: &str) -> (result: Vec<String>)
    ensures
        crate::text::strs(result@) == remote_order(lines(output@)),
{
    let chars = to_chars(output);
    let ls = lines_of(&chars);
    proof {
        reveal_strlit("origin");
    }
    let mut others: Vec<String> = Vec::new();
    let mut has_origin = false;
    let mut i: usize = 0;
    while i < ls.len()
        invariant
            i <= ls.len(),
            views(ls@) == lines(output@),
            crate::text::strs(others@) == other_remotes(views(ls@).take(i as int)),
            has_origin == views(ls@).take(i as int).contains("origin"@),
        decreases ls.len() - i,
    {
        let line = &ls[i];
        assert(views(ls@).take(i + 1).drop_last() =~= views(ls@).take(i as int));
        assert(views(ls@).take(i + 1).last() == line@);
        if str_equals(line, "origin") {
            has_origin = true;
            assert(views(ls@).take(i + 1)[i as int] == "origin"@);
        } else {
            proof {
                let t1 = views(ls@).take(i + 1);
                let t0 = views(ls@).take(i as int);
                if t1.contains("origin"@) {
                    let k = choose|k: int| 0 <= k < t1.len() && #[trigger] t1[k] == "origin"@;
                    assert(t0[k] == "origin"@);
                }
            }
            if line.len() > 0 {
                let ghost before = others@;
                others.push(from_chars(line.as_slice()));
                assert(crate::text::strs(others@) =~= crate::text::strs(before).push(line@));
            }
        }
        proof {
            let t1 = views(ls@).take(i + 1);
            let t0 = views(ls@).take(i as int);
            if t0.contains("origin"@) {
                let k = choose|k: int| 0 <= k < t0.len() && #[trigger] t0[k] == "origin"@;
                assert(t1[k] == "origin"@);
            }
        }
        i = i + 1;
    }
    assert(views(ls@).take(i as int) =~= views(ls@));
    if has_origin {
        let mut result: Vec<String> = Vec::new();
        result.push(crate::text::owned("origin"));
        let ghost first = result@;
        let mut j: usize = 0;
        let n = others.len();
        while j < n
            invariant
                j <= n,
                n == others.len(),
                crate::text::strs(result@) == seq!["origin"@] + crate::text::strs(others@).take(
                    j as int,
                ),
            decreases n - j,
        {
            let ghost before = result@;
            result.push(others[j].clone());
            assert(crate::text::strs(others@).take(j + 1) =~= crate::text::strs(others@).take(
                j as int,
            ).push(others@[j as int]@));
            assert(crate::text::strs(result@) =~= crate::text::strs(before).push(others@[j as int]@));
            j = j + 1;
        }
        assert(crate::text::strs(others@).take(n as int) =~= crate::text::strs(others@));
        result
    } else {
        others
    }
}

/// The GitHub URL among a remote's reported URL, trimmed, if it is one.
pub fn github_remote_url(reported: &Option<String>) -> (result: Option<String>)
    ensures
        match reported {
            None => result is None,
            Some(u) => if github_url(u@) {
                result is Some && result->0@ == trim(u@)
            } else {
                result is None
            },
        },
{
    match reported {
        None => None,
        Some(u) => {
            if is_github_url(u.as_str()) {
                Some(trimmed(u.as_str()))
            } else {
                None
            }
        },
    }
}

// ----------------------------------------------------------------------------
// prepare_project
// ----------------------------------------------------------------------------

/// Why `prepare_project` stopped without preparing or updating a project.
#[derive(Debug, Clone, Copy, PartialEq, Eq, Structural)]
pub enum BlockedReason {
    InvalidPath,
    PathNotAllowed,
    GitUnavailable,
    NotGitRepository,
    NoCommitBaseline,
    NoGithubRemote,
    RepositoryNotClean,
    StorageFailure,
    InvalidSectionUpdate,
    NotRegistered,
}

/// A registered project as `prepare_project` reports it.
#[derive(Debug)]
pub struct ExistingProject {
    pub name: String,
    pub path: String,
}

/// A newly registered project.
#[derive(Debug)]
pub struct PreparedProject {
    pub name: String,
    pub path: String,
    pub github_remote: String,
    pub baseline_commit: String,
}

/// What `prepare_project` answers.
#[derive(Debug)]
pub enum PrepareProjectResult {
    Prepared { project: PreparedProject },
    AlreadyAdded { project: ExistingProject },
    SummarySaved { project: ExistingProject },
    Blocked { reason: BlockedReason },
}

/// The optional section fields of a `prepare_project` call.
#[derive(Debug)]
pub struct SectionUpdate {
    pub section_name: Option<String>,
    pub text: Option<String>,
    pub operation: Option<String>,
}

/// How the requested path resolved against the trusted workspace.
#[derive(Debug, Clone, Copy, PartialEq, Eq, Structural)]
pub enum PathCheck {
    /// It does not resolve to a directory.
    Invalid,
    /// It resolves to a directory other than the trusted workspace.
    Elsewhere,
    /// It is the trusted workspace itself.
    Workspace,
}

/// What the project registry answered.
#[derive(Debug)]
pub enum RegistryReply {
    Found(ExistingProject),
    Absent,
    Failed,
}

/// Where a `prepare_project` call stands.
#[derive(Debug)]
pub enum PrepareStage {
    Resolving { update: SectionUpdate },
    ReplacingSummary,
    LookingUp,
    CheckingGit,
    CheckingRepository,
    ReadingHead,
    FindingRemote { baseline_commit: String },
    CheckingClean { baseline_commit: String, github_remote: String },
    Registering,
    Finished,
}

/// What the caller found out, one outside step at a time.
#[derive(Debug)]
pub enum PrepareEvent {
    Resolved { path: PathCheck, registry_available: bool },
    SummaryReplaced(RegistryReply),
    LookedUp(RegistryReply),
    GitAvailable(bool),
    IsRepository(bool),
    HeadCommit(Option<String>),
    GithubRemote(Option<String>),
    CleanState(bool),
    Registered(Option<PreparedProject>),
}

/// What the caller is to do next.
#[derive(Debug)]
pub enum PrepareAction {
    ReplaceSummary { text: String },
    LookUp,
    CheckGit,
    CheckRepository,
    ReadHead,
    FindRemote,
    CheckClean,
    Register { github_remote: String, baseline_commit: String },
    Finish(PrepareProjectResult),
}

/// The event each stage waits for.
pub open spec fn expects(stage: PrepareStage, event: PrepareEvent) -> bool {
    match stage {
        PrepareStage::Resolving { .. } => event is Resolved,
        PrepareStage::ReplacingSummary => event is SummaryReplaced,
        PrepareStage::LookingUp => event is LookedUp,
        PrepareStage::CheckingGit => event is GitAvailable,
        PrepareStage::CheckingRepository => event is IsRepository,
        PrepareStage::ReadingHead => event is HeadCommit,
        PrepareStage::FindingRemote { .. } => event is GithubRemote,
        PrepareStage::CheckingClean { .. } => event is CleanState,
        PrepareStage::Registering => event is Registered,
        PrepareStage::Finished => false,
    }
}

/// A finished call that reports `reason`.
pub open spec fn blocked(reason: BlockedReason) -> (PrepareStage, PrepareAction) {
    (
        PrepareStage::Finished,
        PrepareAction::Finish(PrepareProjectResult::Blocked { reason }),
    )
}

/// What the section fields ask for once the path is accepted: no fields
/// means registration; all three must replace the `summary` section with
/// non-blank text.
pub open spec fn after_resolution(update: SectionUpdate) -> (PrepareStage, PrepareAction) {
    match (update.section_name, update.text, update.operation) {
        (None, None, None) => (PrepareStage::LookingUp, PrepareAction::LookUp),
        (Some(name), Some(text), Some(operation)) => if name@ != "summary"@ || operation@
            != "replace"@ || is_blank(text@) {
            blocked(BlockedReason::InvalidSectionUpdate)
        } else {
            (PrepareStage::ReplacingSummary, PrepareAction::ReplaceSummary { text })
        },
        _ => blocked(BlockedReason::InvalidSectionUpdate),
    }
}

/// One step of `prepare_project`: the path is checked first, then the
/// registry, then the section fields; a registration goes on to the Git
/// checks in order and registers only a clean repository with a commit
/// baseline and a GitHub remote.
pub open spec fn prepare_transition(stage: PrepareStage, event: PrepareEvent) -> (
    PrepareStage,
    PrepareAction,
) {
    match (stage, event) {
        (
            PrepareStage::Resolving { update },
            PrepareEvent::Resolved { path, registry_available },
        ) => if path == PathCheck::Invalid {
            blocked(BlockedReason::InvalidPath)
        } else if path == PathCheck::Elsewhere {
            blocked(BlockedReason::PathNotAllowed)
        } else if !registry_available {
            blocked(BlockedReason::StorageFailure)
        } else {
            after_resolution(update)
        },
        (PrepareStage::ReplacingSummary, PrepareEvent::SummaryReplaced(reply)) => match reply {
            RegistryReply::Found(project) => (
                PrepareStage::Finished,
                PrepareAction::Finish(PrepareProjectResult::SummarySaved { project }),
            ),
            RegistryReply::Absent => blocked(BlockedReason::NotRegistered),
            RegistryReply::Failed => blocked(BlockedReason::StorageFailure),
        },
        (PrepareStage::LookingUp, PrepareEvent::LookedUp(reply)) => match reply {
            RegistryReply::Found(project) => (
                PrepareStage::Finished,
                PrepareAction::Finish(PrepareProjectResult::AlreadyAdded { project }),
            ),
            RegistryReply::Absent => (PrepareStage::CheckingGit, PrepareAction::CheckGit),
            RegistryReply::Failed => blocked(BlockedReason::StorageFailure),
        },
        (PrepareStage::CheckingGit, PrepareEvent::GitAvailable(available)) => if available {
            (PrepareStage::CheckingRepository, PrepareAction::CheckRepository)
        } else {
            blocked(BlockedReason::GitUnavailable)
        },
        (PrepareStage::CheckingRepository, PrepareEvent::IsRepository(repository)) => if repository {
            (PrepareStage::ReadingHead, PrepareAction::ReadHead)
        } else {
            blocked(BlockedReason::NotGitRepository)
        },
        (PrepareStage::ReadingHead, PrepareEvent::HeadCommit(head)) => match head {
            Some(baseline_commit) => (
                PrepareStage::FindingRemote { baseline_commit },
                PrepareAction::FindRemote,
            ),
            None => blocked(BlockedReason::NoCommitBaseline),
        },
        (
            PrepareStage::FindingRemote { baseline_commit },
            PrepareEvent::GithubRemote(remote),
        ) => match remote {
            Some(github_remote) => (
                PrepareStage::CheckingClean { baseline_commit, github_remote },
                PrepareAction::CheckClean,
            ),
            None => blocked(BlockedReason::NoGithubRemote),
        },
        (
            PrepareStage::CheckingClean { baseline_commit, github_remote },
            PrepareEvent::CleanState(clean),
        ) => if clean {
            (PrepareStage::Registering, PrepareAction::Register { github_remote, baseline_commit })
        } else {
            blocked(BlockedReason::RepositoryNotClean)
        },
        (PrepareStage::Registering, PrepareEvent::Registered(registered)) => match registered {
            Some(project) => (
                PrepareStage::Finished,
                PrepareAction::Finish(PrepareProjectResult::Prepared { project }),
            ),
            None => blocked(BlockedReason::StorageFailure),
        },
        _ => blocked(BlockedReason::StorageFailure),
    }
}

fn is_literal(value: &String, literal: &str) -> (result: bool)
    ensures
        result == (value@ == literal@),
{
    let chars = to_chars(value.as_str());
    str_equals(&chars, literal)
}

fn finish_blocked(reason: BlockedReason) -> (result: (PrepareStage, PrepareAction))
    ensures
        result == blocked(reason),
{
    (PrepareStage::Finished, PrepareAction::Finish(PrepareProjectResult::Blocked { reason }))
}

impl PrepareStage {
    /// The first stage of a call with these section fields.
    pub fn start(update: SectionUpdate) -> (result: Self)
        ensures
            result == (PrepareStage::Resolving { update }),
    {
        PrepareStage::Resolving { update }
    }
}

/// Takes one step of `prepare_project`.
pub fn prepare_step(stage: PrepareStage, event: PrepareEvent) -> (result: (
    PrepareStage,
    PrepareAction,
))
    requires
        expects(stage, event),
    ensures
        result == prepare_transition(stage, event),
{
    match (stage, event) {
        (
            PrepareStage::Resolving { update },
            PrepareEvent::Resolved { path, registry_available },
        ) => {
            match path {
                PathCheck::Invalid => {
                    return finish_blocked(BlockedReason::InvalidPath);
                },
                PathCheck::Elsewhere => {
                    return finish_blocked(BlockedReason::PathNotAllowed);
                },
                PathCheck::Workspace => {},
            }
            if !registry_available {
                return finish_blocked(BlockedReason::StorageFailure);
            }
            match (update.section_name, update.text, update.operation) {
                (None, None, None) => (PrepareStage::LookingUp, PrepareAction::LookUp),
                (Some(name), Some(text), Some(operation)) => {
                    if !is_literal(&name, "summary") || !is_literal(&operation, "replace")
                        || crate::text::str_blank(text.as_str()) {
                        finish_blocked(BlockedReason::InvalidSectionUpdate)
                    } else {
                        (PrepareStage::ReplacingSummary, PrepareAction::ReplaceSummary { text })
                    }
                },
                _ => finish_blocked(BlockedReason::InvalidSectionUpdate),
            }
        },
        (PrepareStage::ReplacingSummary, PrepareEvent::SummaryReplaced(reply)) => match reply {
            RegistryReply::Found(project) => (
                PrepareStage::Finished,
                PrepareAction::Finish(PrepareProjectResult::SummarySaved { project }),
            ),
            RegistryReply::Absent => finish_blocked(BlockedReason::NotRegistered),
            RegistryReply::Failed => finish_blocked(BlockedReason::StorageFailure),
        },
        (PrepareStage::LookingUp, PrepareEvent::LookedUp(reply)) => match reply {
            RegistryReply::Found(project) => (
                PrepareStage::Finished,
                PrepareAction::Finish(PrepareProjectResult::AlreadyAdded { project }),
            ),
            RegistryReply::Absent => (PrepareStage::CheckingGit, PrepareAction::CheckGit),
            RegistryReply::Failed => finish_blocked(BlockedReason::StorageFailure),
        },
        (PrepareStage::CheckingGit, PrepareEvent::GitAvailable(available)) => {
            if available {
                (PrepareStage::CheckingRepository, PrepareAction::CheckRepository)
            } else {
                finish_blocked(BlockedReason::GitUnavailable)
            }
        },
        (PrepareStage::CheckingRepository, PrepareEvent::IsRepository(repository)) => {
            if repository {
                (PrepareStage::ReadingHead, PrepareAction::ReadHead)
            } else {
                finish_blocked(BlockedReason::NotGitRepository)
            }
        },
        (PrepareStage::ReadingHead, PrepareEvent::HeadCommit(head)) => match head {
            Some(baseline_commit) => (
                PrepareStage::FindingRemote { baseline_commit },
                PrepareAction::FindRemote,
            ),
            None => finish_blocked(BlockedReason::NoCommitBaseline),
        },
        (
            PrepareStage::FindingRemote { baseline_commit },
            PrepareEvent::GithubRemote(remote),
        ) => match remote {
            Some(github_remote) => (
                PrepareStage::CheckingClean { baseline_commit, github_remote },
                PrepareAction::CheckClean,
            ),
            None => finish_blocked(BlockedReason::NoGithubRemote),
        },
        (
            PrepareStage::CheckingClean { baseline_commit, github_remote },
            PrepareEvent::CleanState(clean),
        ) => {
            if clean {
                (
                    PrepareStage::Registering,
                    PrepareAction::Register { github_remote, baseline_commit },
                )
            } else {
                finish_blocked(BlockedReason::RepositoryNotClean)
            }
        },
        (PrepareStage::Registering, PrepareEvent::Registered(registered)) => match registered {
            Some(project) => (
                PrepareStage::Finished,
                PrepareAction::Finish(PrepareProjectResult::Prepared { project }),
            ),
            None => finish_blocked(BlockedReason::StorageFailure),
        },
        _ => finish_blocked(BlockedReason::StorageFailure),
    }
}

/// A path that is not the trusted workspace is answered before the
/// registry or Git is consulted: the call finishes at once, blocked.
pub proof fn law_outside_path_blocks_first(update: SectionUpdate, path: PathCheck, registry_available: bool)
    requires
        path != PathCheck::Workspace,
    ensures
        prepare_transition(
            PrepareStage::Resolving { update },
            PrepareEvent::Resolved { path, registry_available },
        ) == blocked(
            if path == PathCheck::Invalid {
                BlockedReason::InvalidPath
            } else {
                BlockedReason::PathNotAllowed
            },
        ),
{
}

/// Registration is requested only after every Git check passed: the
/// transition into `Register` comes from a clean repository whose commit
/// baseline and GitHub remote were found before.
pub proof fn law_register_only_when_clean(stage: PrepareStage, event: PrepareEvent)
    requires
        prepare_transition(stage, event).1 is Register,
    ensures
        stage is CheckingClean,
        event == PrepareEvent::CleanState(true),
{
}

/// The commit that `git rev-parse --verify HEAD^{commit}` reported:
/// trimmed, and none when empty.
pub fn head_commit(output: Option<String>) -> (result: Option<String>)
    ensures
        match output {
            None => result is None,
            Some(o) => if trim(o@).len() == 0 {
                result is None
            } else {
                result is Some && result->0@ == trim(o@)
            },
        },
{
    match output {
        None => None,
        Some(o) => {
            let t = trimmed(o.as_str());
            if t.as_str().is_empty() {
                None
            } else {
                Some(t)
            }
        },
    }
}

/// Whether `git rev-parse --is-inside-work-tree` reported a work tree.
pub fn inside_work_tree(output: &Option<String>) -> (result: bool)
    ensures
        result == match output {
            None => false,
            Some(o) => trim(o@) == "true"@,
        },
{
    match output {
        None => false,
        Some(o) => {
            let chars = to_chars(o.as_str());
            let t = trim_chars(&chars);
            str_equals(&t, "true")
        },
    }
}

// ----------------------------------------------------------------------------
// Containment and dispatch
// ----------------------------------------------------------------------------

/// The named components of a Unix path: its `/`-separated pieces other
/// than empty ones and `.`.
pub open spec fn named_components(pieces: Seq<Seq<char>>) -> Seq<Seq<char>>
    decreases pieces.len(),
{
    if pieces.len() == 0 {
        Seq::empty()
    } else {
        let prev = named_components(pieces.drop_last());
        let p = pieces.last();
        if p.len() == 0 || p == "."@ {
            prev
        } else {
            prev.push(p)
        }
    }
}

/// The components of a path, as `Path::components` gives them on Unix: a
/// root when it starts with `/`, then its named components.
pub open spec fn path_components(p: Seq<char>) -> (bool, Seq<Seq<char>>) {
    (p.len() > 0 && p[0] == '/', named_components(split_on(p, '/')))
}

/// `Path::starts_with`: `target`'s components begin with all of `root`'s.
pub open spec fn path_within(root: Seq<char>, target: Seq<char>) -> bool {
    let (ra, rc) = path_components(root);
    let (ta, tc) = path_components(target);
    ra == ta && rc.len() <= tc.len() && tc.take(rc.len() as int) == rc
}

fn components_of(pieces: &Vec<Vec<char>>) -> (result: Vec<Vec<char>>)
    ensures
        views(result@) == named_components(views(pieces@)),
{
    let mut out: Vec<Vec<char>> = Vec::new();
    let mut i: usize = 0;
    proof {
        reveal_strlit(".");
    }
    while i < pieces.len()
        invariant
            i <= pieces@.len(),
            views(out@) =~= named_components(views(pieces@).take(i as int)),
        decreases pieces@.len() - i,
    {
        proof {
            assert(views(pieces@).take(i + 1).drop_last() =~= views(pieces@).take(i as int));
            assert(views(pieces@).take(i + 1).last() == pieces@[i as int]@);
        }
        let piece = &pieces[i];
        if piece.len() > 0 && !str_equals(piece, ".") {
            let ghost before = out@;
            let copy = crate::text::slice_chars(piece, 0, piece.len());
            assert(copy@ =~= piece@);
            out.push(copy);
            proof {
                assert(views(out@) =~= views(before).push(pieces@[i as int]@));
            }
        }
        i = i + 1;
    }
    proof {
        assert(views(pieces@).take(i as int) =~= views(pieces@));
    }
    out
}

/// Whether a canonical `target` lies inside the canonical `root`.
#[verifier::loop_isolation(false)]
pub fn is_within(root: &str, target: &str) -> (result: bool)
    ensures
        result == path_within(root@, target@),
{
    let rc = to_chars(root);
    let tc = to_chars(target);
    let r_abs = rc.len() > 0 && rc[0] == '/';
    let t_abs = tc.len() > 0 && tc[0] == '/';
    if r_abs != t_abs {
        return false;
    }
    let r = components_of(&split_chars(&rc, '/'));
    let t = components_of(&split_chars(&tc, '/'));
    if r.len() > t.len() {
        return false;
    }
    let mut i: usize = 0;
    while i < r.len()
        invariant
            i <= r@.len(),
            r@.len() <= t@.len(),
            forall|j: int| 0 <= j < i ==> views(r@)[j] == views(t@)[j],
        decreases r@.len() - i,
    {
        if !crate::text::chars_equal(&r[i], &t[i]) {
            proof {
                assert(views(t@).take(r@.len() as int)[i as int] != views(r@)[i as int]);
            }
            return false;
        }
        i = i + 1;
    }
    proof {
        assert(views(t@).take(r@.len() as int) =~= views(r@));
    }
    true
}

/// The workspace tools.
#[derive(Debug, Clone, Copy, PartialEq, Eq, Structural)]
pub enum ToolKind {
    PrepareProject,
    ListDirectory,
    ReadFile,
    ListTools,
    ListProject,
}

/// The tool a call names.
pub open spec fn tool_of(name: Seq<char>) -> Option<ToolKind> {
    if name == "prepare_project"@ {
        Some(ToolKind::PrepareProject)
    } else if name == "list_directory"@ {
        Some(ToolKind::ListDirectory)
    } else if name == "read_file"@ {
        Some(ToolKind::ReadFile)
    } else if name == "list_tools"@ {
        Some(ToolKind::ListTools)
    } else if name == "list_project"@ {
        Some(ToolKind::ListProject)
    } else {
        None
    }
}

/// The tool a call names; none for a name no tool has, which is answered
/// with an `unknown_tool` error.
pub fn tool_named(name: &str) -> (result: Option<ToolKind>)
    ensures
        result == tool_of(name@),
{
    let n = to_chars(name);
    if str_equals(&n, "prepare_project") {
        Some(ToolKind::PrepareProject)
    } else if str_equals(&n, "list_directory") {
        Some(ToolKind::ListDirectory)
    } else if str_equals(&n, "read_file") {
        Some(ToolKind::ReadFile)
    } else if str_equals(&n, "list_tools") {
        Some(ToolKind::ListTools)
    } else if str_equals(&n, "list_project") {
        Some(ToolKind::ListProject)
    } else {
        None
    }
}


/// What `prepare_project` tells the model it does.
pub const PREPARE_PROJECT_DESCRIPTION: &'static str = "Validate and register the currently trusted project for first-time use with Roven, or replace its concise `summary` section after registration. Pass `.` as the path for the current trusted workspace on every call. Registration validates the project path, existing Roven registration, Git repository, GitHub remote, committed baseline, and clean working state, then stores the minimal project registration. Section updates accept only section_name `summary`, text, and operation `replace`; they update local Roven registration data and do not inspect or modify the project repository.";

/// What `list_directory` tells the model it does.
pub const LIST_DIRECTORY_DESCRIPTION: &'static str = "List the immediate contents of a directory inside the currently trusted Roven workspace. Pass a workspace-relative directory path such as `.` or `src`; do not pass an absolute path or a path containing `..`. Returns up to 100 immediate entries in deterministic order with `status`, `path`, `workspace_path`, `entries`, and `truncated`. Each entry includes `name`, workspace-relative `path`, and `kind`; regular files also include `size_kb`. Symlinks are not followed. This tool does not read file contents, search recursively, modify files, register projects, or access paths outside the trusted workspace.";

/// What `read_file` tells the model it does.
pub const READ_FILE_DESCRIPTION: &'static str = "Read a known workspace-relative text file after locating it with `list_directory`. Paths are relative to the trusted workspace. This tool reads only regular UTF-8 text files up to 50 KiB and does not modify files or access paths outside the trusted workspace.";

/// What `list_tools` tells the model it does.
pub const LIST_TOOLS_DESCRIPTION: &'static str = "List the Roven tools available to you in this turn, with their exact descriptions and input schemas. Use this when you need to check which Roven capabilities are currently available before selecting a tool. This reports the live Roven tool registry and does not access the workspace or modify anything.";

/// What `list_project` tells the model it does.
pub const LIST_PROJECT_DESCRIPTION: &'static str = "List the projects currently registered with Roven. Use this when the user asks which stored projects exist. Takes no arguments and returns only project names in deterministic alphabetical order; an empty registry returns an empty projects array. This does not inspect project directories or modify storage.";

/// The JSON schema of `prepare_project`'s input: a path and, for a section
/// update, the `summary` section, its text and the `replace` operation.
pub const PREPARE_PROJECT_SCHEMA: &'static str = "{\"type\":\"object\",\"properties\":{\"path\":{\"type\":\"string\",\"description\":\"Path to the currently trusted project directory.\"},\"section_name\":{\"type\":\"string\",\"enum\":[\"summary\"],\"description\":\"Registration section to replace; version one accepts only summary.\"},\"text\":{\"type\":\"string\",\"description\":\"Non-empty concise report text for the selected section.\"},\"operation\":{\"type\":\"string\",\"enum\":[\"replace\"],\"description\":\"Update operation; version one accepts only replace.\"}},\"required\":[\"path\"],\"additionalProperties\":false}";

/// The JSON schema of `list_directory`'s input: a directory path.
pub const LIST_DIRECTORY_SCHEMA: &'static str = "{\"type\":\"object\",\"properties\":{\"path\":{\"type\":\"string\",\"description\":\"Workspace-relative directory path; use `.` for the workspace root.\"}},\"required\":[\"path\"],\"additionalProperties\":false}";

/// The JSON schema of `read_file`'s input: a file path.
pub const READ_FILE_SCHEMA: &'static str = "{\"type\":\"object\",\"properties\":{\"path\":{\"type\":\"string\",\"description\":\"Workspace-relative text file path.\"}},\"required\":[\"path\"],\"additionalProperties\":false}";

/// The JSON schema of a tool that takes no input.
pub const NO_INPUT_SCHEMA: &'static str = "{\"type\":\"object\",\"properties\":{},\"additionalProperties\":false}";

/// A tool as the provider sees it: name, description and input schema
/// (JSON text).
#[derive(Debug)]
pub struct ToolDefinition {
    pub name: String,
    pub description: String,
    pub input_schema: String,
}

/// The content of a tool definition.
pub open spec fn definition_view(d: ToolDefinition) -> (Seq<char>, Seq<char>, Seq<char>) {
    (d.name@, d.description@, d.input_schema@)
}

/// The contents of a list of tool definitions.
pub open spec fn definition_views(v: Seq<ToolDefinition>) -> Seq<(Seq<char>, Seq<char>, Seq<char>)> {
    v.map_values(|d: ToolDefinition| definition_view(d))
}

/// The tools offered to the model, in order.
pub open spec fn tool_registry() -> Seq<(Seq<char>, Seq<char>, Seq<char>)> {
    seq![
        ("prepare_project"@, PREPARE_PROJECT_DESCRIPTION@, PREPARE_PROJECT_SCHEMA@),
        ("list_directory"@, LIST_DIRECTORY_DESCRIPTION@, LIST_DIRECTORY_SCHEMA@),
        ("read_file"@, READ_FILE_DESCRIPTION@, READ_FILE_SCHEMA@),
        ("list_tools"@, LIST_TOOLS_DESCRIPTION@, NO_INPUT_SCHEMA@),
        ("list_project"@, LIST_PROJECT_DESCRIPTION@, NO_INPUT_SCHEMA@),
    ]
}

/// One tool definition.
fn definition(name: &str, description: &str, input_schema: &str) -> (result: ToolDefinition)
    ensures
        definition_view(result) == (name@, description@, input_schema@),
{
    ToolDefinition {
        name: crate::text::owned(name),
        description: crate::text::owned(description),
        input_schema: crate::text::owned(input_schema),
    }
}

/// The definitions of the workspace tools, as offered to the model.
pub fn definitions() -> (result: Vec<ToolDefinition>)
    ensures
        definition_views(result@) == tool_registry(),
{
    let mut tools: Vec<ToolDefinition> = Vec::new();
    tools.push(definition("prepare_project", PREPARE_PROJECT_DESCRIPTION, PREPARE_PROJECT_SCHEMA));
    tools.push(definition("list_directory", LIST_DIRECTORY_DESCRIPTION, LIST_DIRECTORY_SCHEMA));
    tools.push(definition("read_file", READ_FILE_DESCRIPTION, READ_FILE_SCHEMA));
    tools.push(definition("list_tools", LIST_TOOLS_DESCRIPTION, NO_INPUT_SCHEMA));
    tools.push(definition("list_project", LIST_PROJECT_DESCRIPTION, NO_INPUT_SCHEMA));
    assert(definition_views(tools@) =~= tool_registry());
    tools
}

/// The tools offered to the model are exactly the tools a call can name:
/// each offered name is dispatched to a tool, and each tool is offered
/// under its own name.
pub proof fn law_offered_tools_are_the_dispatched_tools(kind: ToolKind)
    ensures
        forall|i: int| 0 <= i < tool_registry().len() ==> (#[trigger] tool_of(tool_registry()[i].0)) is Some,
        exists|i: int| 0 <= i < tool_registry().len() && #[trigger] tool_of(tool_registry()[i].0) == Some(kind),
{
    reveal_strlit("prepare_project");
    reveal_strlit("list_directory");
    reveal_strlit("read_file");
    reveal_strlit("list_tools");
    reveal_strlit("list_project");
    assert("prepare_project"@.len() == 15);
    assert("list_directory"@.len() == 14);
    assert("read_file"@.len() == 9);
    assert("list_tools"@.len() == 10);
    assert("list_project"@.len() == 12);
    let r = tool_registry();
    assert(tool_of(r[0].0) == Some(ToolKind::PrepareProject));
    assert(tool_of(r[1].0) == Some(ToolKind::ListDirectory));
    assert(tool_of(r[2].0) == Some(ToolKind::ReadFile));
    assert(tool_of(r[3].0) == Some(ToolKind::ListTools));
    assert(tool_of(r[4].0) == Some(ToolKind::ListProject));
}

/// The Git paths whose presence means an operation is in progress, which
/// blocks registration like uncommitted changes do.
pub open spec fn operation_markers() -> Seq<Seq<char>> {
    seq!["MERGE_HEAD"@, "CHERRY_PICK_HEAD"@, "REVERT_HEAD"@, "REBASE_HEAD"@, "BISECT_LOG"@, "rebase-apply"@, "rebase-merge"@]
}

/// The Git paths to look for before registration.
pub fn in_progress_markers() -> (result: Vec<&'static str>)
    ensures
        result@.map_values(|m: &'static str| m@) == operation_markers(),
{
    let mut v: Vec<&'static str> = Vec::new();
    v.push("MERGE_HEAD");
    v.push("CHERRY_PICK_HEAD");
    v.push("REVERT_HEAD");
    v.push("REBASE_HEAD");
    v.push("BISECT_LOG");
    v.push("rebase-apply");
    v.push("rebase-merge");
    assert(v@.map_values(|m: &'static str| m@) =~= operation_markers());
    v
}

// ----------------------------------------------------------------------------
// Tool inputs
// ----------------------------------------------------------------------------

/// One member of a tool's JSON input object: its key, whether its value is
/// `null`, and its text when the value is a string.
#[derive(Debug)]
pub struct JsonField {
    pub key: String,
    pub is_null: bool,
    pub text: Option<String>,
}

/// [`JsonField`] in specifications.
pub struct JsonFieldView {
    pub key: Seq<char>,
    pub is_null: bool,
    pub text: Option<Seq<char>>,
}

impl View for JsonField {
    type V = JsonFieldView;

    open spec fn view(&self) -> JsonFieldView {
        JsonFieldView {
            key: self.key@,
            is_null: self.is_null,
            text: match self.text {
                Some(t) => Some(t@),
                None => None,
            },
        }
    }
}

/// The views of the members.
pub open spec fn field_views(fields: Seq<JsonField>) -> Seq<JsonFieldView> {
    fields.map_values(|f: JsonField| f@)
}

/// The member with key `key`, the first if several share it.
pub open spec fn field_at(fields: Seq<JsonFieldView>, key: Seq<char>) -> Option<JsonFieldView>
    decreases fields.len(),
{
    if fields.len() == 0 {
        None
    } else if fields[0].key == key {
        Some(fields[0])
    } else {
        field_at(fields.drop_first(), key)
    }
}

/// The path of an input that holds a string `path` and nothing else.
pub open spec fn path_only(fields: Seq<JsonFieldView>) -> Option<Seq<char>> {
    if fields.len() == 1 && fields[0].key == "path"@ {
        fields[0].text
    } else {
        None
    }
}

/// The keys of `prepare_project`'s section update.
pub open spec fn section_key(key: Seq<char>) -> bool {
    key == "section_name"@ || key == "text"@ || key == "operation"@
}

/// The keys `prepare_project` accepts.
pub open spec fn prepare_key(key: Seq<char>) -> bool {
    key == "path"@ || section_key(key)
}

/// An optional string member: absent, a string, or (`Err`) anything else.
pub open spec fn text_member(fields: Seq<JsonFieldView>, key: Seq<char>) -> Result<Option<Seq<char>>, ()> {
    match field_at(fields, key) {
        None => Ok(None),
        Some(f) => match f.text {
            Some(t) => Ok(Some(t)),
            None => Err(()),
        },
    }
}

/// What `prepare_project` reads from its input: a section member that is
/// `null` is an invalid section update; an unknown key, a missing or
/// non-string `path`, or a section member that is not a string is an
/// invalid path; otherwise the path and the section update.
pub open spec fn prepare_input_of(fields: Seq<JsonFieldView>) -> Result<
    (Seq<char>, Option<Seq<char>>, Option<Seq<char>>, Option<Seq<char>>),
    BlockedReason,
> {
    if exists|i: int| 0 <= i < fields.len() && section_key(#[trigger] fields[i].key) && fields[i].is_null {
        Err(BlockedReason::InvalidSectionUpdate)
    } else if exists|i: int| 0 <= i < fields.len() && !prepare_key(#[trigger] fields[i].key) {
        Err(BlockedReason::InvalidPath)
    } else {
        match (
            text_member(fields, "path"@),
            text_member(fields, "section_name"@),
            text_member(fields, "text"@),
            text_member(fields, "operation"@),
        ) {
            (Ok(Some(path)), Ok(name), Ok(text), Ok(operation)) => Ok((path, name, text, operation)),
            _ => Err(BlockedReason::InvalidPath),
        }
    }
}

/// The view of a section update.
pub open spec fn update_view(u: SectionUpdate) -> (Option<Seq<char>>, Option<Seq<char>>, Option<Seq<char>>) {
    (
        match u.section_name {
            Some(t) => Some(t@),
            None => None,
        },
        match u.text {
            Some(t) => Some(t@),
            None => None,
        },
        match u.operation {
            Some(t) => Some(t@),
            None => None,
        },
    )
}

fn find_field(fields: &Vec<JsonField>, key: &str) -> (result: Option<usize>)
    ensures
        match result {
            Some(i) => i < fields@.len() && field_at(field_views(fields@), key@) == Some(fields@[i as int]@),
            None => field_at(field_views(fields@), key@) is None,
        },
{
    let ghost fs = field_views(fields@);
    let mut i: usize = 0;
    assert(fs.skip(0) =~= fs);
    while i < fields.len()
        invariant
            fs == field_views(fields@),
            i <= fields@.len(),
            field_at(fs, key@) == field_at(fs.skip(i as int), key@),
        decreases fields.len() - i,
    {
        let k = to_chars(fields[i].key.as_str());
        assert(fs.skip(i as int)[0] == fields@[i as int]@);
        if str_equals(&k, key) {
            return Some(i);
        }
        assert(fs.skip(i as int).drop_first() =~= fs.skip(i + 1));
        i = i + 1;
    }
    assert(fs.skip(i as int).len() == 0);
    None
}

fn copy_text(t: &Option<String>) -> (result: Option<String>)
    ensures
        result == *t,
{
    match t {
        Some(s) => Some(s.clone()),
        None => None,
    }
}

fn member_text(fields: &Vec<JsonField>, key: &str) -> (result: Result<Option<String>, ()>)
    ensures
        match result {
            Ok(Some(t)) => text_member(field_views(fields@), key@) == Ok::<Option<Seq<char>>, ()>(Some(t@)),
            Ok(None) => text_member(field_views(fields@), key@) == Ok::<Option<Seq<char>>, ()>(None),
            Err(()) => text_member(field_views(fields@), key@) is Err,
        },
{
    match find_field(fields, key) {
        None => Ok(None),
        Some(i) => match copy_text(&fields[i].text) {
            Some(t) => Ok(Some(t)),
            None => Err(()),
        },
    }
}

/// The path of a `list_directory` or `read_file` input: a string `path`
/// and nothing else.
pub fn only_path_argument(fields: &Vec<JsonField>) -> (result: Option<String>)
    ensures
        match result {
            Some(t) => path_only(field_views(fields@)) == Some(t@),
            None => path_only(field_views(fields@)) is None,
        },
{
    if fields.len() != 1 {
        return None;
    }
    let k = to_chars(fields[0].key.as_str());
    if !str_equals(&k, "path") {
        return None;
    }
    copy_text(&fields[0].text)
}

/// What `prepare_project` reads from the members of its input.
pub fn prepare_arguments(fields: &Vec<JsonField>) -> (result: Result<(String, SectionUpdate), BlockedReason>)
    ensures
        match result {
            Ok((path, update)) => prepare_input_of(field_views(fields@)) == Ok::<_, BlockedReason>(
                (path@, update_view(update).0, update_view(update).1, update_view(update).2),
            ),
            Err(e) => prepare_input_of(field_views(fields@)) == Err::<
                (Seq<char>, Option<Seq<char>>, Option<Seq<char>>, Option<Seq<char>>),
                BlockedReason,
            >(e),
        },
{
    let ghost fs = field_views(fields@);
    let mut i: usize = 0;
    while i < fields.len()
        invariant
            fs == field_views(fields@),
            i <= fields@.len(),
            forall|j: int| 0 <= j < i ==> !(section_key(#[trigger] fs[j].key) && fs[j].is_null),
        decreases fields.len() - i,
    {
        let k = to_chars(fields[i].key.as_str());
        assert(fs[i as int] == fields@[i as int]@);
        if fields[i].is_null && (str_equals(&k, "section_name") || str_equals(&k, "text") || str_equals(&k, "operation")) {
            assert(section_key(fs[i as int].key) && fs[i as int].is_null);
            return Err(BlockedReason::InvalidSectionUpdate);
        }
        i = i + 1;
    }
    let mut j: usize = 0;
    while j < fields.len()
        invariant
            fs == field_views(fields@),
            j <= fields@.len(),
            forall|m: int| 0 <= m < fields@.len() ==> !(section_key(#[trigger] fs[m].key) && fs[m].is_null),
            forall|m: int| 0 <= m < j ==> prepare_key(#[trigger] fs[m].key),
        decreases fields.len() - j,
    {
        let k = to_chars(fields[j].key.as_str());
        assert(fs[j as int] == fields@[j as int]@);
        if !(str_equals(&k, "path") || str_equals(&k, "section_name") || str_equals(&k, "text") || str_equals(&k, "operation")) {
            assert(!prepare_key(fs[j as int].key));
            return Err(BlockedReason::InvalidPath);
        }
        j = j + 1;
    }
    let path = match member_text(fields, "path") {
        Ok(Some(p)) => p,
        _ => {
            return Err(BlockedReason::InvalidPath);
        },
    };
    let section_name = match member_text(fields, "section_name") {
        Ok(t) => t,
        Err(()) => {
            return Err(BlockedReason::InvalidPath);
        },
    };
    let text = match member_text(fields, "text") {
        Ok(t) => t,
        Err(()) => {
            return Err(BlockedReason::InvalidPath);
        },
    };
    let operation = match member_text(fields, "operation") {
        Ok(t) => t,
        Err(()) => {
            return Err(BlockedReason::InvalidPath);
        },
    };
    Ok((path, SectionUpdate { section_name, text, operation }))
}

/// The members of the JSON object `json`, in the order `serde_json` keeps
/// them; none when `json` does not parse or is not an object.
pub uninterp spec fn json_object_fields_of(json: Seq<char>) -> Option<Seq<JsonFieldView>>;

/// Parses `json` with `serde_json` and lists the members of the object it
/// holds (`Value::as_object`, then per member `Value::is_null` and
/// `Value::as_str`): the named members of `json`.
#[verifier::external_body]
fn json_object_fields(json: &str) -> (result: Option<Vec<JsonField>>)
    ensures
        match result {
            Some(fields) => json_object_fields_of(json@) == Some(field_views(fields@)),
            None => json_object_fields_of(json@) is None,
        },
{
    let value: serde_json::Value = serde_json::from_str(json).ok()?;
    let object = value.as_object()?;
    let field = |(key, v): (&String, &serde_json::Value)| JsonField { key: key.clone(), is_null: v.is_null(), text: v.as_str().map(String::from) };
    Some(object.iter().map(field).collect())
}

/// The path a `list_directory` or `read_file` call asks for: its input must
/// be an object holding a string `path` and nothing else.
pub fn tool_path_argument(arguments: &str) -> (result: Option<String>)
    ensures
        match json_object_fields_of(arguments@) {
            None => result is None,
            Some(fs) => match result {
                Some(t) => path_only(fs) == Some(t@),
                None => path_only(fs) is None,
            },
        },
{
    match json_object_fields(arguments) {
        None => None,
        Some(fields) => only_path_argument(&fields),
    }
}

/// Whether a call's input is an empty object, as `list_tools` and
/// `list_project` ask.
pub fn tool_input_is_empty(arguments: &str) -> (result: bool)
    ensures
        result == (json_object_fields_of(arguments@) matches Some(fs) && fs.len() == 0),
{
    match json_object_fields(arguments) {
        None => false,
        Some(fields) => fields.len() == 0,
    }
}

/// What a `prepare_project` call asks for: input that is not an object is
/// an invalid path; an object is read by [`prepare_arguments`].
pub fn tool_prepare_arguments(arguments: &str) -> (result: Result<(String, SectionUpdate), BlockedReason>)
    ensures
        match json_object_fields_of(arguments@) {
            None => result == Err::<(String, SectionUpdate), BlockedReason>(BlockedReason::InvalidPath),
            Some(fs) => match result {
                Ok((path, update)) => prepare_input_of(fs) == Ok::<_, BlockedReason>(
                    (path@, update_view(update).0, update_view(update).1, update_view(update).2),
                ),
                Err(e) => prepare_input_of(fs) == Err::<
                    (Seq<char>, Option<Seq<char>>, Option<Seq<char>>, Option<Seq<char>>),
                    BlockedReason,
                >(e),
            },
        },
{
    match json_object_fields(arguments) {
        None => Err(BlockedReason::InvalidPath),
        Some(fields) => prepare_arguments(&fields),
    }
}

} // verus!
