//! Read-only Git metadata: the decisions taken on what Git reports.
//!
//! Running `git` is I/O and stays with the caller; the functions here take
//! the command outputs as values.

use vstd::prelude::*;
use crate::text::{from_chars, is_blank, push_str, str_blank, strs, trim, trimmed, contains_string};
use crate::order::{sorted_unique, strictly_increasing};
use crate::inventory::{byte_views, decode_lossy, lossy_utf8, split_at_nul, split_nul};

verus! {

/// Read-only metadata required to register a Git working tree.
#[derive(Debug, Clone, PartialEq, Eq)]
pub struct RepositoryMetadata {
    pub root: String,
    pub branch: Option<String>,
    pub head_commit: Option<String>,
}

/// A safe Git command failure.
#[derive(Debug, Clone, PartialEq, Eq)]
pub enum GitError {
    Command { path: String, message: String },
}

/// The text of a [`GitError`].
pub open spec fn git_error_text(path: Seq<char>, message: Seq<char>) -> Seq<char> {
    "Git could not inspect "@ + path + ": "@ + message
}

impl GitError {
    /// The user-facing description of the failure.
    pub fn message(&self) -> (result: String)
        ensures
            match self {
                GitError::Command { path, message } => result@ == git_error_text(path@, message@),
            },
    {
        match self {
            GitError::Command { path, message } => {
                let mut out: Vec<char> = Vec::new();
                push_str(&mut out, "Git could not inspect ");
                push_str(&mut out, path.as_str());
                push_str(&mut out, ": ");
                push_str(&mut out, message.as_str());
                from_chars(out.as_slice())
            },
        }
    }
}

/// What an optional Git query yields: nothing on failure or blank output,
/// else the trimmed output.
pub open spec fn optional_value(output: Result<String, GitError>) -> Option<Seq<char>> {
    match output {
        Ok(value) => if is_blank(value@) {
            None
        } else {
            Some(trim(value@))
        },
        Err(_) => None,
    }
}

/// Interprets the output of an optional Git query; a failure is not an error.
pub fn optional(output: Result<String, GitError>) -> (result: Result<Option<String>, GitError>)
    ensures
        result is Ok,
        match result {
            Ok(Some(v)) => optional_value(output) == Some(v@),
            Ok(None) => optional_value(output) is None,
            Err(_) => false,
        },
{
    match output {
        Ok(value) => {
            if str_blank(value.as_str()) {
                Ok(None)
            } else {
                Ok(Some(trimmed(value.as_str())))
            }
        },
        Err(_) => Ok(None),
    }
}

/// The first step of reading repository metadata: the top-level directory
/// from the output of `git rev-parse --show-toplevel`, trimmed, in which
/// the branch and head queries are then run; a failure of the query is the
/// result, and then no other query is run.
pub fn metadata_root(root_output: Result<String, GitError>) -> (result: Result<String, GitError>)
    ensures
        match root_output {
            Err(e) => result == Err::<String, GitError>(e),
            Ok(root) => result matches Ok(r) && r@ == trim(root@),
        },
{
    match root_output {
        Ok(root) => Ok(trimmed(root.as_str())),
        Err(e) => Err(e),
    }
}

/// The second step: the metadata of the repository at `root` from the
/// outputs of `git branch --show-current` and `git rev-parse HEAD` run
/// there, both optional.
pub fn metadata_at(
    root: String,
    branch_output: Result<String, GitError>,
    head_output: Result<String, GitError>,
) -> (m: RepositoryMetadata)
    ensures
        m.root == root,
        match m.branch {
            Some(b) => optional_value(branch_output) == Some(b@),
            None => optional_value(branch_output) is None,
        },
        match m.head_commit {
            Some(h) => optional_value(head_output) == Some(h@),
            None => optional_value(head_output) is None,
        },
{
    let branch = match optional(branch_output) {
        Ok(b) => b,
        Err(_) => None,
    };
    let head_commit = match optional(head_output) {
        Ok(h) => h,
        Err(_) => None,
    };
    RepositoryMetadata { root, branch, head_commit }
}

/// Repository metadata from the outputs of `git rev-parse --show-toplevel`,
/// `git branch --show-current` and `git rev-parse HEAD`, as
/// [`metadata_root`] and then [`metadata_at`] read them: the first failure
/// of the top-level query is the result; the other two are optional.  A
/// caller that runs the queries in turn calls those two steps, so that the
/// branch and head are asked only in the top-level directory found.
pub fn metadata(
    root_output: Result<String, GitError>,
    branch_output: Result<String, GitError>,
    head_output: Result<String, GitError>,
) -> (result: Result<RepositoryMetadata, GitError>)
    ensures
        match root_output {
            Err(e) => result == Err::<RepositoryMetadata, GitError>(e),
            Ok(root) => match result {
                Ok(m) => {
                    &&& m.root@ == trim(root@)
                    &&& match m.branch {
                        Some(b) => optional_value(branch_output) == Some(b@),
                        None => optional_value(branch_output) is None,
                    }
                    &&& match m.head_commit {
                        Some(h) => optional_value(head_output) == Some(h@),
                        None => optional_value(head_output) is None,
                    }
                },
                Err(_) => false,
            },
        },
{
    match metadata_root(root_output) {
        Err(e) => Err(e),
        Ok(root) => Ok(metadata_at(root, branch_output, head_output)),
    }
}

/// How a path was carried from another path.
#[derive(Debug, Clone, Copy, PartialEq, Eq)]
pub enum PathRelationshipKind {
    Renamed,
    Copied,
}

/// A rename or copy reported by Git.
#[derive(Debug, Clone, PartialEq, Eq)]
pub struct PathRelationship {
    pub kind: PathRelationshipKind,
    pub source: String,
    pub target: String,
}

/// The paths that a working-tree status names, grouped by state.
#[derive(Debug, Clone, PartialEq, Eq, Default)]
pub struct WorkingTreeStatus {
    pub committed_paths: Vec<String>,
    pub added_paths: Vec<String>,
    pub modified_paths: Vec<String>,
    pub untracked_paths: Vec<String>,
    pub staged_paths: Vec<String>,
    pub unstaged_paths: Vec<String>,
    pub deleted_paths: Vec<String>,
    pub conflicted_paths: Vec<String>,
    pub relationships: Vec<PathRelationship>,
}

/// The items of `items` that `keep` holds, in their order.
pub open spec fn keep_members(items: Seq<Seq<char>>, keep: Seq<Seq<char>>) -> Seq<Seq<char>>
    decreases items.len(),
{
    if items.len() == 0 {
        Seq::<Seq<char>>::empty()
    } else {
        let prev = keep_members(items.drop_last(), keep);
        if keep.contains(items.last()) {
            prev.push(items.last())
        } else {
            prev
        }
    }
}

/// The relationships with an endpoint in `keep`, in their order.
pub open spec fn keep_relationships(
    items: Seq<PathRelationship>,
    keep: Seq<Seq<char>>,
) -> Seq<PathRelationship>
    decreases items.len(),
{
    if items.len() == 0 {
        Seq::<PathRelationship>::empty()
    } else {
        let prev = keep_relationships(items.drop_last(), keep);
        let r = items.last();
        if keep.contains(r.source@) || keep.contains(r.target@) {
            prev.push(r)
        } else {
            prev
        }
    }
}

fn filter_paths(items: &Vec<String>, keep: &Vec<String>) -> (result: Vec<String>)
    ensures
        strs(result@) == keep_members(strs(items@), strs(keep@)),
{
    let mut result: Vec<String> = Vec::new();
    let mut i: usize = 0;
    while i < items.len()
        invariant
            i <= items.len(),
            strs(result@) == keep_members(strs(items@).take(i as int), strs(keep@)),
        decreases items.len() - i,
    {
        let ghost before = result@;
        proof {
            assert(strs(items@).take(i + 1).drop_last() =~= strs(items@).take(i as int));
            assert(strs(items@).take(i + 1).last() == items@[i as int]@);
        }
        if contains_string(keep, &items[i]) {
            result.push(items[i].clone());
            assert(strs(result@) =~= strs(before).push(items@[i as int]@));
        }
        i = i + 1;
    }
    assert(strs(items@).take(i as int) =~= strs(items@));
    result
}

fn copy_relationship(r: &PathRelationship) -> (result: PathRelationship)
    ensures
        result.kind == r.kind,
        result.source@ == r.source@,
        result.target@ == r.target@,
{
    PathRelationship { kind: r.kind, source: r.source.clone(), target: r.target.clone() }
}

/// Two relationships name the same kind and paths.
pub open spec fn same_relationship(a: PathRelationship, b: PathRelationship) -> bool {
    a.kind == b.kind && a.source@ == b.source@ && a.target@ == b.target@
}

/// Element-wise [`same_relationship`].
pub open spec fn same_relationships(a: Seq<PathRelationship>, b: Seq<PathRelationship>) -> bool {
    a.len() == b.len() && forall|i: int| 0 <= i < a.len() ==> same_relationship(
        #[trigger] a[i],
        b[i],
    )
}

fn filter_relationships(items: &Vec<PathRelationship>, keep: &Vec<String>) -> (result: Vec<
    PathRelationship,
>)
    ensures
        same_relationships(result@, keep_relationships(items@, strs(keep@))),
{
    let mut result: Vec<PathRelationship> = Vec::new();
    let mut i: usize = 0;
    while i < items.len()
        invariant
            i <= items.len(),
            same_relationships(result@, keep_relationships(items@.take(i as int), strs(keep@))),
        decreases items.len() - i,
    {
        let ghost before = result@;
        proof {
            assert(items@.take(i + 1).drop_last() =~= items@.take(i as int));
            assert(items@.take(i + 1).last() == items@[i as int]);
        }
        let r = &items[i];
        if contains_string(keep, &r.source) || contains_string(keep, &r.target) {
            result.push(copy_relationship(r));
        }
        i = i + 1;
    }
    assert(items@.take(i as int) =~= items@);
    result
}

/// `filtered` keeps, in every group, exactly the paths that `paths` holds,
/// and the relationships with an endpoint there.
pub open spec fn is_filtered_status(
    status: WorkingTreeStatus,
    paths: Seq<Seq<char>>,
    filtered: WorkingTreeStatus,
) -> bool {
    &&& strs(filtered.committed_paths@) == keep_members(strs(status.committed_paths@), paths)
    &&& strs(filtered.added_paths@) == keep_members(strs(status.added_paths@), paths)
    &&& strs(filtered.modified_paths@) == keep_members(strs(status.modified_paths@), paths)
    &&& strs(filtered.untracked_paths@) == keep_members(strs(status.untracked_paths@), paths)
    &&& strs(filtered.staged_paths@) == keep_members(strs(status.staged_paths@), paths)
    &&& strs(filtered.unstaged_paths@) == keep_members(strs(status.unstaged_paths@), paths)
    &&& strs(filtered.deleted_paths@) == keep_members(strs(status.deleted_paths@), paths)
    &&& strs(filtered.conflicted_paths@) == keep_members(strs(status.conflicted_paths@), paths)
    &&& same_relationships(
        filtered.relationships@,
        keep_relationships(status.relationships@, paths),
    )
}

/// The status restricted to `paths`.
pub fn filter_status(status: &WorkingTreeStatus, paths: &Vec<String>) -> (result:
    WorkingTreeStatus)
    ensures
        is_filtered_status(*status, strs(paths@), result),
{
    WorkingTreeStatus {
        committed_paths: filter_paths(&status.committed_paths, paths),
        added_paths: filter_paths(&status.added_paths, paths),
        modified_paths: filter_paths(&status.modified_paths, paths),
        untracked_paths: filter_paths(&status.untracked_paths, paths),
        staged_paths: filter_paths(&status.staged_paths, paths),
        unstaged_paths: filter_paths(&status.unstaged_paths, paths),
        deleted_paths: filter_paths(&status.deleted_paths, paths),
        conflicted_paths: filter_paths(&status.conflicted_paths, paths),
        relationships: filter_relationships(&status.relationships, paths),
    }
}


/// The fingerprint the first pair for `p` records, if any.
pub open spec fn fingerprint_of(prints: Seq<(String, String)>, p: Seq<char>) -> Option<Seq<char>>
    decreases prints.len(),
{
    if prints.len() == 0 {
        None
    } else if prints[0].0@ == p {
        Some(prints[0].1@)
    } else {
        fingerprint_of(prints.drop_first(), p)
    }
}

/// Looks up the fingerprint recorded for `p`.
fn find_fingerprint(prints: &Vec<(String, String)>, p: &String) -> (result: Option<String>)
    ensures
        match result {
            Some(f) => fingerprint_of(prints@, p@) == Some(f@),
            None => fingerprint_of(prints@, p@) is None,
        },
{
    let mut i: usize = 0;
    assert(prints@.skip(0) =~= prints@);
    while i < prints.len()
        invariant
            i <= prints.len(),
            fingerprint_of(prints@, p@) == fingerprint_of(prints@.skip(i as int), p@),
        decreases prints.len() - i,
    {
        assert(prints@.skip(i as int)[0] == prints@[i as int]);
        assert(prints@.skip(i as int).drop_first() =~= prints@.skip(i + 1));
        let key = crate::text::to_chars(prints[i].0.as_str());
        let wanted = crate::text::to_chars(p.as_str());
        if crate::text::chars_equal(&key, &wanted) {
            return Some(prints[i].1.clone());
        }
        i = i + 1;
    }
    None
}

/// Whether a path of the compared status is missing from the working
/// tree: it does not exist, was deleted, or was renamed or copied away.
pub open spec fn path_missing(present: bool, status: WorkingTreeStatus, p: Seq<char>) -> bool {
    ||| !present
    ||| strs(status.deleted_paths@).contains(p)
    ||| exists|i: int| 0 <= i < status.relationships@.len() && #[trigger] status.relationships@[i].source@ == p
}

/// Decides whether `path`, present on disk or not, is missing from the
/// working tree of `status`.
pub fn working_tree_path_is_missing(present: bool, status: &WorkingTreeStatus, path: &String) -> (result: bool)
    ensures
        result == path_missing(present, *status, path@),
{
    if !present || contains_string(&status.deleted_paths, path) {
        return true;
    }
    let wanted = crate::text::to_chars(path.as_str());
    let mut i: usize = 0;
    while i < status.relationships.len()
        invariant
            i <= status.relationships.len(),
            wanted@ == path@,
            forall|k: int| 0 <= k < i ==> #[trigger] status.relationships@[k].source@ != path@,
        decreases status.relationships.len() - i,
    {
        let source = crate::text::to_chars(status.relationships[i].source.as_str());
        if crate::text::chars_equal(&source, &wanted) {
            return true;
        }
        i = i + 1;
    }
    false
}

/// Whether `p` changed since the approved baseline: a path of the current
/// scope that the baseline did not name, that was committed since, that
/// is missing, or whose fingerprint differs; or a path the baseline held
/// untracked, with a fingerprint, that has left the scope.
pub open spec fn changed_since(
    p: Seq<char>,
    current: Seq<Seq<char>>,
    baseline_paths: Seq<Seq<char>>,
    committed: Seq<Seq<char>>,
    missing: Seq<Seq<char>>,
    baseline_prints: Seq<(String, String)>,
    current_prints: Seq<(String, String)>,
    baseline_untracked: Seq<Seq<char>>,
) -> bool {
    ||| current.contains(p) && (!baseline_paths.contains(p) || committed.contains(p) || missing.contains(p)
        || fingerprint_of(baseline_prints, p) != fingerprint_of(current_prints, p))
    ||| fingerprint_of(baseline_prints, p) is Some && baseline_untracked.contains(p) && !current.contains(p)
}

/// [`changed_since`] over the lists of strings it is given as.
pub open spec fn changed_in(
    current: Seq<String>,
    baseline_paths: Seq<String>,
    committed: Seq<String>,
    missing: Seq<String>,
    baseline_prints: Seq<(String, String)>,
    current_prints: Seq<(String, String)>,
    baseline_untracked: Seq<String>,
    p: Seq<char>,
) -> bool {
    changed_since(
        p,
        strs(current),
        strs(baseline_paths),
        strs(committed),
        strs(missing),
        baseline_prints,
        current_prints,
        strs(baseline_untracked),
    )
}

proof fn lemma_first_key_recorded(prints: Seq<(String, String)>, i: int)
    requires
        0 <= i < prints.len(),
    ensures
        fingerprint_of(prints, prints[i].0@) is Some,
    decreases i,
{
    if i > 0 && prints[0].0@ != prints[i].0@ {
        lemma_first_key_recorded(prints.drop_first(), i - 1);
    }
}

proof fn lemma_recorded_key(prints: Seq<(String, String)>, p: Seq<char>)
    requires
        fingerprint_of(prints, p) is Some,
    ensures
        exists|i: int| 0 <= i < prints.len() && #[trigger] prints[i].0@ == p,
    decreases prints.len(),
{
    if prints[0].0@ != p {
        lemma_recorded_key(prints.drop_first(), p);
        let i = choose|i: int| 0 <= i < prints.drop_first().len() && #[trigger] prints.drop_first()[i].0@ == p;
        assert(prints[i + 1].0@ == p);
    }
}

/// The paths that changed since the approved baseline, in ascending order
/// and each once (`status_since_baseline` then keeps only these).
pub fn changed_since_baseline(
    current: &Vec<String>,
    baseline_paths: &Vec<String>,
    committed: &Vec<String>,
    missing: &Vec<String>,
    baseline_prints: &Vec<(String, String)>,
    current_prints: &Vec<(String, String)>,
    baseline_untracked: &Vec<String>,
) -> (changed: Vec<String>)
    ensures
        strictly_increasing(strs(changed@)),
        forall|p: Seq<char>|
            strs(changed@).contains(p) == changed_since(
                p,
                strs(current@),
                strs(baseline_paths@),
                strs(committed@),
                strs(missing@),
                baseline_prints@,
                current_prints@,
                strs(baseline_untracked@),
            ),
{
    let ghost cur = current@;
    let ghost base = baseline_paths@;
    let ghost com = committed@;
    let ghost mis = missing@;
    let ghost bp = baseline_prints@;
    let ghost cp = current_prints@;
    let ghost unt = baseline_untracked@;
    let mut found: Vec<String> = Vec::new();
    let mut i: usize = 0;
    while i < current.len()
        invariant
            i <= current.len(),
            cur == current@ && base == baseline_paths@ && com == committed@ && mis == missing@,
            bp == baseline_prints@ && cp == current_prints@ && unt == baseline_untracked@,
            forall|x: Seq<char>| #[trigger] strs(found@).contains(x) ==> changed_in(cur, base, com, mis, bp, cp, unt, x),
            forall|k: int| 0 <= k < i && changed_in(cur, base, com, mis, bp, cp, unt, #[trigger] cur[k]@) ==> strs(found@).contains(cur[k]@),
        decreases current.len() - i,
    {
        let p = &current[i];
        let before = find_fingerprint(baseline_prints, p);
        let now = find_fingerprint(current_prints, p);
        let differs = match (&before, &now) {
            (Some(a), Some(b)) => {
                let x = crate::text::to_chars(a.as_str());
                let y = crate::text::to_chars(b.as_str());
                !crate::text::chars_equal(&x, &y)
            },
            (None, None) => false,
            _ => true,
        };
        assert(differs == (fingerprint_of(bp, p@) != fingerprint_of(cp, p@)));
        assert(strs(cur)[i as int] == p@);
        assert(strs(cur).contains(p@));
        let keep = !contains_string(baseline_paths, p) || contains_string(committed, p)
            || contains_string(missing, p) || differs;
        assert(keep == changed_in(cur, base, com, mis, bp, cp, unt, p@));
        let ghost old_found = strs(found@);
        if keep {
            found.push(p.clone());
            assert(strs(found@) =~= old_found.push(p@));
            assert(strs(found@)[old_found.len() as int] == p@);
        }
        assert forall|x: Seq<char>| old_found.contains(x) implies #[trigger] strs(found@).contains(x) by {
            let k = choose|k: int| 0 <= k < old_found.len() && old_found[k] == x;
            assert(strs(found@)[k] == x);
        }
        assert forall|x: Seq<char>| #[trigger] strs(found@).contains(x) implies changed_in(cur, base, com, mis, bp, cp, unt, x) by {
            let k = choose|k: int| 0 <= k < strs(found@).len() && strs(found@)[k] == x;
            if k < old_found.len() {
                assert(old_found[k] == x);
                assert(old_found.contains(x));
            }
        }
        i = i + 1;
    }
    let mut j: usize = 0;
    while j < baseline_prints.len()
        invariant
            j <= baseline_prints.len(),
            i == current.len(),
            cur == current@ && base == baseline_paths@ && com == committed@ && mis == missing@,
            bp == baseline_prints@ && cp == current_prints@ && unt == baseline_untracked@,
            forall|x: Seq<char>| #[trigger] strs(found@).contains(x) ==> changed_in(cur, base, com, mis, bp, cp, unt, x),
            forall|k: int| 0 <= k < cur.len() && changed_in(cur, base, com, mis, bp, cp, unt, #[trigger] cur[k]@) ==> strs(found@).contains(cur[k]@),
            forall|k: int| 0 <= k < j && changed_in(cur, base, com, mis, bp, cp, unt, #[trigger] bp[k].0@) ==> strs(found@).contains(bp[k].0@),
        decreases baseline_prints.len() - j,
    {
        let p = &baseline_prints[j].0;
        proof { lemma_first_key_recorded(bp, j as int); }
        let keep = contains_string(baseline_untracked, p) && !contains_string(current, p);
        assert(!strs(cur).contains(p@) ==> (keep == changed_in(cur, base, com, mis, bp, cp, unt, p@)));
        assert(strs(cur).contains(p@) ==> !keep);
        let ghost old_found = strs(found@);
        if keep {
            found.push(p.clone());
            assert(strs(found@) =~= old_found.push(p@));
            assert(strs(found@)[old_found.len() as int] == p@);
        }
        assert forall|x: Seq<char>| old_found.contains(x) implies #[trigger] strs(found@).contains(x) by {
            let k = choose|k: int| 0 <= k < old_found.len() && old_found[k] == x;
            assert(strs(found@)[k] == x);
        }
        assert forall|x: Seq<char>| #[trigger] strs(found@).contains(x) implies changed_in(cur, base, com, mis, bp, cp, unt, x) by {
            let k = choose|k: int| 0 <= k < strs(found@).len() && strs(found@)[k] == x;
            if k < old_found.len() {
                assert(old_found[k] == x);
                assert(old_found.contains(x));
            }
        }
        proof {
            if strs(cur).contains(p@) && changed_in(cur, base, com, mis, bp, cp, unt, p@) {
                let k = choose|k: int| 0 <= k < strs(cur).len() && strs(cur)[k] == p@;
                assert(cur[k]@ == p@);
                assert(strs(found@).contains(cur[k]@));
            }
        }
        j = j + 1;
    }
    let ghost all = strs(found@);
    let changed = sorted_unique(found);
    proof {
        assert forall|x: Seq<char>| strs(changed@).contains(x) == changed_in(cur, base, com, mis, bp, cp, unt, x) by {
            if changed_in(cur, base, com, mis, bp, cp, unt, x) {
                if strs(cur).contains(x) {
                    let k = choose|k: int| 0 <= k < strs(cur).len() && strs(cur)[k] == x;
                    assert(cur[k]@ == x);
                    assert(all.contains(cur[k]@));
                } else {
                    lemma_recorded_key(bp, x);
                    let k = choose|k: int| 0 <= k < bp.len() && #[trigger] bp[k].0@ == x;
                    assert(all.contains(bp[k].0@));
                }
            }
        }
    }
    changed
}

/// A path belongs to the inspection scope of a status: it is named by a
/// change group (conflicts aside) or is an endpoint of a relationship.
pub open spec fn in_scope(status: WorkingTreeStatus, p: Seq<char>) -> bool {
    ||| strs(status.committed_paths@).contains(p)
    ||| strs(status.added_paths@).contains(p)
    ||| strs(status.modified_paths@).contains(p)
    ||| strs(status.untracked_paths@).contains(p)
    ||| strs(status.staged_paths@).contains(p)
    ||| strs(status.unstaged_paths@).contains(p)
    ||| strs(status.deleted_paths@).contains(p)
    ||| exists|i: int|
        0 <= i < status.relationships@.len() && names_endpoint(#[trigger] status.relationships@[i], p)
}

/// `p` is the source or the target of `r`.
pub open spec fn names_endpoint(r: PathRelationship, p: Seq<char>) -> bool {
    r.source@ == p || r.target@ == p
}

fn append_copies(out: &mut Vec<String>, items: &Vec<String>)
    ensures
        strs(final(out)@) == strs(old(out)@) + strs(items@),
{
    let mut i: usize = 0;
    let ghost start = strs(out@);
    while i < items.len()
        invariant
            i <= items.len(),
            strs(out@) == start + strs(items@).take(i as int),
        decreases items.len() - i,
    {
        let ghost before = out@;
        out.push(items[i].clone());
        i = i + 1;
        assert(strs(out@) =~= start + strs(items@).take(i as int)) by {
            assert(strs(out@) =~= strs(before).push(items@[i - 1]@));
        }
    }
    assert(strs(items@).take(i as int) =~= strs(items@));
}

/// The distinct paths of the inspection scope, in ascending order.
pub fn inspection_scope_paths(status: &WorkingTreeStatus) -> (result: Vec<String>)
    ensures
        strictly_increasing(strs(result@)),
        forall|p: Seq<char>| strs(result@).contains(p) == in_scope(*status, p),
{
    let mut all: Vec<String> = Vec::new();
    append_copies(&mut all, &status.committed_paths);
    let ghost a1 = strs(all@);
    append_copies(&mut all, &status.added_paths);
    let ghost a2 = strs(all@);
    append_copies(&mut all, &status.modified_paths);
    let ghost a3 = strs(all@);
    append_copies(&mut all, &status.untracked_paths);
    let ghost a4 = strs(all@);
    append_copies(&mut all, &status.staged_paths);
    let ghost a5 = strs(all@);
    append_copies(&mut all, &status.unstaged_paths);
    let ghost a6 = strs(all@);
    append_copies(&mut all, &status.deleted_paths);
    let ghost a7 = strs(all@);
    let mut ends: Vec<String> = Vec::new();
    let mut i: usize = 0;
    while i < status.relationships.len()
        invariant
            i <= status.relationships.len(),
            ends.len() == 2 * i,
            forall|k: int|
                0 <= k < i ==> (#[trigger] ends@[2 * k])@ == status.relationships@[k].source@
                    && ends@[2 * k + 1]@ == status.relationships@[k].target@,
        decreases status.relationships.len() - i,
    {
        let ghost before = ends@;
        ends.push(status.relationships[i].source.clone());
        ends.push(status.relationships[i].target.clone());
        assert(ends@[2 * i as int] == status.relationships@[i as int].source);
        assert(ends@[2 * i + 1] == status.relationships@[i as int].target);
        assert forall|k: int| 0 <= k < i implies (#[trigger] ends@[2 * k]) == before[2 * k] && ends@[2 * k + 1] == before[2 * k + 1] by {}
        assert forall|k: int| 0 <= k < i + 1 implies (#[trigger] ends@[2 * k])@ == status.relationships@[k].source@
            && ends@[2 * k + 1]@ == status.relationships@[k].target@ by {
            if k < i {
                assert(ends@[2 * k] == before[2 * k] && ends@[2 * k + 1] == before[2 * k + 1]);
                assert(before[2 * k]@ == status.relationships@[k].source@);
            }
        }
        i = i + 1;
    }
    let ghost ends_view = strs(ends@);
    assert(i == status.relationships.len());
    append_copies(&mut all, &ends);
    let ghost all_view = strs(all@);
    let result = sorted_unique(all);
    proof {
        assert forall|p: Seq<char>| all_view.contains(p) == in_scope(*status, p) by {
            let g = seq![
                strs(status.committed_paths@),
                strs(status.added_paths@),
                strs(status.modified_paths@),
                strs(status.untracked_paths@),
                strs(status.staged_paths@),
                strs(status.unstaged_paths@),
                strs(status.deleted_paths@),
                ends_view
            ];
            assert(all_view =~= g[0] + g[1] + g[2] + g[3] + g[4] + g[5] + g[6] + g[7]);
            lemma_concat_contains(g[0], g[1], p);
            lemma_concat_contains(g[0] + g[1], g[2], p);
            lemma_concat_contains(g[0] + g[1] + g[2], g[3], p);
            lemma_concat_contains(g[0] + g[1] + g[2] + g[3], g[4], p);
            lemma_concat_contains(g[0] + g[1] + g[2] + g[3] + g[4], g[5], p);
            lemma_concat_contains(g[0] + g[1] + g[2] + g[3] + g[4] + g[5], g[6], p);
            lemma_concat_contains(g[0] + g[1] + g[2] + g[3] + g[4] + g[5] + g[6], g[7], p);
            if ends_view.contains(p) {
                let j = choose|j: int| 0 <= j < ends_view.len() && ends_view[j] == p;
                let k = j / 2;
                if j % 2 == 0 {
                    assert(ends@[2 * k]@ == status.relationships@[k].source@);
                    assert(names_endpoint(status.relationships@[k], p));
                } else {
                    assert(ends@[2 * k]@ == status.relationships@[k].source@);
                    assert(j == 2 * k + 1);
                    assert(names_endpoint(status.relationships@[k], p));
                }
            }
            if exists|k: int|
                0 <= k < status.relationships@.len() && names_endpoint(#[trigger] status.relationships@[k], p) {
                let k = choose|k: int|
                    0 <= k < status.relationships@.len() && names_endpoint(#[trigger] status.relationships@[k], p);
                assert(0 <= k < i);
                assert(ends@[2 * k]@ == status.relationships@[k].source@);
                if status.relationships@[k].source@ == p {
                    assert(ends_view[2 * k] == p);
                } else {
                    assert(ends_view[2 * k + 1] == p);
                }
            }
        }
    }
    result
}

/// `(a + b).contains(x)` splits into its parts.
pub proof fn lemma_concat_contains(a: Seq<Seq<char>>, b: Seq<Seq<char>>, x: Seq<char>)
    ensures
        (a + b).contains(x) == (a.contains(x) || b.contains(x)),
{
    if a.contains(x) {
        let i = choose|i: int| 0 <= i < a.len() && a[i] == x;
        assert((a + b)[i] == x);
    }
    if b.contains(x) {
        let i = choose|i: int| 0 <= i < b.len() && b[i] == x;
        assert((a + b)[a.len() + i] == x);
    }
    if (a + b).contains(x) {
        let i = choose|i: int| 0 <= i < (a + b).len() && (a + b)[i] == x;
        if i < a.len() {
            assert(a[i] == x);
        } else {
            assert(b[i - a.len()] == x);
        }
    }
}

/// The number of distinct paths in the inspection scope.
pub fn changed_path_count(status: &WorkingTreeStatus) -> (result: usize)
    ensures
        exists|scope: Seq<Seq<char>>|
            #![trigger scope.len()]
            strictly_increasing(scope) && (forall|p: Seq<char>|
                scope.contains(p) == in_scope(*status, p)) && result == scope.len(),
{
    let paths = inspection_scope_paths(status);
    assert(strictly_increasing(strs(paths@)));
    assert(strs(paths@).len() == paths.len());
    paths.len()
}

/// A Git operation left unfinished in the working tree.
#[derive(Debug, Clone, Copy, PartialEq, Eq)]
pub enum UnfinishedGitOperation {
    Merge,
    Rebase,
    CherryPick,
    Revert,
    Bisect,
}

/// The name under which an unfinished operation is reported.
pub open spec fn operation_name(operation: UnfinishedGitOperation) -> Seq<char> {
    match operation {
        UnfinishedGitOperation::Merge => "merge"@,
        UnfinishedGitOperation::Rebase => "rebase"@,
        UnfinishedGitOperation::CherryPick => "cherry-pick"@,
        UnfinishedGitOperation::Revert => "revert"@,
        UnfinishedGitOperation::Bisect => "bisect"@,
    }
}

impl UnfinishedGitOperation {
    /// The name under which the operation is reported.
    pub fn name(&self) -> (result: &'static str)
        ensures
            result@ == operation_name(*self),
    {
        match self {
            UnfinishedGitOperation::Merge => "merge",
            UnfinishedGitOperation::Rebase => "rebase",
            UnfinishedGitOperation::CherryPick => "cherry-pick",
            UnfinishedGitOperation::Revert => "revert",
            UnfinishedGitOperation::Bisect => "bisect",
        }
    }
}

/// Everything that blocks inspection of a dirty repository.
#[derive(Debug, Clone, PartialEq, Eq, Default)]
pub struct RepositoryValidationBlockers {
    pub staged_paths: Vec<String>,
    pub unstaged_paths: Vec<String>,
    pub untracked_paths: Vec<String>,
    pub conflicted_paths: Vec<String>,
    pub unfinished_operations: Vec<UnfinishedGitOperation>,
}

/// Why a repository cannot be inspected.
#[derive(Debug, Clone, PartialEq, Eq)]
pub enum RepositoryValidationError {
    Dirty { root: String, blockers: RepositoryValidationBlockers },
    MissingCommit { root: String },
    Git(GitError),
}

// ----------------------------------------------------------------------------
// `git status --porcelain=v2 -z` records
// ----------------------------------------------------------------------------

/// Which paths of a status listing are wanted.
#[derive(Debug, Clone, Copy, PartialEq, Eq, Structural)]
pub enum StatusPaths {
    /// `? path` records.
    Untracked,
    /// Ordinary changes whose index side changed.
    Staged,
    /// Ordinary changes whose work-tree side changed.
    Unstaged,
    /// Ordinary changes that delete the path on either side.
    Deleted,
}

/// The index of the first space of `s`, or -1.
pub open spec fn first_space(s: Seq<u8>) -> int
    decreases s.len(),
{
    if s.len() == 0 {
        -1
    } else if s[0] == 32 {
        0
    } else {
        let rest = first_space(s.drop_first());
        if rest < 0 {
            -1
        } else {
            rest + 1
        }
    }
}

/// std's `splitn(n, ' ')` on bytes: at most `n` fields, the last holding
/// the rest.
pub open spec fn split_fields(s: Seq<u8>, n: nat) -> Seq<Seq<u8>>
    decreases n,
{
    if n <= 1 {
        seq![s]
    } else {
        let k = first_space(s);
        if k < 0 || k >= s.len() {
            seq![s]
        } else {
            seq![s.take(k)] + split_fields(s.skip(k + 1), (n - 1) as nat)
        }
    }
}

/// The path a record yields for `wanted`, if any.
pub open spec fn status_entry(wanted: StatusPaths, record: Seq<u8>) -> Option<Seq<u8>> {
    if wanted == StatusPaths::Untracked {
        if record.len() >= 2 && record[0] == 63 && record[1] == 32 {
            Some(record.skip(2))
        } else {
            None
        }
    } else {
        let f = split_fields(record, 9);
        if f.len() >= 2 && f[0] == seq![49u8] && (match wanted {
            StatusPaths::Staged => f[1].len() > 0 && f[1][0] != 46,
            StatusPaths::Unstaged => f[1].len() > 1 && f[1][1] != 46,
            _ => f[1].contains(68),
        }) && f.len() >= 9 {
            Some(f[8])
        } else {
            None
        }
    }
}

/// The wanted paths of a status listing's records, decoded, in order.
pub open spec fn status_paths(wanted: StatusPaths, records: Seq<Seq<u8>>) -> Seq<Seq<char>>
    decreases records.len(),
{
    if records.len() == 0 {
        Seq::<Seq<char>>::empty()
    } else {
        let prev = status_paths(wanted, records.drop_last());
        match status_entry(wanted, records.last()) {
            Some(p) => prev.push(lossy_utf8(p)),
            None => prev,
        }
    }
}

fn first_space_of(s: &Vec<u8>, from: usize) -> (result: Option<usize>)
    requires
        from <= s.len(),
    ensures
        match result {
            Some(k) => from <= k < s.len() && first_space(s@.skip(from as int)) == k - from,
            None => first_space(s@.skip(from as int)) < 0,
        },
{
    let mut i: usize = s.len();
    let mut found: Option<usize> = None;
    assert(s@.skip(s.len() as int) =~= Seq::<u8>::empty());
    while i > from
        invariant
            from <= i <= s.len(),
            match found {
                Some(k) => i <= k < s.len() && first_space(s@.skip(i as int)) == k - i,
                None => first_space(s@.skip(i as int)) < 0,
            },
        decreases i - from,
    {
        i = i - 1;
        assert(s@.skip(i as int).drop_first() =~= s@.skip(i + 1));
        assert(s@.skip(i as int)[0] == s@[i as int]);
        if s[i] == 32 {
            found = Some(i);
        }
    }
    found
}

fn fields_of(record: &Vec<u8>) -> (result: Vec<Vec<u8>>)
    ensures
        byte_views(result@) == split_fields(record@, 9),
{
    let mut fields: Vec<Vec<u8>> = Vec::new();
    let mut start: usize = 0;
    let mut n: usize = 9;
    let mut done = false;
    assert(record@.skip(0) =~= record@);
    while n > 1 && !done
        invariant
            start <= record.len(),
            1 <= n <= 9,
            done ==> first_space(record@.skip(start as int)) < 0,
            split_fields(record@, 9) == byte_views(fields@) + split_fields(record@.skip(start as int), n as nat),
        decreases n + if done { 0int } else { 1int },
    {
        match first_space_of(record, start) {
            Some(k) => {
                let ghost before = fields@;
                let mut piece: Vec<u8> = Vec::new();
                let mut j: usize = start;
                while j < k
                    invariant
                        start <= j <= k,
                        k < record.len(),
                        piece@ == record@.subrange(start as int, j as int),
                    decreases k - j,
                {
                    piece.push(record[j]);
                    assert(record@.subrange(start as int, j + 1) =~= record@.subrange(start as int, j as int).push(record@[j as int]));
                    j = j + 1;
                }
                assert(piece@ =~= record@.skip(start as int).take(k - start));
                assert(record@.skip(start as int).skip(k - start + 1) =~= record@.skip(k + 1));
                fields.push(piece);
                assert(byte_views(fields@) =~= byte_views(before).push(record@.skip(start as int).take(k - start)));
                start = k + 1;
                n = n - 1;
            },
            None => {
                done = true;
            },
        }
    }
    assert(split_fields(record@.skip(start as int), n as nat) == seq![record@.skip(start as int)]);
    let mut rest: Vec<u8> = Vec::new();
    let mut j: usize = start;
    while j < record.len()
        invariant
            start <= j <= record.len(),
            rest@ == record@.subrange(start as int, j as int),
        decreases record.len() - j,
    {
        rest.push(record[j]);
        assert(record@.subrange(start as int, j + 1) =~= record@.subrange(start as int, j as int).push(record@[j as int]));
        j = j + 1;
    }
    assert(rest@ =~= record@.skip(start as int));
    let ghost before = fields@;
    fields.push(rest);
    assert(byte_views(fields@) =~= byte_views(before).push(record@.skip(start as int)));
    fields
}

fn entry_of(wanted: StatusPaths, record: &Vec<u8>) -> (result: Option<Vec<u8>>)
    ensures
        match result {
            Some(p) => status_entry(wanted, record@) == Some(p@),
            None => status_entry(wanted, record@) is None,
        },
{
    match wanted {
        StatusPaths::Untracked => {
            if record.len() >= 2 && record[0] == 63 && record[1] == 32 {
                let mut rest: Vec<u8> = Vec::new();
                let mut j: usize = 2;
                while j < record.len()
                    invariant
                        2 <= j <= record.len(),
                        rest@ == record@.subrange(2, j as int),
                    decreases record.len() - j,
                {
                    rest.push(record[j]);
                    assert(record@.subrange(2, j + 1) =~= record@.subrange(2, j as int).push(record@[j as int]));
                    j = j + 1;
                }
                assert(rest@ =~= record@.skip(2));
                Some(rest)
            } else {
                None
            }
        },
        _ => {
            let f = fields_of(record);
            if f.len() < 9 || f[0].len() != 1 || f[0][0] != 49 {
                proof {
                    if f@.len() >= 9 {
                        assert(byte_views(f@)[0] == f@[0]@);
                        if f@[0]@.len() == 1 && f@[0]@[0] == 49 {
                            assert(f@[0]@ =~= seq![49u8]);
                        }
                    }
                }
                return None;
            }
            assert(byte_views(f@)[0] == f@[0]@);
            assert(f@[0]@ =~= seq![49u8]);
            assert(byte_views(f@)[1] == f@[1]@);
            let xy = &f[1];
            let ok = match wanted {
                StatusPaths::Staged => xy.len() > 0 && xy[0] != 46,
                StatusPaths::Unstaged => xy.len() > 1 && xy[1] != 46,
                _ => {
                    let mut found = false;
                    let mut k: usize = 0;
                    while k < xy.len()
                        invariant
                            k <= xy.len(),
                            found == (exists|m: int| 0 <= m < k && xy@[m] == 68),
                        decreases xy.len() - k,
                    {
                        if xy[k] == 68 {
                            found = true;
                        }
                        k = k + 1;
                    }
                    proof {
                        if found {
                            let m = choose|m: int| 0 <= m < k && xy@[m] == 68;
                            assert(xy@.contains(68));
                        } else {
                            assert(!xy@.contains(68));
                        }
                    }
                    found
                },
            };
            if ok {
                assert(byte_views(f@)[8] == f@[8]@);
                let mut p: Vec<u8> = Vec::new();
                let mut j: usize = 0;
                while j < f[8].len()
                    invariant
                        j <= f@[8]@.len(),
                        f@.len() >= 9,
                        p@ == f@[8]@.take(j as int),
                    decreases f@[8]@.len() - j,
                {
                    p.push(f[8][j]);
                    assert(f@[8]@.take(j + 1) =~= f@[8]@.take(j as int).push(f@[8]@[j as int]));
                    j = j + 1;
                }
                assert(p@ =~= f@[8]@);
                Some(p)
            } else {
                None
            }
        },
    }
}

/// The wanted paths of `git status --porcelain=v2 -z` output.
pub fn status_listing(wanted: StatusPaths, output: &Vec<u8>) -> (result: Vec<String>)
    ensures
        strs(result@) == status_paths(wanted, split_nul(output@)),
{
    let records = split_at_nul(output);
    let mut out: Vec<String> = Vec::new();
    let mut i: usize = 0;
    while i < records.len()
        invariant
            i <= records.len(),
            byte_views(records@) == split_nul(output@),
            strs(out@) == status_paths(wanted, byte_views(records@).take(i as int)),
        decreases records.len() - i,
    {
        assert(byte_views(records@).take(i + 1).drop_last() =~= byte_views(records@).take(i as int));
        assert(byte_views(records@).take(i + 1).last() == records@[i as int]@);
        match entry_of(wanted, &records[i]) {
            Some(p) => {
                let ghost before = out@;
                out.push(decode_lossy(p.as_slice()));
                assert(strs(out@) =~= strs(before).push(lossy_utf8(p@)));
            },
            None => {},
        }
        i = i + 1;
    }
    assert(byte_views(records@).take(i as int) =~= byte_views(records@));
    out
}

/// The untracked, non-ignored paths of a status listing.
pub fn untracked_paths(output: &Vec<u8>) -> (result: Vec<String>)
    ensures
        strs(result@) == status_paths(StatusPaths::Untracked, split_nul(output@)),
{
    status_listing(StatusPaths::Untracked, output)
}

/// The paths whose index side changed.
pub fn staged_paths(output: &Vec<u8>) -> (result: Vec<String>)
    ensures
        strs(result@) == status_paths(StatusPaths::Staged, split_nul(output@)),
{
    status_listing(StatusPaths::Staged, output)
}

/// The paths whose work-tree side changed.
pub fn unstaged_paths(output: &Vec<u8>) -> (result: Vec<String>)
    ensures
        strs(result@) == status_paths(StatusPaths::Unstaged, split_nul(output@)),
{
    status_listing(StatusPaths::Unstaged, output)
}

/// The tracked paths deleted from the index or the work tree.
pub fn deleted_paths(output: &Vec<u8>) -> (result: Vec<String>)
    ensures
        strs(result@) == status_paths(StatusPaths::Deleted, split_nul(output@)),
{
    status_listing(StatusPaths::Deleted, output)
}

/// The error for a failed Git command: its standard error, decoded and
/// trimmed.
pub fn command_failure(path: String, stderr: &Vec<u8>) -> (result: GitError)
    ensures
        result == (GitError::Command { path: result->path, message: result->message }),
        result->path == path,
        result->message@ == trim(lossy_utf8(stderr@)),
{
    let text = decode_lossy(stderr.as_slice());
    GitError::Command { path, message: trimmed(text.as_str()) }
}

proof fn lemma_keep_members_twice(items: Seq<Seq<char>>, q: Seq<Seq<char>>, p: Seq<Seq<char>>)
    requires
        forall|x: Seq<char>| p.contains(x) ==> q.contains(x),
    ensures
        keep_members(keep_members(items, q), p) == keep_members(items, p),
    decreases items.len(),
{
    if items.len() > 0 {
        let prev = keep_members(items.drop_last(), q);
        lemma_keep_members_twice(items.drop_last(), q, p);
        if q.contains(items.last()) {
            assert(prev.push(items.last()).drop_last() =~= prev);
            assert(prev.push(items.last()).last() == items.last());
        }
    }
}

proof fn lemma_keep_relationships_twice(
    items: Seq<PathRelationship>,
    q: Seq<Seq<char>>,
    p: Seq<Seq<char>>,
)
    requires
        forall|x: Seq<char>| p.contains(x) ==> q.contains(x),
    ensures
        keep_relationships(keep_relationships(items, q), p) == keep_relationships(items, p),
    decreases items.len(),
{
    if items.len() > 0 {
        let prev = keep_relationships(items.drop_last(), q);
        lemma_keep_relationships_twice(items.drop_last(), q, p);
        let r = items.last();
        if q.contains(r.source@) || q.contains(r.target@) {
            assert(prev.push(r).drop_last() =~= prev);
            assert(prev.push(r).last() == r);
        }
    }
}

proof fn lemma_keep_same_relationships(
    a: Seq<PathRelationship>,
    b: Seq<PathRelationship>,
    p: Seq<Seq<char>>,
)
    requires
        same_relationships(a, b),
    ensures
        same_relationships(keep_relationships(a, p), keep_relationships(b, p)),
    decreases a.len(),
{
    if a.len() > 0 {
        assert(same_relationships(a.drop_last(), b.drop_last())) by {
            assert forall|i: int| 0 <= i < a.drop_last().len() implies same_relationship(
                #[trigger] a.drop_last()[i],
                b.drop_last()[i],
            ) by {
                assert(same_relationship(a[i], b[i]));
            }
        }
        lemma_keep_same_relationships(a.drop_last(), b.drop_last(), p);
        assert(same_relationship(a.last(), b.last())) by {
            assert(same_relationship(a[a.len() - 1], b[a.len() - 1]));
        }
        let pa = keep_relationships(a.drop_last(), p);
        let pb = keep_relationships(b.drop_last(), p);
        if p.contains(a.last().source@) || p.contains(a.last().target@) {
            assert forall|i: int| 0 <= i < pa.push(a.last()).len() implies same_relationship(
                #[trigger] pa.push(a.last())[i],
                pb.push(b.last())[i],
            ) by {
                if i < pa.len() {
                    assert(same_relationship(pa[i], pb[i]));
                }
            }
        }
    }
}

/// Filtering a status to `q` and then to a part `p` of it gives the status
/// filtered to `p`; in particular, filtering twice to the same paths
/// changes nothing the second time.
pub proof fn law_filtering_twice_keeps_the_narrower_filter(
    status: WorkingTreeStatus,
    q: Seq<Seq<char>>,
    p: Seq<Seq<char>>,
    once: WorkingTreeStatus,
    twice: WorkingTreeStatus,
)
    requires
        forall|x: Seq<char>| p.contains(x) ==> q.contains(x),
        is_filtered_status(status, q, once),
        is_filtered_status(once, p, twice),
    ensures
        is_filtered_status(status, p, twice),
{
    lemma_keep_members_twice(strs(status.committed_paths@), q, p);
    lemma_keep_members_twice(strs(status.added_paths@), q, p);
    lemma_keep_members_twice(strs(status.modified_paths@), q, p);
    lemma_keep_members_twice(strs(status.untracked_paths@), q, p);
    lemma_keep_members_twice(strs(status.staged_paths@), q, p);
    lemma_keep_members_twice(strs(status.unstaged_paths@), q, p);
    lemma_keep_members_twice(strs(status.deleted_paths@), q, p);
    lemma_keep_members_twice(strs(status.conflicted_paths@), q, p);
    let kept = keep_relationships(status.relationships@, q);
    lemma_keep_same_relationships(once.relationships@, kept, p);
    lemma_keep_relationships_twice(status.relationships@, q, p);
    let a = twice.relationships@;
    let b = keep_relationships(once.relationships@, p);
    let c = keep_relationships(status.relationships@, p);
    assert forall|i: int| 0 <= i < a.len() implies same_relationship(#[trigger] a[i], c[i]) by {
        assert(same_relationship(a[i], b[i]));
        assert(same_relationship(b[i], c[i]));
    }
}

} // verus!
