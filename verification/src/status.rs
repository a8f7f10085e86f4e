//! The lines of a project's status report: its name and baseline state,
//! the branch and head, the commits since registration and since the
//! baseline, and the paths changed since the baseline.

use vstd::prelude::*;
use crate::git::{PathRelationship, PathRelationshipKind, WorkingTreeStatus};
use crate::text::{decimal, decimal_chars, from_chars, push_all, push_str, strs};

verus! {

broadcast use vstd::string::group_string_axioms;

/// The commits made since the project was registered.
#[derive(Debug, Clone, Copy, PartialEq, Eq, Structural)]
pub enum SinceRegistration {
    /// This many commits.
    Count(u64),
    /// The repository had no commit when it was registered.
    UnbornAtRegistration,
}

/// The commits made since the baseline.
#[derive(Debug, Clone, Copy, PartialEq, Eq, Structural)]
pub enum SinceBaseline {
    /// This many commits.
    Count(u64),
    /// No baseline yet: the first inspection is still due.
    InspectionRequired,
    /// The baseline was taken of a repository with no commit.
    UnbornBaseline,
}

/// What the status report knows of a project.
pub struct ProjectStatus {
    pub name: String,
    pub path: String,
    pub baseline_established: bool,
    pub branch: Option<String>,
    pub head: Option<String>,
    pub since_registration: SinceRegistration,
    pub since_baseline: SinceBaseline,
}

/// The text of an optional string, or `fallback`.
pub open spec fn text_or(s: Option<String>, fallback: Seq<char>) -> Seq<char> {
    match s {
        Some(t) => t@,
        None => fallback,
    }
}

/// The line of each path of a group: the group's label, a tab, the path.
pub open spec fn labelled(label: Seq<char>, paths: Seq<String>) -> Seq<Seq<char>> {
    paths.map_values(|p: String| label + "\t"@ + p@)
}

/// The line of a rename or copy: its kind, the source and the target.
pub open spec fn relationship_line(r: PathRelationship) -> Seq<char> {
    (match r.kind {
        PathRelationshipKind::Renamed => "renamed"@,
        PathRelationshipKind::Copied => "copied"@,
    }) + "\t"@ + r.source@ + "\t"@ + r.target@
}

/// The report's header lines.
pub open spec fn header_lines(p: ProjectStatus) -> Seq<Seq<char>> {
    seq![
        p.name@ + "\t"@ + (if p.baseline_established {
            "baseline established"@
        } else {
            "initial inspection required"@
        }) + "\t"@ + p.path@,
        "branch\t"@ + text_or(p.branch, "detached"@),
        "head\t"@ + text_or(p.head, "unborn"@),
        "committed-since-registration\t"@ + match p.since_registration {
            SinceRegistration::Count(n) => decimal(n as nat),
            SinceRegistration::UnbornAtRegistration =>
                "not-applicable (repository was unborn at registration)"@,
        },
        "commits-since-baseline\t"@ + match p.since_baseline {
            SinceBaseline::Count(n) => decimal(n as nat),
            SinceBaseline::InspectionRequired => "not-applicable (initial inspection required)"@,
            SinceBaseline::UnbornBaseline => "not-applicable (baseline was an unborn repository)"@,
        },
    ]
}

/// The whole report: the header, then the paths changed since the
/// baseline, group by group (committed, added, modified, untracked, staged,
/// unstaged, deleted), then the renames and copies.
pub open spec fn status_report(p: ProjectStatus, s: WorkingTreeStatus) -> Seq<Seq<char>> {
    header_lines(p) + labelled("committed"@, s.committed_paths@) + labelled("added"@, s.added_paths@)
        + labelled("modified"@, s.modified_paths@) + labelled("untracked"@, s.untracked_paths@)
        + labelled("staged"@, s.staged_paths@) + labelled("unstaged"@, s.unstaged_paths@)
        + labelled("deleted"@, s.deleted_paths@) + s.relationships@.map_values(
        |r: PathRelationship| relationship_line(r),
    )
}

fn line(parts: &Vec<char>) -> (result: String)
    ensures
        result@ == parts@,
{
    from_chars(parts.as_slice())
}

fn push_labelled(lines: &mut Vec<String>, label: &str, paths: &Vec<String>)
    ensures
        strs(final(lines)@) == strs(old(lines)@) + labelled(label@, paths@),
{
    let ghost start = strs(lines@);
    let mut i: usize = 0;
    while i < paths.len()
        invariant
            i <= paths@.len(),
            strs(lines@) == start + labelled(label@, paths@.take(i as int)),
        decreases paths.len() - i,
    {
        let mut text: Vec<char> = Vec::new();
        push_str(&mut text, label);
        push_str(&mut text, "\t");
        push_str(&mut text, paths[i].as_str());
        let ghost before = strs(lines@);
        lines.push(line(&text));
        assert(labelled(label@, paths@.take(i + 1)) =~= labelled(label@, paths@.take(i as int)).push(
            label@ + "\t"@ + paths@[i as int]@,
        ));
        assert(strs(lines@) =~= before.push(label@ + "\t"@ + paths@[i as int]@));
        i = i + 1;
    }
    assert(paths@.take(i as int) =~= paths@);
}

fn push_relationships(lines: &mut Vec<String>, relationships: &Vec<PathRelationship>)
    ensures
        strs(final(lines)@) == strs(old(lines)@) + relationships@.map_values(
            |r: PathRelationship| relationship_line(r),
        ),
{
    let ghost start = strs(lines@);
    let ghost all = relationships@.map_values(|r: PathRelationship| relationship_line(r));
    let mut i: usize = 0;
    while i < relationships.len()
        invariant
            i <= relationships@.len(),
            all == relationships@.map_values(|r: PathRelationship| relationship_line(r)),
            strs(lines@) == start + all.take(i as int),
        decreases relationships.len() - i,
    {
        let r = &relationships[i];
        let mut text: Vec<char> = Vec::new();
        match r.kind {
            PathRelationshipKind::Renamed => push_str(&mut text, "renamed"),
            PathRelationshipKind::Copied => push_str(&mut text, "copied"),
        }
        push_str(&mut text, "\t");
        push_str(&mut text, r.source.as_str());
        push_str(&mut text, "\t");
        push_str(&mut text, r.target.as_str());
        let ghost before = strs(lines@);
        lines.push(line(&text));
        assert(text@ =~= relationship_line(relationships@[i as int]));
        assert(all.take(i + 1) =~= all.take(i as int).push(all[i as int]));
        assert(strs(lines@) =~= before.push(text@));
        i = i + 1;
    }
    assert(all.take(i as int) =~= all);
}

fn push_option_or(text: &mut Vec<char>, value: &Option<String>, fallback: &str)
    ensures
        final(text)@ == old(text)@ + text_or(*value, fallback@),
{
    match value {
        Some(v) => push_str(text, v.as_str()),
        None => push_str(text, fallback),
    }
}

/// The lines of the status report of a project, with the paths changed
/// since its baseline.
pub fn project_status_lines(project: &ProjectStatus, status: &WorkingTreeStatus) -> (lines: Vec<String>)
    ensures
        strs(lines@) == status_report(*project, *status),
{
    let mut lines: Vec<String> = Vec::new();
    let mut first: Vec<char> = Vec::new();
    push_str(&mut first, project.name.as_str());
    push_str(&mut first, "\t");
    if project.baseline_established {
        push_str(&mut first, "baseline established");
    } else {
        push_str(&mut first, "initial inspection required");
    }
    push_str(&mut first, "\t");
    push_str(&mut first, project.path.as_str());
    lines.push(line(&first));
    let mut branch: Vec<char> = Vec::new();
    push_str(&mut branch, "branch\t");
    push_option_or(&mut branch, &project.branch, "detached");
    lines.push(line(&branch));
    let mut head: Vec<char> = Vec::new();
    push_str(&mut head, "head\t");
    push_option_or(&mut head, &project.head, "unborn");
    lines.push(line(&head));
    let mut registered: Vec<char> = Vec::new();
    push_str(&mut registered, "committed-since-registration\t");
    match project.since_registration {
        SinceRegistration::Count(n) => push_all(&mut registered, &decimal_chars(n)),
        SinceRegistration::UnbornAtRegistration => push_str(
            &mut registered,
            "not-applicable (repository was unborn at registration)",
        ),
    }
    lines.push(line(&registered));
    let mut since: Vec<char> = Vec::new();
    push_str(&mut since, "commits-since-baseline\t");
    match project.since_baseline {
        SinceBaseline::Count(n) => push_all(&mut since, &decimal_chars(n)),
        SinceBaseline::InspectionRequired => push_str(
            &mut since,
            "not-applicable (initial inspection required)",
        ),
        SinceBaseline::UnbornBaseline => push_str(
            &mut since,
            "not-applicable (baseline was an unborn repository)",
        ),
    }
    lines.push(line(&since));
    assert(strs(lines@) =~= header_lines(*project));
    push_labelled(&mut lines, "committed", &status.committed_paths);
    push_labelled(&mut lines, "added", &status.added_paths);
    push_labelled(&mut lines, "modified", &status.modified_paths);
    push_labelled(&mut lines, "untracked", &status.untracked_paths);
    push_labelled(&mut lines, "staged", &status.staged_paths);
    push_labelled(&mut lines, "unstaged", &status.unstaged_paths);
    push_labelled(&mut lines, "deleted", &status.deleted_paths);
    push_relationships(&mut lines, &status.relationships);
    lines
}

} // verus!
