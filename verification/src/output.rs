//! Terminal status lines and repository-validation reports.
//!
//! Whether colours are wanted depends on the terminal and the environment;
//! callers pass that decision in as `colors`.

use vstd::prelude::*;
use crate::git::{
    RepositoryValidationBlockers, RepositoryValidationError, UnfinishedGitOperation,
    operation_name,
};
use crate::order::{Natural, sorted, stable_sort};
use crate::text::{decimal, decimal_chars, from_chars, push_str, strs};

verus! {

/// The number of stages an inspection report announces.
pub const STAGE_COUNT: u8 = 7;

/// The outcome a status marker conveys.
#[derive(Debug, Clone, Copy, PartialEq, Eq)]
pub enum Style {
    Success,
    Info,
    Warning,
    Failure,
}

/// The marker text of a style.
pub open spec fn marker_text(style: Style) -> Seq<char> {
    match style {
        Style::Success => "✓"@,
        Style::Info => "•"@,
        Style::Warning => "!"@,
        Style::Failure => "✗"@,
    }
}

/// The terminal escape code of a style.
pub open spec fn style_code_text(style: Style) -> Seq<char> {
    match style {
        Style::Success => "32"@,
        Style::Info => "36"@,
        Style::Warning => "33"@,
        Style::Failure => "31"@,
    }
}

/// `text` wrapped in the ANSI colour of `style` and a reset, when colours
/// are enabled; otherwise `text` unchanged.
pub open spec fn styled_text(text: Seq<char>, style: Style, colors: bool) -> Seq<char> {
    if colors {
        "\x1b["@ + style_code_text(style) + "m"@ + text + "\x1b[0m"@
    } else {
        text
    }
}

/// The symbol shown for a status.
pub fn marker(style: Style) -> (result: &'static str)
    ensures
        result@ == marker_text(style),
{
    match style {
        Style::Success => "✓",
        Style::Info => "•",
        Style::Warning => "!",
        Style::Failure => "✗",
    }
}

/// The ANSI foreground colour code for a status.
pub fn style_code(style: Style) -> (result: &'static str)
    ensures
        result@ == style_code_text(style),
{
    match style {
        Style::Success => "32",
        Style::Info => "36",
        Style::Warning => "33",
        Style::Failure => "31",
    }
}

fn push_styled(out: &mut Vec<char>, text: &str, style: Style, colors: bool)
    ensures
        final(out)@ == old(out)@ + styled_text(text@, style, colors),
{
    if colors {
        let ghost start = out@;
        push_str(out, "\x1b[");
        push_str(out, style_code(style));
        push_str(out, "m");
        push_str(out, text);
        push_str(out, "\x1b[0m");
        assert(out@ =~= start + styled_text(text@, style, colors));
    } else {
        push_str(out, text);
    }
}

/// `text` in the colour of `style` when `colors` holds.
pub fn styled(text: &str, style: Style, colors: bool) -> (result: String)
    ensures
        result@ == styled_text(text@, style, colors),
{
    let mut out: Vec<char> = Vec::new();
    push_styled(&mut out, text, style, colors);
    from_chars(out.as_slice())
}

/// Colours are used only on a terminal and only without `NO_COLOR`.
pub fn colors_enabled(is_terminal: bool, no_color: bool) -> (result: bool)
    ensures
        result == (is_terminal && !no_color),
{
    is_terminal && !no_color
}

/// `s` padded with spaces to at least `width` characters (`{:<width}`).
pub open spec fn pad_right(s: Seq<char>, width: nat) -> Seq<char> {
    if s.len() >= width {
        s
    } else {
        s + Seq::new((width - s.len()) as nat, |i: int| ' ')
    }
}

fn push_padded(out: &mut Vec<char>, s: &str, width: usize)
    ensures
        final(out)@ == old(out)@ + pad_right(s@, width as nat),
{
    let ghost start = out@;
    let chars = crate::text::to_chars(s);
    crate::text::push_all(out, &chars);
    let mut n = chars.len();
    while n < width
        invariant
            chars.len() <= n <= width || (n == chars.len() && chars.len() >= width),
            out@ == start + s@ + Seq::new((n - chars.len()) as nat, |i: int| ' '),
            chars@ == s@,
        decreases width - n,
    {
        out.push(' ');
        n = n + 1;
        assert(out@ =~= start + s@ + Seq::new((n - chars.len()) as nat, |i: int| ' '));
    }
    assert(out@ =~= start + pad_right(s@, width as nat));
}

/// An inspection-stage line: `[n/7] label<35> marker detail`.
pub open spec fn stage_line_text(
    number: u8,
    label: Seq<char>,
    style: Style,
    detail: Seq<char>,
    colors: bool,
) -> Seq<char> {
    "["@ + decimal(number as nat) + "/7] "@ + pad_right(label, 35) + " "@ + styled_text(
        marker_text(style),
        style,
        colors,
    ) + " "@ + detail
}

/// A detail line under a stage: six spaces, the label padded to 35, the value.
pub open spec fn detail_line_text(label: Seq<char>, value: Seq<char>) -> Seq<char> {
    "      "@ + pad_right(label, 35) + value
}

/// Formats the lines of an inspection progress report.
pub struct InspectionReporter {
    pub colors: bool,
}

impl InspectionReporter {
    /// A reporter that colours its markers when `colors` holds.
    pub fn new(colors: bool) -> (result: Self)
        ensures
            result.colors == colors,
    {
        Self { colors }
    }

    /// The line announcing a stage.
    pub fn stage(&self, number: u8, label: &str, style: Style, detail: &str) -> (result: String)
        ensures
            result@ == stage_line_text(number, label@, style, detail@, self.colors),
    {
        let mut out: Vec<char> = Vec::new();
        push_str(&mut out, "[");
        let digits = decimal_chars(number as u64);
        crate::text::push_all(&mut out, &digits);
        push_str(&mut out, "/7] ");
        push_padded(&mut out, label, 35);
        push_str(&mut out, " ");
        push_styled(&mut out, marker(style), style, self.colors);
        push_str(&mut out, " ");
        push_str(&mut out, detail);
        assert(out@ =~= stage_line_text(number, label@, style, detail@, self.colors));
        from_chars(out.as_slice())
    }

    /// A detail line.
    pub fn detail(&self, label: &str, value: &str) -> (result: String)
        ensures
            result@ == detail_line_text(label@, value@),
    {
        let mut out: Vec<char> = Vec::new();
        push_str(&mut out, "      ");
        push_padded(&mut out, label, 35);
        push_str(&mut out, value);
        assert(out@ =~= detail_line_text(label@, value@));
        from_chars(out.as_slice())
    }

    /// A waiting message: a detail line with an empty label.
    pub fn waiting(&self, message: &str) -> (result: String)
        ensures
            result@ == detail_line_text(Seq::empty(), message@),
    {
        let r = self.detail("", message);
        proof {
            reveal_strlit("");
            assert(""@ =~= Seq::<char>::empty());
        }
        r
    }
}

/// The bullet list of `items`, one `\n      - item` each.
pub open spec fn bullet_list(items: Seq<Seq<char>>) -> Seq<char>
    decreases items.len(),
{
    if items.len() == 0 {
        Seq::<char>::empty()
    } else {
        bullet_list(items.drop_last()) + "\n      - "@ + items.last()
    }
}

/// The heading of a group of blockers: `\n    ! label (count)`.
pub open spec fn group_heading(label: Seq<char>, count: nat, colors: bool) -> Seq<char> {
    "\n    "@ + styled_text("!"@, Style::Warning, colors) + " "@ + styled_text(
        label,
        Style::Warning,
        colors,
    ) + " ("@ + decimal(count) + ")"@
}

/// The section listing unfinished operations (empty when there are none).
pub open spec fn operations_section(
    operations: Seq<UnfinishedGitOperation>,
    colors: bool,
) -> Seq<char> {
    if operations.len() == 0 {
        Seq::<char>::empty()
    } else {
        group_heading("Unfinished Git operations"@, operations.len(), colors) + bullet_list(
            operations.map_values(|o: UnfinishedGitOperation| operation_name(o)),
        )
    }
}

/// The section listing `paths` under `label`, sorted (empty when there are
/// no paths).
pub open spec fn paths_section(
    label: Seq<char>,
    paths: Seq<String>,
    colors: bool,
    sorted_paths: Seq<String>,
) -> Seq<char> {
    if paths.len() == 0 {
        Seq::<char>::empty()
    } else {
        group_heading(label, paths.len(), colors) + bullet_list(strs(sorted_paths))
    }
}

/// `sorted_paths` is `paths` in ascending order.
pub open spec fn is_sorted_copy(paths: Seq<String>, sorted_paths: Seq<String>) -> bool {
    sorted::<Natural, String>(sorted_paths) && sorted_paths.to_multiset() == paths.to_multiset()
}

fn push_heading(out: &mut Vec<char>, label: &str, count: usize, colors: bool)
    ensures
        final(out)@ == old(out)@ + group_heading(label@, count as nat, colors),
{
    let ghost start = out@;
    push_str(out, "\n    ");
    push_styled(out, "!", Style::Warning, colors);
    push_str(out, " ");
    push_styled(out, label, Style::Warning, colors);
    push_str(out, " (");
    let digits = decimal_chars(count as u64);
    crate::text::push_all(out, &digits);
    push_str(out, ")");
    assert(out@ =~= start + group_heading(label@, count as nat, colors));
}

/// Appends the section of unfinished operations to `message`.
pub fn append_operations(
    message: &mut Vec<char>,
    operations: &Vec<UnfinishedGitOperation>,
    colors: bool,
)
    ensures
        final(message)@ == old(message)@ + operations_section(operations@, colors),
{
    if operations.len() == 0 {
        assert(old(message)@ + operations_section(operations@, colors) =~= old(message)@);
        return;
    }
    let ghost start = message@;
    push_heading(message, "Unfinished Git operations", operations.len(), colors);
    let ghost heading_end = message@;
    let ghost names = operations@.map_values(|o: UnfinishedGitOperation| operation_name(o));
    let mut i: usize = 0;
    while i < operations.len()
        invariant
            i <= operations.len(),
            names == operations@.map_values(|o: UnfinishedGitOperation| operation_name(o)),
            message@ == heading_end + bullet_list(names.take(i as int)),
        decreases operations.len() - i,
    {
        push_str(message, "\n      - ");
        push_str(message, operations[i].name());
        i = i + 1;
        assert(names.take(i as int).drop_last() =~= names.take(i - 1));
        assert(message@ =~= heading_end + bullet_list(names.take(i as int)));
    }
    assert(names.take(i as int) =~= names);
}

/// Appends the sorted section of `paths` to `message`.
pub fn append_paths(message: &mut Vec<char>, label: &str, paths: &Vec<String>, colors: bool)
    ensures
        exists|sorted_paths: Seq<String>|
            is_sorted_copy(paths@, sorted_paths) && final(message)@ == old(message)@
                + paths_section(label@, paths@, colors, sorted_paths),
{
    let sorted_paths = stable_sort::<Natural, String>(crate::text::copy_strings_exact(paths));
    assert(is_sorted_copy(paths@, sorted_paths@));
    if paths.len() == 0 {
        assert(old(message)@ + paths_section(label@, paths@, colors, sorted_paths@)
            =~= old(message)@);
        assert(is_sorted_copy(paths@, sorted_paths@) && message@ == old(message)@
            + paths_section(label@, paths@, colors, sorted_paths@));
        return;
    }
    push_heading(message, label, paths.len(), colors);
    let ghost heading_end = message@;
    let mut i: usize = 0;
    while i < sorted_paths.len()
        invariant
            i <= sorted_paths.len(),
            message@ == heading_end + bullet_list(strs(sorted_paths@).take(i as int)),
        decreases sorted_paths.len() - i,
    {
        push_str(message, "\n      - ");
        push_str(message, sorted_paths[i].as_str());
        i = i + 1;
        assert(strs(sorted_paths@).take(i as int).drop_last() =~= strs(sorted_paths@).take(i - 1));
        assert(message@ =~= heading_end + bullet_list(strs(sorted_paths@).take(i as int)));
    }
    assert(strs(sorted_paths@).take(i as int) =~= strs(sorted_paths@));
    assert(is_sorted_copy(paths@, sorted_paths@) && message@ == old(message)@
        + paths_section(label@, paths@, colors, sorted_paths@));
}

/// The report on a repository with blocking conditions.
pub open spec fn validation_report(
    title: Seq<char>,
    root: Seq<char>,
    blockers: RepositoryValidationBlockers,
    next_step: Seq<char>,
    colors: bool,
    conflicted: Seq<String>,
    staged: Seq<String>,
    unstaged: Seq<String>,
    untracked: Seq<String>,
) -> Seq<char> {
    styled_text("✗"@, Style::Failure, colors) + " "@ + title + "\n  Repository: "@ + root
        + "\n  Blocking conditions:"@ + operations_section(blockers.unfinished_operations@, colors)
        + paths_section("Merge conflicts"@, blockers.conflicted_paths@, colors, conflicted)
        + paths_section("Staged changes"@, blockers.staged_paths@, colors, staged)
        + paths_section("Unstaged changes"@, blockers.unstaged_paths@, colors, unstaged)
        + paths_section("Untracked files"@, blockers.untracked_paths@, colors, untracked)
        + "\n  "@ + styled_text("•"@, Style::Info, colors) + " "@ + next_step
}

/// Renders the blocking conditions of a dirty repository, each group of
/// paths in ascending order.
pub fn render_validation_error(
    title: &str,
    root: &str,
    blockers: &RepositoryValidationBlockers,
    next_step: &str,
    colors: bool,
) -> (result: String)
    ensures
        exists|c: Seq<String>, s: Seq<String>, u: Seq<String>, t: Seq<String>|
            {
                &&& is_sorted_copy(blockers.conflicted_paths@, c)
                &&& is_sorted_copy(blockers.staged_paths@, s)
                &&& is_sorted_copy(blockers.unstaged_paths@, u)
                &&& is_sorted_copy(blockers.untracked_paths@, t)
                &&& result@ == validation_report(
                    title@,
                    root@,
                    *blockers,
                    next_step@,
                    colors,
                    c,
                    s,
                    u,
                    t,
                )
            },
{
    let mut message: Vec<char> = Vec::new();
    push_styled(&mut message, "✗", Style::Failure, colors);
    push_str(&mut message, " ");
    push_str(&mut message, title);
    push_str(&mut message, "\n  Repository: ");
    push_str(&mut message, root);
    push_str(&mut message, "\n  Blocking conditions:");
    let ghost head = message@;
    append_operations(&mut message, &blockers.unfinished_operations, colors);
    let ghost m1 = message@;
    append_paths(&mut message, "Merge conflicts", &blockers.conflicted_paths, colors);
    let ghost m2 = message@;
    let ghost c = choose|c: Seq<String>|
        is_sorted_copy(blockers.conflicted_paths@, c) && m2 == m1 + paths_section(
            "Merge conflicts"@,
            blockers.conflicted_paths@,
            colors,
            c,
        );
    append_paths(&mut message, "Staged changes", &blockers.staged_paths, colors);
    let ghost m3 = message@;
    let ghost s = choose|s: Seq<String>|
        is_sorted_copy(blockers.staged_paths@, s) && m3 == m2 + paths_section(
            "Staged changes"@,
            blockers.staged_paths@,
            colors,
            s,
        );
    append_paths(&mut message, "Unstaged changes", &blockers.unstaged_paths, colors);
    let ghost m4 = message@;
    let ghost u = choose|u: Seq<String>|
        is_sorted_copy(blockers.unstaged_paths@, u) && m4 == m3 + paths_section(
            "Unstaged changes"@,
            blockers.unstaged_paths@,
            colors,
            u,
        );
    append_paths(&mut message, "Untracked files", &blockers.untracked_paths, colors);
    let ghost m5 = message@;
    let ghost t = choose|t: Seq<String>|
        is_sorted_copy(blockers.untracked_paths@, t) && m5 == m4 + paths_section(
            "Untracked files"@,
            blockers.untracked_paths@,
            colors,
            t,
        );
    push_str(&mut message, "\n  ");
    push_styled(&mut message, "•", Style::Info, colors);
    push_str(&mut message, " ");
    push_str(&mut message, next_step);
    assert(message@ =~= validation_report(
        title@,
        root@,
        *blockers,
        next_step@,
        colors,
        c,
        s,
        u,
        t,
    ));
    from_chars(message.as_slice())
}


/// The report that the startup repository validation passed.
pub open spec fn repository_validation_text(root: Seq<char>, head: Seq<char>, colors: bool) -> Seq<
    char,
> {
    "[1/2] "@ + styled_text("Repository validation"@, Style::Info, colors) + "\n  "@
        + styled_text("✓ Git repository verified"@, Style::Success, colors) + "\n  "@
        + styled_text("✓ Clean committed state"@, Style::Success, colors) + "\n  Repository: "@
        + root + "\n  HEAD:       "@ + head
}

/// The startup message for a verified, clean repository.
pub fn startup_repository_validation_message(root: &str, head_commit: &str, colors: bool) -> (result:
    String)
    ensures
        result@ == repository_validation_text(root@, head_commit@, colors),
{
    let mut out: Vec<char> = Vec::new();
    push_str(&mut out, "[1/2] ");
    push_styled(&mut out, "Repository validation", Style::Info, colors);
    push_str(&mut out, "\n  ");
    push_styled(&mut out, "✓ Git repository verified", Style::Success, colors);
    push_str(&mut out, "\n  ");
    push_styled(&mut out, "✓ Clean committed state", Style::Success, colors);
    push_str(&mut out, "\n  Repository: ");
    push_str(&mut out, root);
    push_str(&mut out, "\n  HEAD:       ");
    push_str(&mut out, head_commit);
    assert(out@ =~= repository_validation_text(root@, head_commit@, colors));
    from_chars(out.as_slice())
}

/// The report of a project registration outcome.
pub open spec fn registration_text(
    name: Seq<char>,
    path: Seq<char>,
    outcome: Seq<char>,
    colors: bool,
) -> Seq<char> {
    "[2/2] "@ + styled_text("Project registration"@, Style::Info, colors) + "\n  "@
        + styled_text("✓ "@ + outcome, Style::Success, colors) + "\n  Project: "@ + name
        + "\n  Repository: "@ + path
}

/// The startup message for a project registration.
pub fn startup_registration_message(
    project_name: &str,
    canonical_path: &str,
    outcome: &str,
    colors: bool,
) -> (result: String)
    ensures
        result@ == registration_text(project_name@, canonical_path@, outcome@, colors),
{
    let mut label: Vec<char> = Vec::new();
    push_str(&mut label, "✓ ");
    push_str(&mut label, outcome);
    let label_text = from_chars(label.as_slice());
    let mut out: Vec<char> = Vec::new();
    push_str(&mut out, "[2/2] ");
    push_styled(&mut out, "Project registration", Style::Info, colors);
    push_str(&mut out, "\n  ");
    push_styled(&mut out, label_text.as_str(), Style::Success, colors);
    push_str(&mut out, "\n  Project: ");
    push_str(&mut out, project_name);
    push_str(&mut out, "\n  Repository: ");
    push_str(&mut out, canonical_path);
    assert(out@ =~= registration_text(project_name@, canonical_path@, outcome@, colors));
    from_chars(out.as_slice())
}

/// The report for a repository without any commit.
pub open spec fn missing_commit_text(root: Seq<char>, colors: bool) -> Seq<char> {
    styled_text("✗"@, Style::Failure, colors) + " PMEMC cannot inspect this repository\n  Repository: "@
        + root + "\n  "@ + styled_text("•"@, Style::Info, colors)
        + " Create at least one commit before inspection."@
}

/// The user-facing report of a validation failure; Git failures are reported
/// elsewhere and give `None`.
pub fn validation_error_message(error: &RepositoryValidationError, colors: bool) -> (result: Option<
    String,
>)
    ensures
        match error {
            RepositoryValidationError::Dirty { root, blockers } => match result {
                Some(m) => exists|c: Seq<String>, s: Seq<String>, u: Seq<String>, t: Seq<String>|
                    {
                        &&& is_sorted_copy(blockers.conflicted_paths@, c)
                        &&& is_sorted_copy(blockers.staged_paths@, s)
                        &&& is_sorted_copy(blockers.unstaged_paths@, u)
                        &&& is_sorted_copy(blockers.untracked_paths@, t)
                        &&& m@ == validation_report(
                            "PMEMC inspection is blocked"@,
                            root@,
                            *blockers,
                            "Commit, stash, remove, or ignore the listed files as appropriate, then retry."@,
                            colors,
                            c,
                            s,
                            u,
                            t,
                        )
                    },
                None => false,
            },
            RepositoryValidationError::MissingCommit { root } => match result {
                Some(m) => m@ == missing_commit_text(root@, colors),
                None => false,
            },
            RepositoryValidationError::Git(_) => result is None,
        },
{
    match error {
        RepositoryValidationError::Dirty { root, blockers } => Some(
            render_validation_error(
                "PMEMC inspection is blocked",
                root.as_str(),
                blockers,
                "Commit, stash, remove, or ignore the listed files as appropriate, then retry.",
                colors,
            ),
        ),
        RepositoryValidationError::MissingCommit { root } => {
            let mut out: Vec<char> = Vec::new();
            push_styled(&mut out, "✗", Style::Failure, colors);
            push_str(&mut out, " PMEMC cannot inspect this repository\n  Repository: ");
            push_str(&mut out, root.as_str());
            push_str(&mut out, "\n  ");
            push_styled(&mut out, "•", Style::Info, colors);
            push_str(&mut out, " Create at least one commit before inspection.");
            assert(out@ =~= missing_commit_text(root@, colors));
            Some(from_chars(out.as_slice()))
        },
        RepositoryValidationError::Git(_) => None,
    }
}

} // verus!
