//! The text of the terminal screen that does not depend on drawing: the
//! composer's size and visible lines, the footer, the workspace path and
//! the resume list.

use vstd::prelude::*;
use crate::state::ResumeEntry;
use crate::text::{
    decimal, decimal_chars, from_chars, join, push_all, push_str, split_chars, split_on, strip_prefix,
    strip_prefix_str, to_chars, views,
};

verus! {

broadcast use vstd::string::group_string_axioms;

/// The composer's height: its lines, at least one and at most four, plus
/// the two border rows.
pub open spec fn composer_rows(input: Seq<char>) -> nat {
    let n = split_on(input, '\n').len();
    (if n < 1 {
        1
    } else if n > 4 {
        4
    } else {
        n
    }) + 2
}

/// The composer's height for `input`.
pub fn composer_height(input: &str) -> (result: u16)
    ensures
        result == composer_rows(input@),
{
    let chars = to_chars(input);
    let lines = split_chars(&chars, '\n');
    let n = lines.len();
    let shown: u16 = if n < 1 {
        1
    } else if n > 4 {
        4
    } else {
        n as u16
    };
    shown + 2
}

/// The composer's visible text: its last four lines.
pub open spec fn visible_text(input: Seq<char>) -> Seq<char> {
    let lines = split_on(input, '\n');
    let first = if lines.len() > 4 {
        lines.len() - 4
    } else {
        0
    };
    join(lines.skip(first), "\n"@)
}

/// The text the composer shows for `input`.
pub fn visible_composer_text(input: &str) -> (result: String)
    ensures
        result@ == visible_text(input@),
{
    let chars = to_chars(input);
    let lines = split_chars(&chars, '\n');
    let first = if lines.len() > 4 {
        lines.len() - 4
    } else {
        0
    };
    let mut kept: Vec<Vec<char>> = Vec::new();
    let mut i: usize = first;
    while i < lines.len()
        invariant
            first <= i <= lines@.len(),
            views(kept@) =~= views(lines@).subrange(first as int, i as int),
        decreases lines@.len() - i,
    {
        let ghost before = kept@;
        kept.push(crate::text::slice_chars(&lines[i], 0, lines[i].len()));
        proof {
            assert(kept@.last()@ =~= lines@[i as int]@);
            assert(views(kept@) =~= views(before).push(lines@[i as int]@));
        }
        i = i + 1;
    }
    proof {
        assert(views(lines@).subrange(first as int, i as int) =~= views(lines@).skip(first as int));
    }
    let sep = to_chars("\n");
    let joined = crate::text::join_chars(&kept, &sep);
    from_chars(joined.as_slice())
}

/// A workspace path as the trust prompt shows it: without a Windows
/// verbatim prefix.
pub open spec fn shown_workspace(path: Seq<char>) -> Seq<char> {
    match strip_prefix(path, "\\\\?\\"@) {
        Some(rest) => rest,
        None => path,
    }
}

/// Writes the workspace path for the trust prompt.
pub fn display_workspace_path(path: &str) -> (result: String)
    ensures
        result@ == shown_workspace(path@),
{
    let chars = to_chars(path);
    match strip_prefix_str(&chars, "\\\\?\\") {
        Some(rest) => from_chars(rest.as_slice()),
        None => from_chars(chars.as_slice()),
    }
}

/// The footer: the configured model and how much of its context is used.
pub open spec fn footer(model: Option<Seq<char>>, percent: nat) -> Seq<char> {
    (match model {
        Some(m) => m,
        None => "No configured model"@,
    }) + " · "@ + decimal(percent) + "% context used"@
}

/// Writes the footer.
pub fn footer_text(model: Option<&str>, percent: Option<usize>) -> (result: String)
    ensures
        result@ == footer(
            match model {
                Some(m) => Some(m@),
                None => None,
            },
            match percent {
                Some(p) => p as nat,
                None => 0,
            },
        ),
{
    let mut out: Vec<char> = Vec::new();
    match model {
        Some(m) => push_str(&mut out, m),
        None => push_str(&mut out, "No configured model"),
    }
    push_str(&mut out, " · ");
    let p: u64 = match percent {
        Some(p) => p as u64,
        None => 0,
    };
    let digits = decimal_chars(p);
    push_all(&mut out, &digits);
    push_str(&mut out, "% context used");
    from_chars(out.as_slice())
}

/// One row of the resume list: `>` marks the selected conversation.
pub open spec fn resume_row(entry: ResumeEntry, selected: bool) -> Seq<char> {
    (if selected {
        ">"@
    } else {
        " "@
    }) + " "@ + entry.title@
}

/// The rows of the resume list, selected at `index`.
pub open spec fn resume_rows(entries: Seq<ResumeEntry>, index: nat) -> Seq<Seq<char>> {
    Seq::new(entries.len(), |i: int| resume_row(entries[i], i == index))
}

/// The resume picker's text.
pub open spec fn resume_screen(entries: Seq<ResumeEntry>, index: nat) -> Seq<char> {
    "Resume conversation\n\n"@ + (if entries.len() == 0 {
        "No previous sessions for this project"@
    } else {
        join(resume_rows(entries, index), "\n"@)
    }) + "\n\nEnter resume   Esc back"@
}

/// Writes the resume picker's text.
pub fn resume_screen_text(entries: &Vec<ResumeEntry>, index: usize) -> (result: String)
    ensures
        result@ == resume_screen(entries@, index as nat),
{
    let mut out: Vec<char> = Vec::new();
    push_str(&mut out, "Resume conversation\n\n");
    if entries.len() == 0 {
        push_str(&mut out, "No previous sessions for this project");
    } else {
        let mut rows: Vec<Vec<char>> = Vec::new();
        let mut i: usize = 0;
        while i < entries.len()
            invariant
                i <= entries@.len(),
                views(rows@) =~= resume_rows(entries@, index as nat).take(i as int),
            decreases entries@.len() - i,
        {
            let mut row: Vec<char> = Vec::new();
            if i == index {
                push_str(&mut row, ">");
            } else {
                push_str(&mut row, " ");
            }
            push_str(&mut row, " ");
            push_str(&mut row, entries[i].title.as_str());
            let ghost before = rows@;
            rows.push(row);
            proof {
                assert(views(rows@) =~= views(before).push(resume_row(entries@[i as int], i == index)));
            }
            i = i + 1;
        }
        proof {
            assert(resume_rows(entries@, index as nat).take(i as int) =~= resume_rows(entries@, index as nat));
        }
        let sep = to_chars("\n");
        let joined = crate::text::join_chars(&rows, &sep);
        push_all(&mut out, &joined);
    }
    push_str(&mut out, "\n\nEnter resume   Esc back");
    from_chars(out.as_slice())
}

} // verus!
