//! Repository file inventory: which tracked paths are inspected, and as what.
//!
//! Git lists the paths and the caller reads the files; this module decides
//! which paths take part, classifies them and orders them.

use vstd::prelude::*;
use crate::order::{Natural, SortKey, lemma_seq_le_total, lemma_seq_le_transitive, seq_le, sorted, stable_sort, str_le};
use crate::text::{
    find_position, chars_equal, find_seq, first_occurrence, from_chars, is_blank, lines, lines_of, push_str,
    slice_chars, split_chars, split_on, str_equals, strs, to_chars, trim, trim_chars,
    trim_end_char, trim_end_chars, trimmed, views,
};

verus! {

broadcast use vstd::string::group_string_axioms;

/// The structural language of a file, or the fallback classes.
#[derive(Debug, Clone, Copy, PartialEq, Eq, Structural)]
pub enum Language {
    Rust,
    Python,
    Java,
    Go,
    JavaScript,
    TypeScript,
    Jsx,
    Tsx,
    GenericText,
    Unsupported,
}

/// One file that takes part in inspection.
#[derive(Debug, Clone)]
pub struct InventoryFile {
    pub path: String,
    pub language: Language,
}

/// The inspected files, ordered by path.
#[derive(Debug, Clone)]
pub struct Inventory {
    pub files: Vec<InventoryFile>,
}

/// Why an inventory could not be built.
#[derive(Debug, Clone)]
pub enum InventoryError {
    Git { path: String, message: String },
    IgnoreRules { path: String, message: String },
}

impl InventoryError {
    /// The error's text.
    pub fn message(&self) -> (result: String)
        ensures
            result@ == match self {
                InventoryError::Git { path, message } => "PMEMC could not inventory "@ + path@
                    + ": "@ + message@,
                InventoryError::IgnoreRules { path, message } =>
                    "PMEMC could not read ignore rules from "@ + path@ + ": "@ + message@,
            },
    {
        let mut out: Vec<char> = Vec::new();
        match self {
            InventoryError::Git { path, message } => {
                push_str(&mut out, "PMEMC could not inventory ");
                push_str(&mut out, path.as_str());
                push_str(&mut out, ": ");
                push_str(&mut out, message.as_str());
            },
            InventoryError::IgnoreRules { path, message } => {
                push_str(&mut out, "PMEMC could not read ignore rules from ");
                push_str(&mut out, path.as_str());
                push_str(&mut out, ": ");
                push_str(&mut out, message.as_str());
            },
        }
        from_chars(out.as_slice())
    }
}

// ----------------------------------------------------------------------------
// Path classification
// ----------------------------------------------------------------------------

/// The last `/`-separated component of `path` (the whole path without `/`).
pub open spec fn file_name(path: Seq<char>) -> Seq<char>
    decreases path.len(),
{
    if path.len() == 0 {
        path
    } else if path.last() == '/' {
        Seq::<char>::empty()
    } else {
        file_name(path.drop_last()).push(path.last())
    }
}

/// Executable form of [`file_name`].
pub fn file_name_of(path: &Vec<char>) -> (result: Vec<char>)
    ensures
        result@ == file_name(path@),
{
    let mut cur: Vec<char> = Vec::new();
    let mut i: usize = 0;
    while i < path.len()
        invariant
            i <= path.len(),
            cur@ == file_name(path@.take(i as int)),
        decreases path.len() - i,
    {
        assert(path@.take(i + 1).drop_last() =~= path@.take(i as int));
        if path[i] == '/' {
            cur = Vec::new();
        } else {
            cur.push(path[i]);
        }
        i = i + 1;
    }
    assert(path@.take(i as int) =~= path@);
    cur
}

/// The text after the last `.` of `path`, if it has one (`str::rsplit_once('.')`).
pub open spec fn extension(path: Seq<char>) -> Option<Seq<char>>
    decreases path.len(),
{
    if path.len() == 0 {
        None
    } else if path.last() == '.' {
        Some(Seq::<char>::empty())
    } else {
        match extension(path.drop_last()) {
            None => None,
            Some(e) => Some(e.push(path.last())),
        }
    }
}

/// Executable form of [`extension`].
pub fn extension_of(path: &Vec<char>) -> (result: Option<Vec<char>>)
    ensures
        match result {
            None => extension(path@) is None,
            Some(e) => extension(path@) == Some(e@),
        },
{
    let mut cur: Option<Vec<char>> = None;
    let mut i: usize = 0;
    while i < path.len()
        invariant
            i <= path.len(),
            match cur {
                None => extension(path@.take(i as int)) is None,
                Some(e) => extension(path@.take(i as int)) == Some(e@),
            },
        decreases path.len() - i,
    {
        assert(path@.take(i + 1).drop_last() =~= path@.take(i as int));
        if path[i] == '.' {
            cur = Some(Vec::new());
        } else {
            cur = match cur {
                None => None,
                Some(mut e) => {
                    e.push(path[i]);
                    Some(e)
                },
            };
        }
        i = i + 1;
    }
    assert(path@.take(i as int) =~= path@);
    cur
}

/// The language a path's extension names.
pub open spec fn language_of(path: Seq<char>) -> Language {
    match extension(path) {
        None => Language::Unsupported,
        Some(e) => if e == "rs"@ {
            Language::Rust
        } else if e == "py"@ {
            Language::Python
        } else if e == "java"@ {
            Language::Java
        } else if e == "go"@ {
            Language::Go
        } else if e == "js"@ || e == "mjs"@ || e == "cjs"@ {
            Language::JavaScript
        } else if e == "ts"@ || e == "mts"@ || e == "cts"@ {
            Language::TypeScript
        } else if e == "jsx"@ {
            Language::Jsx
        } else if e == "tsx"@ {
            Language::Tsx
        } else if e == "md"@ || e == "markdown"@ || e == "json"@ || e == "yaml"@ || e == "yml"@
            || e == "toml"@ || e == "ipynb"@ {
            Language::GenericText
        } else {
            Language::Unsupported
        },
    }
}

/// Classifies a path by its extension.
pub fn language_for(path: &str) -> (result: Language)
    ensures
        result == language_of(path@),
{
    let chars = to_chars(path);
    match extension_of(&chars) {
        None => Language::Unsupported,
        Some(e) => {
            if str_equals(&e, "rs") {
                Language::Rust
            } else if str_equals(&e, "py") {
                Language::Python
            } else if str_equals(&e, "java") {
                Language::Java
            } else if str_equals(&e, "go") {
                Language::Go
            } else if str_equals(&e, "js") || str_equals(&e, "mjs") || str_equals(&e, "cjs") {
                Language::JavaScript
            } else if str_equals(&e, "ts") || str_equals(&e, "mts") || str_equals(&e, "cts") {
                Language::TypeScript
            } else if str_equals(&e, "jsx") {
                Language::Jsx
            } else if str_equals(&e, "tsx") {
                Language::Tsx
            } else if str_equals(&e, "md") || str_equals(&e, "markdown") || str_equals(&e, "json")
                || str_equals(&e, "yaml") || str_equals(&e, "yml") || str_equals(&e, "toml")
                || str_equals(&e, "ipynb") {
                Language::GenericText
            } else {
                Language::Unsupported
            }
        },
    }
}

/// Directory names whose contents are never inspected.
pub open spec fn excluded_directory(component: Seq<char>) -> bool {
    component == ".git"@ || component == "node_modules"@ || component == "vendor"@ || component
        == "target"@ || component == "build"@ || component == "dist"@ || component == "out"@
}

/// Paths left out whatever the ignore rules say: environment files, key
/// material, and anything under a dependency, build or VCS directory.
pub open spec fn default_excluded(path: Seq<char>) -> bool {
    let name = file_name(path);
    ||| name == ".env"@
    ||| ".env."@.is_prefix_of(name)
    ||| ".pem"@.is_suffix_of(name)
    ||| ".key"@.is_suffix_of(name)
    ||| ".p12"@.is_suffix_of(name)
    ||| ".pfx"@.is_suffix_of(name)
    ||| exists|i: int|
        0 <= i < split_on(path, '/').len() && excluded_directory(#[trigger] split_on(path, '/')[i])
}

fn is_excluded_directory(component: &Vec<char>) -> (result: bool)
    ensures
        result == excluded_directory(component@),
{
    str_equals(component, ".git") || str_equals(component, "node_modules") || str_equals(
        component,
        "vendor",
    ) || str_equals(component, "target") || str_equals(component, "build") || str_equals(
        component,
        "dist",
    ) || str_equals(component, "out")
}

/// Whether `path` is excluded by default.
pub fn is_default_excluded(path: &str) -> (result: bool)
    ensures
        result == default_excluded(path@),
{
    let chars = to_chars(path);
    let name = file_name_of(&chars);
    let env = to_chars(".env.");
    let pem = to_chars(".pem");
    let key = to_chars(".key");
    let p12 = to_chars(".p12");
    let pfx = to_chars(".pfx");
    if str_equals(&name, ".env") || crate::text::starts_with(&name, &env)
        || crate::text::ends_with(&name, &pem) || crate::text::ends_with(&name, &key)
        || crate::text::ends_with(&name, &p12) || crate::text::ends_with(&name, &pfx) {
        return true;
    }
    let parts = split_chars(&chars, '/');
    let mut i: usize = 0;
    while i < parts.len()
        invariant
            i <= parts.len(),
            views(parts@) == split_on(path@, '/'),
            chars@ == path@,
            forall|j: int| 0 <= j < i ==> !excluded_directory(#[trigger] split_on(path@, '/')[j]),
        decreases parts.len() - i,
    {
        assert(views(parts@)[i as int] == parts@[i as int]@);
        if is_excluded_directory(&parts[i]) {
            return true;
        }
        i = i + 1;
    }
    false
}

// ----------------------------------------------------------------------------
// Ignore rules
// ----------------------------------------------------------------------------

/// Matches the `*`-separated pieces `segments` against `rest`, left to
/// right: empty pieces are skipped, each other piece is found at its first
/// occurrence after the previous one, and while `anchored` holds the next
/// piece must occur at the very start.  Yields what is left of `rest`.
pub open spec fn glob_rest(segments: Seq<Seq<char>>, rest: Seq<char>, anchored: bool) -> Option<
    Seq<char>,
>
    decreases segments.len(),
{
    if segments.len() == 0 {
        Some(rest)
    } else if segments[0].len() == 0 {
        glob_rest(segments.skip(1), rest, anchored)
    } else {
        let pos = find_position(rest, segments[0]);
        if pos < 0 || (anchored && pos != 0) {
            None
        } else {
            glob_rest(segments.skip(1), rest.skip(pos + segments[0].len()), false)
        }
    }
}

/// Whether an ignore pattern matches a path.  Without `*` the pattern,
/// stripped of trailing `/`, must equal the path; with `*` the pieces
/// between stars must occur in order, the first at the start unless the
/// pattern starts with `*`, and the path must be used up unless the pattern
/// ends with `*`.
pub open spec fn glob_matches(pattern: Seq<char>, path: Seq<char>) -> bool {
    if !pattern.contains('*') {
        trim_end_char(pattern, '/') == path
    } else {
        match glob_rest(split_on(pattern, '*'), path, pattern[0] != '*') {
            None => false,
            Some(rest) => pattern.last() == '*' || rest.len() == 0,
        }
    }
}

/// Whether `pattern` matches `path`.
pub fn matches(pattern: &str, path: &str) -> (result: bool)
    ensures
        result == glob_matches(pattern@, path@),
{
    let pat = to_chars(pattern);
    let p = to_chars(path);
    match crate::text::find_char(&pat, '*') {
        None => {
            let t = trim_end_chars(&pat, '/');
            chars_equal(&t, &p)
        },
        Some(star) => {
            assert(pat@[star as int] == '*');
            assert(pat@.contains('*'));
            let segments = split_chars(&pat, '*');
            let anchored0 = pat[0] != '*';
            let mut anchored = anchored0;
            let mut rest = p;
            let mut i: usize = 0;
            assert(views(segments@).skip(0) =~= views(segments@));
            while i < segments.len()
                invariant
                    i <= segments.len(),
                    pat@ == pattern@,
                    pat@.len() > 0,
                    pat@.contains('*'),
                    anchored0 == (pat@[0] != '*'),
                    views(segments@) == split_on(pat@, '*'),
                    glob_rest(split_on(pat@, '*'), path@, anchored0) == glob_rest(
                        views(segments@).skip(i as int),
                        rest@,
                        anchored,
                    ),
                decreases segments.len() - i,
            {
                let seg = &segments[i];
                assert(views(segments@).skip(i as int)[0] == seg@);
                assert(views(segments@).skip(i as int).skip(1) =~= views(segments@).skip(i + 1));
                if seg.len() > 0 {
                    match find_seq(&rest, seg) {
                        None => {
                            assert(!(exists|k: int| first_occurrence(rest@, seg@, k)));
                            return false;
                        },
                        Some(pos) => {
                            let rest_len = rest.len();
                            assert(pos + seg@.len() <= rest_len);
                            let end: usize = pos + seg.len();
                            assert(exists|k: int| first_occurrence(rest@, seg@, k));
                            proof {
                                crate::text::lemma_first_occurrence_unique(
                                    rest@,
                                    seg@,
                                    pos as int,
                                    find_position(rest@, seg@),
                                );
                            }
                            if anchored && pos != 0 {
                                return false;
                            }
                            let next = slice_chars(&rest, end, rest.len());
                            assert(next@ =~= rest@.skip(pos + seg@.len()));
                            rest = next;
                            anchored = false;
                        },
                    }
                }
                i = i + 1;
            }
            assert(views(segments@).skip(i as int) =~= Seq::<Seq<char>>::empty());
            pat[pat.len() - 1] == '*' || rest.len() == 0
        },
    }
}

/// Whether any of `patterns` matches `path`.
pub open spec fn ignored_by(patterns: Seq<Seq<char>>, path: Seq<char>) -> bool {
    exists|i: int| 0 <= i < patterns.len() && glob_matches(#[trigger] patterns[i], path)
}

fn any_pattern_matches(patterns: &Vec<String>, path: &str) -> (result: bool)
    ensures
        result == ignored_by(strs(patterns@), path@),
{
    let mut i: usize = 0;
    while i < patterns.len()
        invariant
            i <= patterns.len(),
            forall|j: int| 0 <= j < i ==> !glob_matches(#[trigger] strs(patterns@)[j], path@),
        decreases patterns.len() - i,
    {
        assert(strs(patterns@)[i as int] == patterns@[i as int]@);
        if matches(patterns[i].as_str(), path) {
            return true;
        }
        i = i + 1;
    }
    false
}

/// The rules kept from the lines of an ignore file: trimmed, without blank
/// lines and `#` comments.
pub open spec fn kept_rules(lines: Seq<Seq<char>>) -> Seq<Seq<char>>
    decreases lines.len(),
{
    if lines.len() == 0 {
        Seq::<Seq<char>>::empty()
    } else {
        let prev = kept_rules(lines.drop_last());
        let t = trim(lines.last());
        if t.len() == 0 || t[0] == '#' {
            prev
        } else {
            prev.push(t)
        }
    }
}

/// The ignore rules of an ignore file's contents.
pub fn ignore_patterns(contents: &str) -> (result: Vec<String>)
    ensures
        strs(result@) == kept_rules(lines(contents@)),
{
    let chars = to_chars(contents);
    let ls = lines_of(&chars);
    let mut result: Vec<String> = Vec::new();
    let mut i: usize = 0;
    while i < ls.len()
        invariant
            i <= ls.len(),
            views(ls@) == lines(contents@),
            strs(result@) == kept_rules(views(ls@).take(i as int)),
        decreases ls.len() - i,
    {
        assert(views(ls@).take(i + 1).drop_last() =~= views(ls@).take(i as int));
        assert(views(ls@).take(i + 1).last() == ls@[i as int]@);
        let t = trim_chars(&ls[i]);
        if t.len() > 0 && t[0] != '#' {
            let ghost before = result@;
            result.push(from_chars(t.as_slice()));
            assert(strs(result@) =~= strs(before).push(t@));
        }
        i = i + 1;
    }
    assert(views(ls@).take(i as int) =~= views(ls@));
    result
}

// ----------------------------------------------------------------------------
// Candidate paths and the final inventory
// ----------------------------------------------------------------------------

/// The text std's `String::from_utf8_lossy` decodes from `bytes`.
pub uninterp spec fn lossy_utf8(bytes: Seq<u8>) -> Seq<char>;

/// Decodes bytes with std's `String::from_utf8_lossy`, which replaces each
/// invalid sequence by U+FFFD and is a function of the bytes alone.
#[verifier::external_body]
pub(crate) fn decode_lossy(bytes: &[u8]) -> (result: String)
    ensures
        result@ == lossy_utf8(bytes@),
{
    String::from_utf8_lossy(bytes).into_owned()
}

/// The pieces of `s` between zero bytes.
pub open spec fn split_nul(s: Seq<u8>) -> Seq<Seq<u8>>
    decreases s.len(),
{
    if s.len() == 0 {
        seq![Seq::<u8>::empty()]
    } else {
        let prev = split_nul(s.drop_last());
        if s.last() == 0 {
            prev.push(Seq::<u8>::empty())
        } else {
            prev.update(prev.len() - 1, prev.last().push(s.last()))
        }
    }
}

proof fn lemma_split_nul_nonempty(s: Seq<u8>)
    ensures
        split_nul(s).len() >= 1,
    decreases s.len(),
{
    if s.len() > 0 {
        lemma_split_nul_nonempty(s.drop_last());
    }
}

/// The byte vectors' contents.
pub open spec fn byte_views(v: Seq<Vec<u8>>) -> Seq<Seq<u8>> {
    v.map_values(|x: Vec<u8>| x@)
}

pub(crate) fn split_at_nul(s: &Vec<u8>) -> (result: Vec<Vec<u8>>)
    ensures
        byte_views(result@) == split_nul(s@),
{
    let mut pieces: Vec<Vec<u8>> = Vec::new();
    let mut cur: Vec<u8> = Vec::new();
    let mut i: usize = 0;
    while i < s.len()
        invariant
            i <= s.len(),
            byte_views(pieces@).push(cur@) == split_nul(s@.take(i as int)),
        decreases s.len() - i,
    {
        let ghost before = byte_views(pieces@).push(cur@);
        proof {
            assert(s@.take(i + 1).drop_last() =~= s@.take(i as int));
            lemma_split_nul_nonempty(s@.take(i as int));
        }
        let ghost old_pieces = pieces@;
        let ghost old_cur = cur@;
        if s[i] == 0 {
            pieces.push(cur);
            cur = Vec::new();
            assert(byte_views(pieces@) =~= byte_views(old_pieces).push(old_cur));
            assert(byte_views(pieces@).push(cur@) =~= before.push(Seq::<u8>::empty()));
        } else {
            cur.push(s[i]);
            assert(byte_views(pieces@).push(cur@) =~= before.update(
                before.len() - 1,
                before.last().push(s@[i as int]),
            ));
        }
        i = i + 1;
    }
    assert(s@.take(i as int) =~= s@);
    let ghost old_pieces = pieces@;
    let ghost old_cur = cur@;
    pieces.push(cur);
    assert(byte_views(pieces@) =~= byte_views(old_pieces).push(old_cur));
    pieces
}

/// The candidate paths among the NUL-separated pieces of Git's output:
/// non-empty pieces, decoded, that are neither excluded by default nor
/// matched by an ignore rule.
pub open spec fn candidates(pieces: Seq<Seq<u8>>, patterns: Seq<Seq<char>>) -> Seq<Seq<char>>
    decreases pieces.len(),
{
    if pieces.len() == 0 {
        Seq::<Seq<char>>::empty()
    } else {
        let prev = candidates(pieces.drop_last(), patterns);
        let p = lossy_utf8(pieces.last());
        if pieces.last().len() == 0 || default_excluded(p) || ignored_by(patterns, p) {
            prev
        } else {
            prev.push(p)
        }
    }
}

/// The paths of `git ls-files -z` output that take part in inspection, in
/// the order Git listed them.
pub fn candidate_paths(output: &Vec<u8>, patterns: &Vec<String>) -> (result: Vec<String>)
    ensures
        strs(result@) == candidates(split_nul(output@), strs(patterns@)),
{
    let pieces = split_at_nul(output);
    let mut result: Vec<String> = Vec::new();
    let mut i: usize = 0;
    while i < pieces.len()
        invariant
            i <= pieces.len(),
            byte_views(pieces@) == split_nul(output@),
            strs(result@) == candidates(byte_views(pieces@).take(i as int), strs(patterns@)),
        decreases pieces.len() - i,
    {
        assert(byte_views(pieces@).take(i + 1).drop_last() =~= byte_views(pieces@).take(
            i as int,
        ));
        assert(byte_views(pieces@).take(i + 1).last() == pieces@[i as int]@);
        let piece = &pieces[i];
        if piece.len() > 0 {
            let path = decode_lossy(piece.as_slice());
            if !is_default_excluded(path.as_str()) && !any_pattern_matches(
                patterns,
                path.as_str(),
            ) {
                let ghost before = result@;
                result.push(path);
                assert(strs(result@) =~= strs(before).push(result@.last()@));
            }
        }
        i = i + 1;
    }
    assert(byte_views(pieces@).take(i as int) =~= byte_views(pieces@));
    result
}

impl SortKey<Natural> for InventoryFile {
    open spec fn key_le(&self, other: &Self) -> bool {
        seq_le(self.path@, other.path@)
    }

    fn le(&self, other: &Self) -> (result: bool) {
        str_le(self.path.as_str(), other.path.as_str())
    }

    proof fn lemma_total(a: &Self, b: &Self) {
        lemma_seq_le_total(a.path@, b.path@);
    }

    proof fn lemma_transitive(a: &Self, b: &Self, c: &Self) {
        lemma_seq_le_transitive(a.path@, b.path@, c.path@);
    }
}

/// The files kept from the candidates: each one not found to be binary,
/// with its language.
pub open spec fn kept_files(paths: Seq<String>, binary: Seq<bool>) -> Seq<InventoryFile>
    decreases paths.len(),
{
    if paths.len() == 0 || binary.len() == 0 {
        Seq::<InventoryFile>::empty()
    } else {
        let prev = kept_files(paths.drop_last(), binary.drop_last());
        if binary.last() {
            prev
        } else {
            prev.push(InventoryFile { path: paths.last(), language: language_of(paths.last()@) })
        }
    }
}

/// The inventory of the candidate paths, leaving out those found binary
/// (`binary[i]` for `paths[i]`), ordered by path.
pub fn inventory_from(paths: Vec<String>, binary: Vec<bool>) -> (result: Inventory)
    requires
        paths.len() == binary.len(),
    ensures
        sorted::<Natural, InventoryFile>(result.files@),
        result.files@.to_multiset() == kept_files(paths@, binary@).to_multiset(),
{
    let mut rest = paths;
    let ghost all = rest@;
    let mut files: Vec<InventoryFile> = Vec::new();
    let mut i: usize = 0;
    while i < binary.len()
        invariant
            i <= binary.len(),
            all.len() == binary.len(),
            rest@ == all.skip(i as int),
            files@ == kept_files(all.take(i as int), binary@.take(i as int)),
        decreases binary.len() - i,
    {
        assert(all.take(i + 1).drop_last() =~= all.take(i as int));
        assert(binary@.take(i + 1).drop_last() =~= binary@.take(i as int));
        assert(rest@[0] == all[i as int]);
        let path = rest.remove(0);
        assert(rest@ =~= all.skip(i + 1));
        if !binary[i] {
            let language = language_for(path.as_str());
            files.push(InventoryFile { path, language });
        }
        i = i + 1;
    }
    assert(all.take(i as int) =~= all);
    assert(binary@.take(i as int) =~= binary@);
    Inventory { files: stable_sort::<Natural, InventoryFile>(files) }
}

/// The error for a failed Git listing: its standard error, decoded and trimmed.
pub fn git_failure(path: String, stderr: &Vec<u8>) -> (result: InventoryError)
    ensures
        result matches InventoryError::Git { path: p, message } && p == path && message@
            == trim(lossy_utf8(stderr@)),
{
    let text = decode_lossy(stderr.as_slice());
    InventoryError::Git { path, message: trimmed(text.as_str()) }
}

proof fn lemma_extension_after_last_dot(stem: Seq<char>, ext: Seq<char>)
    requires
        !ext.contains('.'),
    ensures
        extension(stem + "."@ + ext) == Some(ext),
    decreases ext.len(),
{
    reveal_strlit(".");
    let path = stem + "."@ + ext;
    if ext.len() == 0 {
        assert(path.last() == '.');
    } else {
        assert(!ext.drop_last().contains('.')) by {
            if ext.drop_last().contains('.') {
                let k = choose|k: int| 0 <= k < ext.drop_last().len() && ext.drop_last()[k] == '.';
                assert(ext[k] == '.');
            }
        }
        lemma_extension_after_last_dot(stem, ext.drop_last());
        assert(path.drop_last() =~= stem + "."@ + ext.drop_last());
        assert(path.last() == ext.last());
        assert(ext[ext.len() - 1] != '.');
        assert(ext.drop_last().push(ext.last()) =~= ext);
    }
}

/// A path is classified by the text after its last `.`, whatever comes
/// before it: `rs` is Rust, `py` Python, `java` Java, `go` Go; `js`, `mjs`
/// and `cjs` are JavaScript; `ts`, `mts` and `cts` TypeScript; `jsx` and
/// `tsx` their JSX forms; `md`, `markdown`, `json`, `yaml`, `yml`, `toml`
/// and `ipynb` are generic text; and a path without a `.` is unsupported.
pub proof fn law_languages_follow_the_extension(stem: Seq<char>)
    ensures
        language_of(stem + ".rs"@) == Language::Rust,
        language_of(stem + ".py"@) == Language::Python,
        language_of(stem + ".java"@) == Language::Java,
        language_of(stem + ".go"@) == Language::Go,
        language_of(stem + ".js"@) == Language::JavaScript,
        language_of(stem + ".mjs"@) == Language::JavaScript,
        language_of(stem + ".cjs"@) == Language::JavaScript,
        language_of(stem + ".ts"@) == Language::TypeScript,
        language_of(stem + ".mts"@) == Language::TypeScript,
        language_of(stem + ".cts"@) == Language::TypeScript,
        language_of(stem + ".jsx"@) == Language::Jsx,
        language_of(stem + ".tsx"@) == Language::Tsx,
        language_of(stem + ".md"@) == Language::GenericText,
        language_of(stem + ".markdown"@) == Language::GenericText,
        language_of(stem + ".json"@) == Language::GenericText,
        language_of(stem + ".yaml"@) == Language::GenericText,
        language_of(stem + ".yml"@) == Language::GenericText,
        language_of(stem + ".toml"@) == Language::GenericText,
        language_of(stem + ".ipynb"@) == Language::GenericText,
        !stem.contains('.') ==> language_of(stem) == Language::Unsupported,
{
    reveal_strlit(".");
    reveal_strlit("rs");
    reveal_strlit("py");
    reveal_strlit("java");
    reveal_strlit("go");
    reveal_strlit("js");
    reveal_strlit("mjs");
    reveal_strlit("cjs");
    reveal_strlit("ts");
    reveal_strlit("mts");
    reveal_strlit("cts");
    reveal_strlit("jsx");
    reveal_strlit("tsx");
    reveal_strlit("md");
    reveal_strlit("markdown");
    reveal_strlit("json");
    reveal_strlit("yaml");
    reveal_strlit("yml");
    reveal_strlit("toml");
    reveal_strlit("ipynb");
    reveal_strlit(".rs");
    reveal_strlit(".py");
    reveal_strlit(".java");
    reveal_strlit(".go");
    reveal_strlit(".js");
    reveal_strlit(".mjs");
    reveal_strlit(".cjs");
    reveal_strlit(".ts");
    reveal_strlit(".mts");
    reveal_strlit(".cts");
    reveal_strlit(".jsx");
    reveal_strlit(".tsx");
    reveal_strlit(".md");
    reveal_strlit(".markdown");
    reveal_strlit(".json");
    reveal_strlit(".yaml");
    reveal_strlit(".yml");
    reveal_strlit(".toml");
    reveal_strlit(".ipynb");
    assert("js"@[0] != "rs"@[0]);
    assert("js"@[0] != "py"@[0]);
    assert("js"@[0] != "go"@[0]);
    assert("ts"@[0] != "rs"@[0]);
    assert("ts"@[0] != "py"@[0]);
    assert("ts"@[0] != "go"@[0]);
    assert("ts"@[0] != "js"@[0]);
    assert("mts"@[1] != "mjs"@[1]);
    assert("mts"@[0] != "cjs"@[0]);
    assert("cts"@[0] != "mjs"@[0]);
    assert("cts"@[1] != "cjs"@[1]);
    assert("cts"@[0] != "mts"@[0]);
    assert("tsx"@[0] != "mjs"@[0]);
    assert("tsx"@[0] != "cjs"@[0]);
    assert("tsx"@[0] != "mts"@[0]);
    assert("tsx"@[0] != "cts"@[0]);
    assert("tsx"@[0] != "jsx"@[0]);
    let exts = seq![
        "rs"@, "py"@, "java"@, "go"@, "js"@, "mjs"@, "cjs"@, "ts"@, "mts"@, "cts"@, "jsx"@,
        "tsx"@, "md"@, "markdown"@, "json"@, "yaml"@, "yml"@, "toml"@, "ipynb"@
    ];
    assert forall|k: int| 0 <= k < exts.len() implies extension(stem + "."@ + #[trigger] exts[k]) == Some(exts[k]) by {
        assert(!exts[k].contains('.'));
        lemma_extension_after_last_dot(stem, exts[k]);
    }
    assert(stem + ".rs"@ =~= stem + "."@ + exts[0]);
    assert(stem + ".py"@ =~= stem + "."@ + exts[1]);
    assert(stem + ".java"@ =~= stem + "."@ + exts[2]);
    assert(stem + ".go"@ =~= stem + "."@ + exts[3]);
    assert(stem + ".js"@ =~= stem + "."@ + exts[4]);
    assert(stem + ".mjs"@ =~= stem + "."@ + exts[5]);
    assert(stem + ".cjs"@ =~= stem + "."@ + exts[6]);
    assert(stem + ".ts"@ =~= stem + "."@ + exts[7]);
    assert(stem + ".mts"@ =~= stem + "."@ + exts[8]);
    assert(stem + ".cts"@ =~= stem + "."@ + exts[9]);
    assert(stem + ".jsx"@ =~= stem + "."@ + exts[10]);
    assert(stem + ".tsx"@ =~= stem + "."@ + exts[11]);
    assert(stem + ".md"@ =~= stem + "."@ + exts[12]);
    assert(stem + ".markdown"@ =~= stem + "."@ + exts[13]);
    assert(stem + ".json"@ =~= stem + "."@ + exts[14]);
    assert(stem + ".yaml"@ =~= stem + "."@ + exts[15]);
    assert(stem + ".yml"@ =~= stem + "."@ + exts[16]);
    assert(stem + ".toml"@ =~= stem + "."@ + exts[17]);
    assert(stem + ".ipynb"@ =~= stem + "."@ + exts[18]);
    if !stem.contains('.') {
        lemma_no_dot_no_extension(stem);
    }
}

proof fn lemma_no_dot_no_extension(path: Seq<char>)
    requires
        !path.contains('.'),
    ensures
        extension(path) is None,
    decreases path.len(),
{
    if path.len() > 0 {
        assert(path[path.len() - 1] != '.');
        assert(!path.drop_last().contains('.')) by {
            if path.drop_last().contains('.') {
                let k = choose|k: int| 0 <= k < path.drop_last().len() && path.drop_last()[k] == '.';
                assert(path[k] == '.');
            }
        }
        lemma_no_dot_no_extension(path.drop_last());
    }
}

} // verus!
