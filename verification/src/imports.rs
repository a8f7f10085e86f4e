//! Which repository file an import statement names, per language.
//!
//! `known` is the set of repository paths, held as a sequence without
//! duplicates; an import resolves only to a path in it.

use vstd::prelude::*;
use crate::text::{
    contains_seq, find_position, first_occurrence, from_chars, join, join_chars, position_of,
    push_all, push_str, slice_chars, split_chars, split_on, str_equals, strs, to_chars, trim,
    trim_chars, views, words, words_of, strip_prefix, strip_prefix_str, ends_with, starts_with,
    contains_string, lines, lines_of,
};

verus! {

broadcast use vstd::string::group_string_axioms;

/// The part of `s` before the first occurrence of `sep`, or all of `s`
/// (`s.split(sep).next()`).
pub open spec fn before_first(s: Seq<char>, sep: Seq<char>) -> Seq<char> {
    if contains_seq(s, sep) {
        s.take(find_position(s, sep))
    } else {
        s
    }
}

/// Executable form of [`before_first`].
pub fn before_first_of(s: &Vec<char>, sep: &Vec<char>) -> (result: Vec<char>)
    ensures
        result@ == before_first(s@, sep@),
{
    match position_of(s, sep) {
        Some(i) => {
            let r = slice_chars(s, 0, i);
            assert(r@ =~= s@.take(i as int));
            r
        },
        None => {
            let r = slice_chars(s, 0, s.len());
            assert(r@ =~= s@);
            r
        },
    }
}

/// The directory part of a `/`-separated path: everything before its last
/// `/`, or nothing.
pub open spec fn directory_of(path: Seq<char>) -> Seq<char>
    decreases path.len(),
{
    if path.len() == 0 {
        path
    } else if path.last() == '/' {
        path.drop_last()
    } else {
        directory_of(path.drop_last())
    }
}

/// Executable form of [`directory_of`].
pub fn directory_of_path(path: &Vec<char>) -> (result: Vec<char>)
    ensures
        result@ == directory_of(path@),
{
    match crate::text::rfind_char(path, '/') {
        Some(i) => {
            let r = slice_chars(path, 0, i);
            proof {
                lemma_directory_at(path@, i as int);
            }
            r
        },
        None => {
            proof {
                lemma_directory_none(path@);
            }
            Vec::new()
        },
    }
}

proof fn lemma_directory_at(path: Seq<char>, i: int)
    requires
        0 <= i < path.len(),
        path[i] == '/',
        forall|j: int| i < j < path.len() ==> path[j] != '/',
    ensures
        directory_of(path) == path.subrange(0, i),
    decreases path.len(),
{
    if path.len() - 1 == i {
        assert(path.drop_last() =~= path.subrange(0, i));
    } else {
        lemma_directory_at(path.drop_last(), i);
        assert(path.drop_last().subrange(0, i) =~= path.subrange(0, i));
    }
}

proof fn lemma_directory_none(path: Seq<char>)
    requires
        !path.contains('/'),
    ensures
        directory_of(path) == Seq::<char>::empty(),
    decreases path.len(),
{
    if path.len() > 0 {
        assert(path.drop_last().len() < path.len());
        assert(!path.drop_last().contains('/')) by {
            if path.drop_last().contains('/') {
                let k = choose|k: int| 0 <= k < path.drop_last().len() && path.drop_last()[k] == '/';
                assert(path[k] == '/');
            }
        }
        assert(path[path.len() - 1] != '/');
        lemma_directory_none(path.drop_last());
    }
}

/// The first of `a`, `b` that is a known path.
pub open spec fn first_known(known: Seq<Seq<char>>, a: Seq<char>, b: Seq<char>) -> Option<
    Seq<char>,
> {
    if known.contains(a) {
        Some(a)
    } else if known.contains(b) {
        Some(b)
    } else {
        None
    }
}

fn is_known(known: &Vec<String>, candidate: &Vec<char>) -> (result: bool)
    ensures
        result == strs(known@).contains(candidate@),
{
    let s = from_chars(candidate.as_slice());
    contains_string(known, &s)
}

fn pick_known(known: &Vec<String>, a: Vec<char>, b: Vec<char>) -> (result: Option<String>)
    ensures
        match result {
            Some(r) => first_known(strs(known@), a@, b@) == Some(r@),
            None => first_known(strs(known@), a@, b@) is None,
        },
{
    if is_known(known, &a) {
        Some(from_chars(a.as_slice()))
    } else if is_known(known, &b) {
        Some(from_chars(b.as_slice()))
    } else {
        None
    }
}

// ----------------------------------------------------------------------------
// Rust
// ----------------------------------------------------------------------------

/// The file a `use crate::module...` declaration imports: `src/module.rs`
/// or `src/module/mod.rs`, whichever is known first.
pub open spec fn rust_use_target(declaration: Seq<char>, known: Seq<Seq<char>>) -> Option<
    Seq<char>,
> {
    match strip_prefix(trim(declaration), "use crate::"@) {
        None => None,
        Some(rest) => {
            let module = trim(before_first(rest, "::"@));
            first_known(known, "src/"@ + module + ".rs"@, "src/"@ + module + "/mod.rs"@)
        },
    }
}

/// The file a Rust `use` declaration imports.
pub fn rust_import_target(declaration: &str, known: &Vec<String>) -> (result: Option<String>)
    ensures
        match result {
            Some(r) => rust_use_target(declaration@, strs(known@)) == Some(r@),
            None => rust_use_target(declaration@, strs(known@)) is None,
        },
{
    let chars = to_chars(declaration);
    let t = trim_chars(&chars);
    match strip_prefix_str(&t, "use crate::") {
        None => None,
        Some(rest) => {
            let sep = to_chars("::");
            let first = before_first_of(&rest, &sep);
            let module = trim_chars(&first);
            let mut a: Vec<char> = Vec::new();
            push_str(&mut a, "src/");
            push_all(&mut a, &module);
            push_str(&mut a, ".rs");
            let mut b: Vec<char> = Vec::new();
            push_str(&mut b, "src/");
            push_all(&mut b, &module);
            push_str(&mut b, "/mod.rs");
            pick_known(known, a, b)
        },
    }
}

/// The directory prefix of a source file: its directory and `/`, or
/// nothing at the top level.
pub open spec fn directory_prefix(source_path: Seq<char>) -> Seq<char> {
    let d = directory_of(source_path);
    if d.len() == 0 {
        d
    } else {
        d + "/"@
    }
}

/// The file a Rust `mod module;` item names, beside the declaring file.
pub open spec fn rust_mod_target(source_path: Seq<char>, module: Seq<char>, known: Seq<Seq<char>>) -> Option<
    Seq<char>,
> {
    let prefix = directory_prefix(source_path);
    first_known(known, prefix + module + ".rs"@, prefix + module + "/mod.rs"@)
}

/// The file a Rust `mod` item names.
pub fn rust_module_target(source_path: &str, module: &str, known: &Vec<String>) -> (result: Option<
    String,
>)
    ensures
        match result {
            Some(r) => rust_mod_target(source_path@, module@, strs(known@)) == Some(r@),
            None => rust_mod_target(source_path@, module@, strs(known@)) is None,
        },
{
    let sp = to_chars(source_path);
    let d = directory_of_path(&sp);
    let mut prefix = slice_chars(&d, 0, d.len());
    assert(prefix@ =~= d@);
    if d.len() > 0 {
        push_str(&mut prefix, "/");
    }
    let mut a = slice_chars(&prefix, 0, prefix.len());
    assert(a@ =~= prefix@);
    push_str(&mut a, module);
    push_str(&mut a, ".rs");
    let mut b = slice_chars(&prefix, 0, prefix.len());
    assert(b@ =~= prefix@);
    push_str(&mut b, module);
    push_str(&mut b, "/mod.rs");
    pick_known(known, a, b)
}

// ----------------------------------------------------------------------------
// Relative ECMAScript imports
// ----------------------------------------------------------------------------

/// The directory components a relative import starts from: those of the
/// source file's directory, or none at the top level.
pub open spec fn base_components(source_path: Seq<char>) -> Seq<Seq<char>> {
    if source_path.contains('/') {
        split_on(directory_of(source_path), '/')
    } else {
        Seq::<Seq<char>>::empty()
    }
}

/// Walks `parts` from `components`: empty parts and `.` stay, `..` goes up
/// (failing above the top), and other parts go down.
pub open spec fn walk(components: Seq<Seq<char>>, parts: Seq<Seq<char>>) -> Option<Seq<Seq<char>>>
    decreases parts.len(),
{
    if parts.len() == 0 {
        Some(components)
    } else {
        let c = parts[0];
        if c.len() == 0 || c == "."@ {
            walk(components, parts.skip(1))
        } else if c == ".."@ {
            if components.len() == 0 {
                None
            } else {
                walk(components.drop_last(), parts.skip(1))
            }
        } else {
            walk(components.push(c), parts.skip(1))
        }
    }
}

/// The extensions tried for an extension-less relative import.
pub open spec fn script_extensions() -> Seq<Seq<char>> {
    seq!["js"@, "mjs"@, "cjs"@, "ts"@, "mts"@, "cts"@, "jsx"@, "tsx"@]
}

/// The candidate files of a resolved import path: itself, and when its file
/// name has no `.`, the path with each script extension.
pub open spec fn relative_candidates(candidate: Seq<char>) -> Seq<Seq<char>> {
    if split_on(candidate, '/').last().contains('.') {
        seq![candidate]
    } else {
        seq![candidate] + script_extensions().map_values(|e: Seq<char>| candidate + "."@ + e)
    }
}

/// The known candidates, in order.
pub open spec fn known_among(candidates: Seq<Seq<char>>, known: Seq<Seq<char>>) -> Seq<Seq<char>>
    decreases candidates.len(),
{
    if candidates.len() == 0 {
        candidates
    } else {
        let prev = known_among(candidates.drop_last(), known);
        if known.contains(candidates.last()) {
            prev.push(candidates.last())
        } else {
            prev
        }
    }
}

/// The file a relative ECMAScript import names: the one known candidate,
/// when exactly one is known.
pub open spec fn relative_target(source_path: Seq<char>, module: Seq<char>, known: Seq<Seq<char>>) -> Option<
    Seq<char>,
> {
    if !("./"@.is_prefix_of(module) || "../"@.is_prefix_of(module)) {
        None
    } else {
        match walk(base_components(source_path), split_on(module, '/')) {
            None => None,
            Some(components) => {
                let found = known_among(relative_candidates(join(components, "/"@)), known);
                if found.len() == 1 {
                    Some(found[0])
                } else {
                    None
                }
            },
        }
    }
}

#[verifier::loop_isolation(false)]
fn walk_parts(components: Vec<Vec<char>>, parts: &Vec<Vec<char>>) -> (result: Option<Vec<Vec<char>>>)
    ensures
        match result {
            Some(r) => walk(views(components@), views(parts@)) == Some(views(r@)),
            None => walk(views(components@), views(parts@)) is None,
        },
{
    proof {
        reveal_strlit(".");
        reveal_strlit("..");
    }
    let ghost start = views(components@);
    let mut comps = components;
    let mut i: usize = 0;
    assert(views(parts@).skip(0) =~= views(parts@));
    while i < parts.len()
        invariant
            i <= parts.len(),
            walk(start, views(parts@)) == walk(views(comps@), views(parts@).skip(i as int)),
        decreases parts.len() - i,
    {
        let c = &parts[i];
        proof {
            reveal_strlit(".");
            reveal_strlit("..");
        }
        assert(views(parts@).skip(i as int)[0] == c@);
        assert(views(parts@).skip(i as int).skip(1) =~= views(parts@).skip(i + 1));
        if c.len() == 0 || str_equals(c, ".") {
        } else if str_equals(c, "..") {
            if comps.len() == 0 {
                return None;
            }
            let ghost before = comps@;
            comps.pop();
            assert(views(comps@) =~= views(before).drop_last());
        } else {
            let ghost before = comps@;
            comps.push(slice_chars(c, 0, c.len()));
            assert(c@.subrange(0, c@.len() as int) =~= c@);
            assert(views(comps@) =~= views(before).push(c@));
        }
        i = i + 1;
    }
    assert(views(parts@).skip(i as int) =~= Seq::<Seq<char>>::empty());
    Some(comps)
}

fn base_components_of(source_path: &Vec<char>) -> (result: Vec<Vec<char>>)
    ensures
        views(result@) == base_components(source_path@),
{
    match crate::text::find_char(source_path, '/') {
        Some(k) => {
            assert(source_path@[k as int] == '/');
            let d = directory_of_path(source_path);
            split_chars(&d, '/')
        },
        None => {
            let r: Vec<Vec<char>> = Vec::new();
            assert(views(r@) =~= Seq::<Seq<char>>::empty());
            r
        },
    }
}

/// The file a relative ECMAScript import names.
pub fn relative_import_target(source_path: &str, module: &str, known: &Vec<String>) -> (result:
    Option<String>)
    ensures
        match result {
            Some(r) => relative_target(source_path@, module@, strs(known@)) == Some(r@),
            None => relative_target(source_path@, module@, strs(known@)) is None,
        },
{
    let m = to_chars(module);
    let dot = to_chars("./");
    let dotdot = to_chars("../");
    if !(starts_with(&m, &dot) || starts_with(&m, &dotdot)) {
        return None;
    }
    let sp = to_chars(source_path);
    let base = base_components_of(&sp);
    let parts = split_chars(&m, '/');
    let comps = match walk_parts(base, &parts) {
        None => {
            return None;
        },
        Some(c) => c,
    };
    let slash = to_chars("/");
    let candidate = join_chars(&comps, &slash);
    let pieces = split_chars(&candidate, '/');
    let last = &pieces[pieces.len() - 1];
    assert(views(pieces@).last() == last@);
    let has_dot = match crate::text::find_char(last, '.') {
        Some(k) => {
            assert(last@[k as int] == '.');
            true
        },
        None => false,
    };
    let mut candidates: Vec<Vec<char>> = Vec::new();
    candidates.push(slice_chars(&candidate, 0, candidate.len()));
    assert(candidate@.subrange(0, candidate@.len() as int) =~= candidate@);
    if !has_dot {
        let exts: [&str; 8] = ["js", "mjs", "cjs", "ts", "mts", "cts", "jsx", "tsx"];
        let mut e: usize = 0;
        while e < 8
            invariant
                e <= 8,
                candidates@.len() == e + 1,
                views(candidates@) == seq![candidate@] + script_extensions().take(e as int).map_values(
                    |x: Seq<char>| candidate@ + "."@ + x,
                ),
                exts@.map_values(|x: &str| x@) == script_extensions(),
            decreases 8 - e,
        {
            let mut c = slice_chars(&candidate, 0, candidate.len());
            push_str(&mut c, ".");
            push_str(&mut c, exts[e]);
            let ghost before = candidates@;
            assert(exts@.map_values(|x: &str| x@)[e as int] == exts@[e as int]@);
            assert(exts@[e as int]@ == script_extensions()[e as int]);
            assert(c@ == candidate@ + "."@ + script_extensions()[e as int]);
            candidates.push(c);
            assert(views(candidates@) =~= views(before).push(candidate@ + "."@ + script_extensions()[e as int]));
            assert(script_extensions().take(e + 1) =~= script_extensions().take(e as int).push(script_extensions()[e as int]));
            assert(views(candidates@) =~= seq![candidate@] + script_extensions().take(e + 1).map_values(
                |x: Seq<char>| candidate@ + "."@ + x,
            ));
            e = e + 1;
        }
        assert(script_extensions().take(8) =~= script_extensions());
    } else {
        assert(views(candidates@) =~= seq![candidate@]);
    }
    assert(views(candidates@) == relative_candidates(candidate@));
    let mut found: Vec<Vec<char>> = Vec::new();
    let mut k: usize = 0;
    while k < candidates.len()
        invariant
            k <= candidates.len(),
            views(found@) == known_among(views(candidates@).take(k as int), strs(known@)),
        decreases candidates.len() - k,
    {
        assert(views(candidates@).take(k + 1).drop_last() =~= views(candidates@).take(k as int));
        assert(views(candidates@).take(k + 1).last() == candidates@[k as int]@);
        if is_known(known, &candidates[k]) {
            let ghost before = found@;
            found.push(slice_chars(&candidates[k], 0, candidates[k].len()));
            assert(candidates@[k as int]@.subrange(0, candidates@[k as int]@.len() as int) =~= candidates@[k as int]@);
            assert(views(found@) =~= views(before).push(candidates@[k as int]@));
        }
        k = k + 1;
    }
    assert(views(candidates@).take(k as int) =~= views(candidates@));
    if found.len() == 1 {
        assert(views(found@)[0] == found@[0]@);
        Some(from_chars(found[0].as_slice()))
    } else {
        None
    }
}

// ----------------------------------------------------------------------------
// Python, Java and Go
// ----------------------------------------------------------------------------

/// The number of leading `.` of `s`.
pub open spec fn leading_dots(s: Seq<char>) -> nat
    decreases s.len(),
{
    if s.len() > 0 && s[0] == '.' {
        1 + leading_dots(s.drop_first())
    } else {
        0
    }
}

/// `components` without its last `n`, if it has that many.
pub open spec fn pop_n(components: Seq<Seq<char>>, n: nat) -> Option<Seq<Seq<char>>>
    decreases n,
{
    if n == 0 {
        Some(components)
    } else if components.len() == 0 {
        None
    } else {
        pop_n(components.drop_last(), (n - 1) as nat)
    }
}

/// The module file a relative Python `from` import names: each leading `.`
/// beyond the first goes up one directory, and the dotted rest names the
/// file.
pub open spec fn python_target(source_path: Seq<char>, module: Seq<char>, known: Seq<Seq<char>>) -> Option<
    Seq<char>,
> {
    let levels = leading_dots(module);
    let rest = module.skip(levels as int);
    if levels == 0 || rest.len() == 0 {
        None
    } else {
        match pop_n(base_components(source_path), (levels - 1) as nat) {
            None => None,
            Some(c) => {
                let candidate = join(c + split_on(rest, '.'), "/"@) + ".py"@;
                if known.contains(candidate) {
                    Some(candidate)
                } else {
                    None
                }
            },
        }
    }
}

proof fn lemma_leading_dots(s: Seq<char>, i: int)
    requires
        0 <= i <= s.len(),
        forall|k: int| 0 <= k < i ==> s[k] == '.',
        i == s.len() || s[i] != '.',
    ensures
        leading_dots(s) == i,
    decreases i,
{
    if i > 0 {
        lemma_leading_dots(s.drop_first(), i - 1);
    }
}

/// The file a relative Python import names.
#[verifier::loop_isolation(false)]
pub fn python_import_target(source_path: &str, module: &str, known: &Vec<String>) -> (result: Option<
    String,
>)
    ensures
        match result {
            Some(r) => python_target(source_path@, module@, strs(known@)) == Some(r@),
            None => python_target(source_path@, module@, strs(known@)) is None,
        },
{
    let m = to_chars(module);
    let mut levels: usize = 0;
    while levels < m.len() && m[levels] == '.'
        invariant
            levels <= m.len(),
            forall|k: int| 0 <= k < levels ==> m@[k] == '.',
        decreases m.len() - levels,
    {
        levels = levels + 1;
    }
    proof {
        lemma_leading_dots(m@, levels as int);
    }
    let rest = slice_chars(&m, levels, m.len());
    assert(rest@ =~= m@.skip(levels as int));
    if levels == 0 || rest.len() == 0 {
        return None;
    }
    let sp = to_chars(source_path);
    let mut comps = base_components_of(&sp);
    let mut popped: usize = 0;
    let ghost base = views(comps@);
    while popped < levels - 1
        invariant
            popped <= levels - 1,
            levels >= 1,
            pop_n(base, (levels - 1) as nat) == pop_n(views(comps@), (levels - 1 - popped) as nat),
        decreases levels - 1 - popped,
    {
        if comps.len() == 0 {
            return None;
        }
        let ghost before = comps@;
        comps.pop();
        assert(views(comps@) =~= views(before).drop_last());
        popped = popped + 1;
    }
    let parts = split_chars(&rest, '.');
    let mut all = comps;
    let ghost before_all = views(all@);
    let mut k: usize = 0;
    while k < parts.len()
        invariant
            k <= parts.len(),
            views(all@) == before_all + views(parts@).take(k as int),
        decreases parts.len() - k,
    {
        let ghost b = all@;
        all.push(slice_chars(&parts[k], 0, parts[k].len()));
        assert(parts@[k as int]@.subrange(0, parts@[k as int]@.len() as int) =~= parts@[k as int]@);
        assert(views(all@) =~= views(b).push(parts@[k as int]@));
        assert(views(parts@).take(k + 1) =~= views(parts@).take(k as int).push(parts@[k as int]@));
        k = k + 1;
    }
    assert(views(parts@).take(k as int) =~= views(parts@));
    let slash = to_chars("/");
    let mut candidate = join_chars(&all, &slash);
    push_str(&mut candidate, ".py");
    if is_known(known, &candidate) {
        Some(from_chars(candidate.as_slice()))
    } else {
        None
    }
}

/// The known paths that end with `suffix`, in order.
pub open spec fn ending_with(known: Seq<Seq<char>>, suffix: Seq<char>) -> Seq<Seq<char>>
    decreases known.len(),
{
    if known.len() == 0 {
        known
    } else {
        let prev = ending_with(known.drop_last(), suffix);
        if suffix.is_suffix_of(known.last()) {
            prev.push(known.last())
        } else {
            prev
        }
    }
}

/// A dotted Java name as a source path: `a.b.C` is `a/b/C.java`.
pub open spec fn java_path(module: Seq<char>) -> Seq<char> {
    module.map_values(|c: char| if c == '.' { '/' } else { c }) + ".java"@
}

/// The file a Java import names: the path itself when known, else the one
/// known path ending in `/` and that path, when exactly one does.
pub open spec fn java_target(module: Seq<char>, known: Seq<Seq<char>>) -> Option<Seq<char>> {
    let candidate = java_path(module);
    if known.contains(candidate) {
        Some(candidate)
    } else {
        let found = ending_with(known, "/"@ + candidate);
        if found.len() == 1 {
            Some(found[0])
        } else {
            None
        }
    }
}

/// The file a Java import names.
pub fn java_import_target(module: &str, known: &Vec<String>) -> (result: Option<String>)
    ensures
        match result {
            Some(r) => java_target(module@, strs(known@)) == Some(r@),
            None => java_target(module@, strs(known@)) is None,
        },
{
    let m = to_chars(module);
    let mut candidate: Vec<char> = Vec::new();
    let mut i: usize = 0;
    while i < m.len()
        invariant
            i <= m.len(),
            candidate@ =~= m@.take(i as int).map_values(|c: char| if c == '.' { '/' } else { c }),
        decreases m.len() - i,
    {
        if m[i] == '.' {
            candidate.push('/');
        } else {
            candidate.push(m[i]);
        }
        i = i + 1;
    }
    assert(m@.take(i as int) =~= m@);
    push_str(&mut candidate, ".java");
    if is_known(known, &candidate) {
        return Some(from_chars(candidate.as_slice()));
    }
    let mut suffix: Vec<char> = Vec::new();
    push_str(&mut suffix, "/");
    push_all(&mut suffix, &candidate);
    let mut found: Vec<String> = Vec::new();
    let mut k: usize = 0;
    while k < known.len()
        invariant
            k <= known.len(),
            strs(found@) == ending_with(strs(known@).take(k as int), suffix@),
        decreases known.len() - k,
    {
        assert(strs(known@).take(k + 1).drop_last() =~= strs(known@).take(k as int));
        assert(strs(known@).take(k + 1).last() == known@[k as int]@);
        let path = to_chars(known[k].as_str());
        if ends_with(&path, &suffix) {
            let ghost before = found@;
            found.push(known[k].clone());
            assert(strs(found@) =~= strs(before).push(known@[k as int]@));
        }
        k = k + 1;
    }
    assert(strs(known@).take(k as int) =~= strs(known@));
    if found.len() == 1 {
        assert(strs(found@)[0] == found@[0]@);
        Some(found[0].clone())
    } else {
        None
    }
}

/// `s` without all leading occurrences of `c`.
pub open spec fn trim_start_char(s: Seq<char>, c: char) -> Seq<char>
    decreases s.len(),
{
    if s.len() > 0 && s[0] == c {
        trim_start_char(s.drop_first(), c)
    } else {
        s
    }
}

/// The local package directory a Go import names, when the module
/// declares its path and some known `.go` file lies in that directory.
pub open spec fn go_target(import_path: Seq<char>, module_name: Option<Seq<char>>, known: Seq<Seq<char>>) -> Option<
    Seq<char>,
> {
    match module_name {
        None => None,
        Some(name) => match strip_prefix(import_path, name) {
            None => None,
            Some(rest) => {
                let local = trim_start_char(crate::text::trim_end_char(rest, '/'), '/');
                if local.len() == 0 {
                    None
                } else if exists|i: int|
                    0 <= i < known.len() && (local + "/"@).is_prefix_of(#[trigger] known[i])
                        && ".go"@.is_suffix_of(known[i]) {
                    Some(local)
                } else {
                    None
                }
            },
        },
    }
}

fn trim_start_chars(s: &Vec<char>, c: char) -> (result: Vec<char>)
    ensures
        result@ == trim_start_char(s@, c),
{
    let mut i: usize = 0;
    assert(s@.skip(0) =~= s@);
    while i < s.len() && s[i] == c
        invariant
            i <= s.len(),
            trim_start_char(s@, c) == trim_start_char(s@.skip(i as int), c),
        decreases s.len() - i,
    {
        assert(s@.skip(i as int).drop_first() =~= s@.skip(i + 1));
        i = i + 1;
    }
    let r = slice_chars(s, i, s.len());
    assert(r@ =~= s@.skip(i as int));
    r
}

/// The local package a Go import names.
#[verifier::loop_isolation(false)]
pub fn go_import_target(import_path: &str, module_name: Option<&str>, known: &Vec<String>) -> (result:
    Option<String>)
    ensures
        match result {
            Some(r) => go_target(import_path@, crate::auth::opt_str(module_name), strs(known@))
                == Some(r@),
            None => go_target(import_path@, crate::auth::opt_str(module_name), strs(known@)) is None,
        },
{
    let name = match module_name {
        None => {
            return None;
        },
        Some(n) => n,
    };
    let ip = to_chars(import_path);
    let rest = match strip_prefix_str(&ip, name) {
        None => {
            return None;
        },
        Some(r) => r,
    };
    let t = crate::text::trim_end_chars(&rest, '/');
    let local = trim_start_chars(&t, '/');
    if local.len() == 0 {
        return None;
    }
    let mut prefix = slice_chars(&local, 0, local.len());
    assert(prefix@ =~= local@);
    push_str(&mut prefix, "/");
    let go = to_chars(".go");
    let mut k: usize = 0;
    while k < known.len()
        invariant
            k <= known.len(),
            prefix@ == local@ + "/"@,
            go@ == ".go"@,
            forall|j: int|
                0 <= j < k ==> !((local@ + "/"@).is_prefix_of(#[trigger] strs(known@)[j])
                    && ".go"@.is_suffix_of(strs(known@)[j])),
        decreases known.len() - k,
    {
        let path = to_chars(known[k].as_str());
        assert(strs(known@)[k as int] == path@);
        if starts_with(&path, &prefix) && ends_with(&path, &go) {
            assert((local@ + "/"@).is_prefix_of(strs(known@)[k as int]) && ".go"@.is_suffix_of(
                strs(known@)[k as int],
            ));
            return Some(from_chars(local.as_slice()));
        }
        k = k + 1;
    }
    None
}

/// The first line, trimmed, that starts with `module `: the rest, trimmed.
pub open spec fn module_line(lines: Seq<Seq<char>>) -> Option<Seq<char>>
    decreases lines.len(),
{
    if lines.len() == 0 {
        None
    } else {
        match strip_prefix(trim(lines[0]), "module "@) {
            Some(rest) => Some(trim(rest)),
            None => module_line(lines.skip(1)),
        }
    }
}

/// The module path a `go.mod` file declares, unless empty.
pub open spec fn go_module(contents: Seq<char>) -> Option<Seq<char>> {
    match module_line(lines(contents)) {
        Some(name) => if name.len() > 0 {
            Some(name)
        } else {
            None
        },
        None => None,
    }
}

/// The module path declared by the contents of `go.mod`.
pub fn go_module_name(contents: &str) -> (result: Option<String>)
    ensures
        match result {
            Some(r) => go_module(contents@) == Some(r@),
            None => go_module(contents@) is None,
        },
{
    let chars = to_chars(contents);
    let ls = lines_of(&chars);
    let mut i: usize = 0;
    assert(views(ls@).skip(0) =~= views(ls@));
    while i < ls.len()
        invariant
            i <= ls.len(),
            views(ls@) == lines(contents@),
            module_line(lines(contents@)) == module_line(views(ls@).skip(i as int)),
        decreases ls.len() - i,
    {
        assert(views(ls@).skip(i as int)[0] == ls@[i as int]@);
        assert(views(ls@).skip(i as int).skip(1) =~= views(ls@).skip(i + 1));
        let t = trim_chars(&ls[i]);
        match strip_prefix_str(&t, "module ") {
            Some(rest) => {
                let name = trim_chars(&rest);
                if name.len() == 0 {
                    return None;
                }
                return Some(from_chars(name.as_slice()));
            },
            None => {},
        }
        i = i + 1;
    }
    None
}

} // verus!
