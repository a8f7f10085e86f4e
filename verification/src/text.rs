//! Character-sequence helpers with exact specifications.
//!
//! The library works on `Vec<char>` internally; each helper states its
//! result over `Seq<char>`, the view of both `str` and `String`.

use vstd::prelude::*;

verus! {

broadcast use vstd::string::group_string_axioms;

// ----------------------------------------------------------------------------
// Conversions
// ----------------------------------------------------------------------------

/// The characters of `s`, in order.
pub fn to_chars(s: &str) -> (result: Vec<char>)
    ensures
        result@ == s@,
{
    let mut result: Vec<char> = Vec::new();
    for c in it: s.chars()
        invariant
            it.seq() == s@,
            result@ == it.seq().take(it.index() as int),
    {
        result.push(c);
    }
    result
}

/// Collects characters into a `String` (std's `FromIterator<char>`), which
/// keeps every character in order.
#[verifier::external_body]
pub fn from_chars(chars: &[char]) -> (result: String)
    ensures
        result@ == chars@,
{
    chars.iter().collect()
}

/// A `String` holding the characters of `s`.
pub fn owned(s: &str) -> (result: String)
    ensures
        result@ == s@,
{
    let chars = to_chars(s);
    from_chars(chars.as_slice())
}

/// Appends the characters of `s` to `out`.
pub fn push_str(out: &mut Vec<char>, s: &str)
    ensures
        final(out)@ == old(out)@ + s@,
{
    let chars = to_chars(s);
    push_all(out, &chars);
}

/// Appends `more` to `out`.
pub fn push_all(out: &mut Vec<char>, more: &Vec<char>)
    ensures
        final(out)@ == old(out)@ + more@,
{
    let ghost start = out@;
    let mut i: usize = 0;
    while i < more.len()
        invariant
            i <= more.len(),
            out@ == start + more@.take(i as int),
        decreases more.len() - i,
    {
        out.push(more[i]);
        i = i + 1;
        assert(more@.take(i as int) =~= more@.take(i - 1) .push(more@[i - 1]));
    }
    assert(more@.take(i as int) =~= more@);
}

// ----------------------------------------------------------------------------
// Whitespace and trimming (std's `char::is_whitespace`, `str::trim`)
// ----------------------------------------------------------------------------

/// Unicode `White_Space`, the property std's `char::is_whitespace` tests.
pub open spec fn is_ws(c: char) -> bool {
    let u = c as u32;
    ||| 9 <= u <= 13
    ||| u == 32
    ||| u == 0x85
    ||| u == 0xa0
    ||| u == 0x1680
    ||| 0x2000 <= u <= 0x200a
    ||| u == 0x2028
    ||| u == 0x2029
    ||| u == 0x202f
    ||| u == 0x205f
    ||| u == 0x3000
}

/// Executable form of [`is_ws`].
pub fn is_whitespace(c: char) -> (result: bool)
    ensures
        result == is_ws(c),
{
    let u = c as u32;
    (9 <= u && u <= 13) || u == 32 || u == 0x85 || u == 0xa0 || u == 0x1680 || (0x2000 <= u
        && u <= 0x200a) || u == 0x2028 || u == 0x2029 || u == 0x202f || u == 0x205f || u
        == 0x3000
}

/// `s` without its leading whitespace.
pub open spec fn trim_start(s: Seq<char>) -> Seq<char>
    decreases s.len(),
{
    if s.len() > 0 && is_ws(s[0]) {
        trim_start(s.drop_first())
    } else {
        s
    }
}

/// `s` without its trailing whitespace.
pub open spec fn trim_end(s: Seq<char>) -> Seq<char>
    decreases s.len(),
{
    if s.len() > 0 && is_ws(s.last()) {
        trim_end(s.drop_last())
    } else {
        s
    }
}

/// `s` without leading and trailing whitespace, as `str::trim` returns it.
pub open spec fn trim(s: Seq<char>) -> Seq<char> {
    trim_end(trim_start(s))
}

/// Whether `s` is empty after trimming (holds only whitespace).
pub open spec fn is_blank(s: Seq<char>) -> bool {
    trim(s).len() == 0
}

proof fn lemma_trim_start_skip(s: Seq<char>, i: int)
    requires
        0 <= i <= s.len(),
        forall|j: int| 0 <= j < i ==> is_ws(#[trigger] s[j]),
    ensures
        trim_start(s) == trim_start(s.subrange(i, s.len() as int)),
    decreases i,
{
    if i == 0 {
        assert(s.subrange(0, s.len() as int) =~= s);
    } else {
        let t = s.drop_first();
        assert forall|j: int| 0 <= j < i - 1 implies is_ws(#[trigger] t[j]) by {
            assert(t[j] == s[j + 1]);
        }
        lemma_trim_start_skip(t, i - 1);
        assert(t.subrange(i - 1, t.len() as int) =~= s.subrange(i, s.len() as int));
    }
}

proof fn lemma_trim_end_skip(s: Seq<char>, k: int)
    requires
        0 <= k <= s.len(),
        forall|j: int| k <= j < s.len() ==> is_ws(#[trigger] s[j]),
    ensures
        trim_end(s) == trim_end(s.subrange(0, k)),
    decreases s.len() - k,
{
    if k == s.len() {
        assert(s.subrange(0, k) =~= s);
    } else {
        let t = s.drop_last();
        lemma_trim_end_skip(t, k);
        assert(t.subrange(0, k) =~= s.subrange(0, k));
    }
}

/// Bounds `(a, b)` with `s[a..b] == trim(s)`.
pub fn trim_bounds(s: &Vec<char>) -> (result: (usize, usize))
    ensures
        result.0 <= result.1 <= s.len(),
        s@.subrange(result.0 as int, result.1 as int) == trim(s@),
        forall|j: int| 0 <= j < result.0 ==> is_ws(#[trigger] s@[j]),
        forall|j: int| result.1 <= j < s.len() ==> is_ws(#[trigger] s@[j]),
        result.0 < result.1 ==> !is_ws(s@[result.0 as int]) && !is_ws(s@[result.1 - 1]),
{
    let n = s.len();
    let mut a: usize = 0;
    while a < n && is_whitespace(s[a])
        invariant
            a <= n,
            n == s.len(),
            forall|j: int| 0 <= j < a ==> is_ws(#[trigger] s@[j]),
        decreases n - a,
    {
        a = a + 1;
    }
    let mut b: usize = n;
    while b > a && is_whitespace(s[b - 1])
        invariant
            a <= b <= n,
            n == s.len(),
            forall|j: int| b <= j < n ==> is_ws(#[trigger] s@[j]),
        decreases b,
    {
        b = b - 1;
    }
    proof {
        lemma_trim_start_skip(s@, a as int);
        let rest = s@.subrange(a as int, n as int);
        assert(trim_start(rest) == rest);
        assert forall|j: int| b - a <= j < rest.len() implies is_ws(#[trigger] rest[j]) by {
            assert(rest[j] == s@[a + j]);
        }
        lemma_trim_end_skip(rest, b - a);
        let kept = rest.subrange(0, b - a);
        assert(kept =~= s@.subrange(a as int, b as int));
        assert(trim_end(kept) == kept);
    }
    (a, b)
}

/// `trim(s)` as a vector.
pub fn trim_chars(s: &Vec<char>) -> (result: Vec<char>)
    ensures
        result@ == trim(s@),
{
    let (a, b) = trim_bounds(s);
    slice_chars(s, a, b)
}

/// `s[from..to]` as a vector.
pub fn slice_chars(s: &Vec<char>, from: usize, to: usize) -> (result: Vec<char>)
    requires
        from <= to <= s.len(),
    ensures
        result@ == s@.subrange(from as int, to as int),
{
    let mut result: Vec<char> = Vec::new();
    let mut i = from;
    while i < to
        invariant
            from <= i <= to <= s.len(),
            result@ == s@.subrange(from as int, i as int),
        decreases to - i,
    {
        result.push(s[i]);
        i = i + 1;
        assert(result@ =~= s@.subrange(from as int, i as int));
    }
    result
}

/// Whether `s` holds only whitespace.
pub fn chars_blank(s: &Vec<char>) -> (result: bool)
    ensures
        result == is_blank(s@),
        result == (forall|j: int| 0 <= j < s.len() ==> is_ws(#[trigger] s@[j])),
{
    let (a, b) = trim_bounds(s);
    proof {
        if a < b {
            assert(s@.subrange(a as int, b as int)[0] == s@[a as int]);
        }
    }
    a == b
}

/// Whether `s` holds only whitespace (`s.trim().is_empty()`).
pub fn str_blank(s: &str) -> (result: bool)
    ensures
        result == is_blank(s@),
        result == (forall|j: int| 0 <= j < s@.len() ==> is_ws(#[trigger] s@[j])),
{
    let chars = to_chars(s);
    chars_blank(&chars)
}

/// `s.trim()` as an owned string.
pub fn trimmed(s: &str) -> (result: String)
    ensures
        result@ == trim(s@),
{
    let chars = to_chars(s);
    let t = trim_chars(&chars);
    from_chars(t.as_slice())
}

// ----------------------------------------------------------------------------
// ASCII case
// ----------------------------------------------------------------------------

/// std's `char::to_ascii_lowercase`.
pub open spec fn ascii_lower(c: char) -> char {
    if 'A' <= c && c <= 'Z' {
        ((c as u32) + 32) as char
    } else {
        c
    }
}

/// std's `str::to_ascii_lowercase`, character by character.
pub open spec fn lower_seq(s: Seq<char>) -> Seq<char> {
    s.map_values(|c: char| ascii_lower(c))
}

/// Executable form of [`ascii_lower`].
pub fn to_ascii_lower(c: char) -> (result: char)
    ensures
        result == ascii_lower(c),
{
    if 'A' <= c && c <= 'Z' {
        let u = (c as u32) + 32;
        let b = u as u8;
        b as char
    } else {
        c
    }
}

/// `lower_seq(s)` as a vector.
pub fn lower_chars(s: &Vec<char>) -> (result: Vec<char>)
    ensures
        result@ == lower_seq(s@),
{
    let mut result: Vec<char> = Vec::new();
    let mut i: usize = 0;
    while i < s.len()
        invariant
            i <= s.len(),
            result@ =~= lower_seq(s@.take(i as int)),
        decreases s.len() - i,
    {
        let c = to_ascii_lower(s[i]);
        result.push(c);
        i = i + 1;
        assert(s@.take(i as int) =~= s@.take(i - 1).push(s@[i - 1]));
    }
    assert(s@.take(i as int) =~= s@);
    result
}

// ----------------------------------------------------------------------------
// Substrings
// ----------------------------------------------------------------------------

/// `p` occurs in `s` starting at `i`.
pub open spec fn occurs_at(s: Seq<char>, p: Seq<char>, i: int) -> bool {
    0 <= i && i + p.len() <= s.len() && s.subrange(i, i + p.len()) == p
}

/// `s` contains `p` (`str::contains`).
pub open spec fn contains_seq(s: Seq<char>, p: Seq<char>) -> bool {
    exists|i: int| occurs_at(s, p, i)
}

/// `i` is the first position where `p` occurs in `s` (`str::find`).
pub open spec fn first_occurrence(s: Seq<char>, p: Seq<char>, i: int) -> bool {
    occurs_at(s, p, i) && forall|j: int| 0 <= j < i ==> !occurs_at(s, p, j)
}

/// The position of the first occurrence of `p` in `s`, or -1.
pub open spec fn find_position(s: Seq<char>, p: Seq<char>) -> int {
    if exists|i: int| first_occurrence(s, p, i) {
        choose|i: int| first_occurrence(s, p, i)
    } else {
        -1
    }
}

/// There is only one first occurrence of a pattern.
pub proof fn lemma_first_occurrence_unique(s: Seq<char>, p: Seq<char>, i: int, j: int)
    requires
        first_occurrence(s, p, i),
        first_occurrence(s, p, j),
    ensures
        i == j,
{
}

/// Whether `p` occurs in `s` at `i`.
pub fn matches_at(s: &Vec<char>, p: &Vec<char>, i: usize) -> (result: bool)
    ensures
        result == occurs_at(s@, p@, i as int),
{
    if i > s.len() || p.len() > s.len() - i {
        return false;
    }
    let mut k: usize = 0;
    while k < p.len()
        invariant
            k <= p.len(),
            i + p.len() <= s.len(),
            forall|j: int| 0 <= j < k ==> s@[i + j] == p@[j],
        decreases p.len() - k,
    {
        if s[i + k] != p[k] {
            assert(s@.subrange(i as int, i + p.len())[k as int] != p@[k as int]);
            return false;
        }
        k = k + 1;
    }
    assert(s@.subrange(i as int, i + p.len()) =~= p@);
    true
}

/// First position of `p` in `s`.
pub fn find_seq(s: &Vec<char>, p: &Vec<char>) -> (result: Option<usize>)
    ensures
        match result {
            Some(i) => first_occurrence(s@, p@, i as int),
            None => !contains_seq(s@, p@),
        },
{
    let mut i: usize = 0;
    while i < s.len()
        invariant
            i <= s.len(),
            forall|j: int| 0 <= j < i ==> !occurs_at(s@, p@, j),
        decreases s.len() - i,
    {
        if matches_at(s, p, i) {
            return Some(i);
        }
        i = i + 1;
    }
    if matches_at(s, p, i) {
        return Some(i);
    }
    assert forall|j: int| !occurs_at(s@, p@, j) by {
        if 0 <= j <= i {
        } else if j > i {
            assert(!(j + p@.len() <= s@.len()));
        }
    }
    None
}

/// First position of `p` in `s`, as [`find_position`] names it.
pub fn position_of(s: &Vec<char>, p: &Vec<char>) -> (result: Option<usize>)
    ensures
        match result {
            Some(i) => i as int == find_position(s@, p@) && first_occurrence(s@, p@, i as int),
            None => find_position(s@, p@) == -1 && !contains_seq(s@, p@),
        },
{
    match find_seq(s, p) {
        Some(i) => {
            assert(exists|k: int| first_occurrence(s@, p@, k));
            proof {
                lemma_first_occurrence_unique(s@, p@, i as int, find_position(s@, p@));
            }
            Some(i)
        },
        None => {
            assert(!(exists|k: int| first_occurrence(s@, p@, k)));
            None
        },
    }
}

/// Whether `s` contains `p`.
pub fn contains(s: &Vec<char>, p: &Vec<char>) -> (result: bool)
    ensures
        result == contains_seq(s@, p@),
{
    find_seq(s, p).is_some()
}

/// First position of character `c` in `s`.
pub fn find_char(s: &Vec<char>, c: char) -> (result: Option<usize>)
    ensures
        match result {
            Some(i) => i < s.len() && s@[i as int] == c && forall|j: int|
                0 <= j < i ==> s@[j] != c,
            None => !s@.contains(c),
        },
{
    let mut i: usize = 0;
    while i < s.len()
        invariant
            i <= s.len(),
            forall|j: int| 0 <= j < i ==> s@[j] != c,
        decreases s.len() - i,
    {
        if s[i] == c {
            return Some(i);
        }
        i = i + 1;
    }
    None
}

/// Last position of character `c` in `s`.
pub fn rfind_char(s: &Vec<char>, c: char) -> (result: Option<usize>)
    ensures
        match result {
            Some(i) => i < s.len() && s@[i as int] == c && forall|j: int|
                i < j < s.len() ==> s@[j] != c,
            None => !s@.contains(c),
        },
{
    let mut i: usize = s.len();
    while i > 0
        invariant
            i <= s.len(),
            forall|j: int| i <= j < s.len() ==> s@[j] != c,
        decreases i,
    {
        if s[i - 1] == c {
            return Some(i - 1);
        }
        i = i - 1;
    }
    None
}

/// Whether `p` is a prefix of `s`.
pub fn starts_with(s: &Vec<char>, p: &Vec<char>) -> (result: bool)
    ensures
        result == p@.is_prefix_of(s@),
{
    let r = matches_at(s, p, 0);
    proof {
        if r {
            assert(s@.subrange(0, p@.len() as int) == p@);
        }
    }
    r
}

/// Whether `p` is a suffix of `s`.
pub fn ends_with(s: &Vec<char>, p: &Vec<char>) -> (result: bool)
    ensures
        result == p@.is_suffix_of(s@),
{
    if p.len() > s.len() {
        return false;
    }
    matches_at(s, p, s.len() - p.len())
}

/// Whether two character sequences are equal.
pub fn chars_equal(a: &Vec<char>, b: &Vec<char>) -> (result: bool)
    ensures
        result == (a@ == b@),
{
    if a.len() != b.len() {
        return false;
    }
    let r = matches_at(a, b, 0);
    proof {
        assert(a@.subrange(0, b@.len() as int) =~= a@);
    }
    r
}

/// Whether `s` equals the literal-backed `t`.
pub fn str_equals(s: &Vec<char>, t: &str) -> (result: bool)
    ensures
        result == (s@ == t@),
{
    let tc = to_chars(t);
    chars_equal(s, &tc)
}


// ----------------------------------------------------------------------------
// Splitting and joining
// ----------------------------------------------------------------------------

/// The character sequences held by a sequence of vectors.
pub open spec fn views(v: Seq<Vec<char>>) -> Seq<Seq<char>> {
    v.map_values(|x: Vec<char>| x@)
}

/// The pieces of `s` between occurrences of `c` (`str::split(c)`), read
/// left to right: there is always at least one piece.
pub open spec fn split_on(s: Seq<char>, c: char) -> Seq<Seq<char>>
    decreases s.len(),
{
    if s.len() == 0 {
        seq![Seq::<char>::empty()]
    } else {
        let prev = split_on(s.drop_last(), c);
        if s.last() == c {
            prev.push(Seq::<char>::empty())
        } else {
            prev.update(prev.len() - 1, prev.last().push(s.last()))
        }
    }
}

/// Splitting always gives at least one piece.
pub proof fn lemma_split_on_nonempty(s: Seq<char>, c: char)
    ensures
        split_on(s, c).len() >= 1,
    decreases s.len(),
{
    if s.len() > 0 {
        lemma_split_on_nonempty(s.drop_last(), c);
    }
}

/// The pieces of `s` split at `c`.
pub fn split_chars(s: &Vec<char>, c: char) -> (result: Vec<Vec<char>>)
    ensures
        views(result@) == split_on(s@, c),
        result.len() >= 1,
{
    let mut pieces: Vec<Vec<char>> = Vec::new();
    let mut cur: Vec<char> = Vec::new();
    let mut i: usize = 0;
    while i < s.len()
        invariant
            i <= s.len(),
            views(pieces@).push(cur@) == split_on(s@.take(i as int), c),
        decreases s.len() - i,
    {
        let ghost before = views(pieces@).push(cur@);
        proof {
            assert(s@.take(i + 1).drop_last() =~= s@.take(i as int));
            lemma_split_on_nonempty(s@.take(i as int), c);
        }
        let ghost old_pieces = pieces@;
        let ghost old_cur = cur@;
        if s[i] == c {
            pieces.push(cur);
            cur = Vec::new();
            assert(views(pieces@) =~= views(old_pieces).push(old_cur));
            assert(views(pieces@).push(cur@) =~= before.push(Seq::<char>::empty()));
        } else {
            cur.push(s[i]);
            assert(views(pieces@).push(cur@) =~= before.update(
                before.len() - 1,
                before.last().push(s@[i as int]),
            ));
        }
        i = i + 1;
    }
    assert(s@.take(i as int) =~= s@);
    let ghost old_pieces = pieces@;
    let ghost old_cur = cur@;
    pieces.push(cur);
    assert(views(pieces@) =~= views(old_pieces).push(old_cur));
    pieces
}

/// `line` without one trailing carriage return.
pub open spec fn strip_cr(line: Seq<char>) -> Seq<char> {
    if line.len() > 0 && line.last() == '\r' {
        line.drop_last()
    } else {
        line
    }
}

/// std's `str::lines`: pieces ended by `\n` lose one trailing `\r`, and an
/// empty piece after the final `\n` is not a line.
pub open spec fn lines(s: Seq<char>) -> Seq<Seq<char>> {
    let parts = split_on(s, '\n');
    let init = parts.drop_last().map_values(|l: Seq<char>| strip_cr(l));
    if parts.last().len() == 0 {
        init
    } else {
        init.push(parts.last())
    }
}

/// The lines of `s`.
pub fn lines_of(s: &Vec<char>) -> (result: Vec<Vec<char>>)
    ensures
        views(result@) == lines(s@),
{
    let parts = split_chars(s, '\n');
    let n = parts.len();
    let mut result: Vec<Vec<char>> = Vec::new();
    let mut i: usize = 0;
    while i + 1 < n
        invariant
            n == parts.len(),
            n >= 1,
            i + 1 <= n,
            views(parts@) == split_on(s@, '\n'),
            views(result@) =~= views(parts@).take(i as int).map_values(
                |l: Seq<char>| strip_cr(l),
            ),
        decreases n - i,
    {
        let part = &parts[i];
        let line = if part.len() > 0 && part[part.len() - 1] == '\r' {
            slice_chars(part, 0, part.len() - 1)
        } else {
            slice_chars(part, 0, part.len())
        };
        proof {
            assert(views(parts@)[i as int] == part@);
            assert(part@.subrange(0, part@.len() as int) =~= part@);
            assert(part@.len() > 0 ==> part@.subrange(0, part@.len() - 1) =~= part@.drop_last());
        }
        let ghost old_result = result@;
        result.push(line);
        i = i + 1;
        assert(views(result@) =~= views(old_result).push(line@));
        assert(views(parts@).take(i as int) =~= views(parts@).take(i - 1).push(
            views(parts@)[i - 1],
        ));
    }
    assert(views(parts@).take(i as int) =~= views(parts@).drop_last());
    let last = &parts[n - 1];
    assert(views(parts@).last() == last@);
    if last.len() > 0 {
        let copy = slice_chars(last, 0, last.len());
        assert(copy@ =~= last@);
        let ghost old_result = result@;
        result.push(copy);
        assert(views(result@) =~= views(old_result).push(copy@));
    }
    result
}

/// std's `str::split_whitespace`: the maximal runs of non-whitespace.
pub open spec fn words(s: Seq<char>) -> Seq<Seq<char>>
    decreases s.len(),
{
    if s.len() == 0 {
        Seq::<Seq<char>>::empty()
    } else {
        let w = words(s.drop_last());
        let c = s.last();
        if is_ws(c) {
            w
        } else if s.len() >= 2 && !is_ws(s[s.len() - 2]) {
            w.update(w.len() - 1, w.last().push(c))
        } else {
            w.push(seq![c])
        }
    }
}

/// No word of a text is empty.
pub proof fn lemma_words_nonempty(s: Seq<char>)
    requires
        s.len() > 0,
        !is_ws(s.last()),
    ensures
        words(s).len() >= 1,
    decreases s.len(),
{
    if s.len() >= 2 && !is_ws(s[s.len() - 2]) {
        lemma_words_nonempty(s.drop_last());
    }
}

/// The whitespace-separated words of `s`.
pub fn words_of(s: &Vec<char>) -> (result: Vec<Vec<char>>)
    ensures
        views(result@) == words(s@),
{
    let mut result: Vec<Vec<char>> = Vec::new();
    let mut i: usize = 0;
    while i < s.len()
        invariant
            i <= s.len(),
            views(result@) == words(s@.take(i as int)),
        decreases s.len() - i,
    {
        let c = s[i];
        let ghost prefix = s@.take(i + 1);
        proof {
            assert(prefix.drop_last() =~= s@.take(i as int));
            assert(prefix.last() == c);
        }
        if is_whitespace(c) {
        } else if i >= 1 && !is_whitespace(s[i - 1]) {
            proof {
                assert(prefix[prefix.len() - 2] == s@[i - 1]);
                lemma_words_nonempty(s@.take(i as int));
            }
            let last = result.len() - 1;
            let ghost before = views(result@);
            let mut word = result.remove(last);
            let ghost rest = result@;
            assert(word@ == before.last());
            word.push(c);
            result.push(word);
            assert(views(result@) =~= before.update(before.len() - 1, before.last().push(c)));
        } else {
            proof {
                if i >= 1 {
                    assert(prefix[prefix.len() - 2] == s@[i - 1]);
                }
            }
            let mut word: Vec<char> = Vec::new();
            word.push(c);
            let ghost old_result = result@;
            result.push(word);
            assert(views(result@) =~= views(old_result).push(seq![c]));
        }
        i = i + 1;
    }
    assert(s@.take(i as int) =~= s@);
    result
}

/// The parts joined with `sep` between neighbours (`[..].join(sep)`).
pub open spec fn join(parts: Seq<Seq<char>>, sep: Seq<char>) -> Seq<char>
    decreases parts.len(),
{
    if parts.len() == 0 {
        Seq::<char>::empty()
    } else if parts.len() == 1 {
        parts[0]
    } else {
        join(parts.drop_last(), sep) + sep + parts.last()
    }
}

/// Joins `parts` with `sep`.
pub fn join_chars(parts: &Vec<Vec<char>>, sep: &Vec<char>) -> (result: Vec<char>)
    ensures
        result@ == join(views(parts@), sep@),
{
    let mut result: Vec<char> = Vec::new();
    let mut i: usize = 0;
    while i < parts.len()
        invariant
            i <= parts.len(),
            result@ == join(views(parts@).take(i as int), sep@),
        decreases parts.len() - i,
    {
        let ghost before = views(parts@).take(i as int);
        if i > 0 {
            push_all(&mut result, sep);
        }
        push_all(&mut result, &parts[i]);
        i = i + 1;
        proof {
            let now = views(parts@).take(i as int);
            assert(now.drop_last() =~= before);
            assert(now.last() == parts[i - 1]@);
            if i == 1 {
                assert(result@ =~= now[0]);
            }
        }
    }
    assert(views(parts@).take(i as int) =~= views(parts@));
    result
}

/// Whitespace runs collapsed to one space and the ends trimmed
/// (`split_whitespace().collect::<Vec<_>>().join(" ")`).
pub open spec fn collapse_ws(s: Seq<char>) -> Seq<char> {
    join(words(s), seq![' '])
}

/// Executable form of [`collapse_ws`].
pub fn collapse_whitespace(s: &Vec<char>) -> (result: Vec<char>)
    ensures
        result@ == collapse_ws(s@),
{
    let parts = words_of(s);
    let mut sep: Vec<char> = Vec::new();
    sep.push(' ');
    assert(sep@ =~= seq![' ']);
    join_chars(&parts, &sep)
}

// ----------------------------------------------------------------------------
// Numbers and repetition
// ----------------------------------------------------------------------------

/// The decimal digit character for `d < 10`.
pub open spec fn digit_char(d: nat) -> char {
    if d == 0 { '0' }
    else if d == 1 { '1' }
    else if d == 2 { '2' }
    else if d == 3 { '3' }
    else if d == 4 { '4' }
    else if d == 5 { '5' }
    else if d == 6 { '6' }
    else if d == 7 { '7' }
    else if d == 8 { '8' }
    else { '9' }
}

/// The decimal representation of `n`, as `Display` writes an integer.
pub open spec fn decimal(n: nat) -> Seq<char>
    decreases n,
{
    if n < 10 {
        seq![digit_char(n)]
    } else {
        decimal(n / 10).push(digit_char(n % 10))
    }
}

/// Every character of [`decimal`] is an ASCII digit.
pub proof fn lemma_decimal_digits(n: nat)
    ensures
        decimal(n).len() > 0,
        forall|i: int| 0 <= i < decimal(n).len() ==> '0' <= #[trigger] decimal(n)[i] <= '9',
    decreases n,
{
    if n >= 10 {
        lemma_decimal_digits(n / 10);
    }
}

/// Different numbers are written differently.
pub proof fn lemma_decimal_injective(n: nat, m: nat)
    requires
        decimal(n) == decimal(m),
    ensures
        n == m,
    decreases n,
{
    lemma_decimal_digits(n / 10);
    lemma_decimal_digits(m / 10);
    if n < 10 && m < 10 {
        assert(decimal(n)[0] == digit_char(n));
        assert(decimal(m)[0] == digit_char(m));
    } else if n < 10 {
        assert(decimal(m).len() >= 2);
    } else if m < 10 {
        assert(decimal(n).len() >= 2);
    } else {
        assert(decimal(n).last() == digit_char(n % 10));
        assert(decimal(m).last() == digit_char(m % 10));
        assert(decimal(n).drop_last() =~= decimal(n / 10));
        assert(decimal(m).drop_last() =~= decimal(m / 10));
        lemma_decimal_injective(n / 10, m / 10);
    }
}

fn digit(d: u64) -> (result: char)
    requires
        d < 10,
    ensures
        result == digit_char(d as nat),
{
    if d == 0 { '0' }
    else if d == 1 { '1' }
    else if d == 2 { '2' }
    else if d == 3 { '3' }
    else if d == 4 { '4' }
    else if d == 5 { '5' }
    else if d == 6 { '6' }
    else if d == 7 { '7' }
    else if d == 8 { '8' }
    else { '9' }
}

/// The decimal representation of `n`.
pub fn decimal_chars(n: u64) -> (result: Vec<char>)
    ensures
        result@ == decimal(n as nat),
    decreases n,
{
    if n < 10 {
        let mut v: Vec<char> = Vec::new();
        v.push(digit(n));
        assert(v@ =~= seq![digit_char(n as nat)]);
        v
    } else {
        let mut v = decimal_chars(n / 10);
        v.push(digit(n % 10));
        v
    }
}

/// `n` copies of `p` (`str::repeat`).
pub open spec fn repeat(p: Seq<char>, n: nat) -> Seq<char>
    decreases n,
{
    if n == 0 {
        Seq::<char>::empty()
    } else {
        repeat(p, (n - 1) as nat) + p
    }
}

/// Appends `n` copies of `p` to `out`.
pub fn push_repeat(out: &mut Vec<char>, p: &str, n: usize)
    ensures
        final(out)@ == old(out)@ + repeat(p@, n as nat),
{
    let chars = to_chars(p);
    let ghost start = out@;
    let mut i: usize = 0;
    while i < n
        invariant
            i <= n,
            chars@ == p@,
            out@ == start + repeat(p@, i as nat),
        decreases n - i,
    {
        push_all(out, &chars);
        i = i + 1;
        assert(out@ =~= start + repeat(p@, i as nat));
    }
}


// ----------------------------------------------------------------------------
// Lists of strings
// ----------------------------------------------------------------------------

/// The character sequences held by a list of strings.
pub open spec fn strs(v: Seq<String>) -> Seq<Seq<char>> {
    v.map_values(|x: String| x@)
}

/// Whether `v` holds a string equal to `s`.
pub fn contains_string(v: &Vec<String>, s: &String) -> (result: bool)
    ensures
        result == strs(v@).contains(s@),
{
    let mut i: usize = 0;
    while i < v.len()
        invariant
            i <= v.len(),
            forall|j: int| 0 <= j < i ==> v@[j]@ != s@,
        decreases v.len() - i,
    {
        if v[i] == *s {
            assert(strs(v@)[i as int] == s@);
            return true;
        }
        i = i + 1;
    }
    assert forall|j: int| 0 <= j < strs(v@).len() implies strs(v@)[j] != s@ by {
        assert(strs(v@)[j] == v@[j]@);
    }
    false
}

/// A copy of `s` (std's `String::clone` keeps the characters).
pub fn copy_string(s: &String) -> (result: String)
    ensures
        result@ == s@,
{
    s.clone()
}

/// Copies of every string in `v`.
pub fn copy_strings(v: &Vec<String>) -> (result: Vec<String>)
    ensures
        strs(result@) == strs(v@),
{
    let mut result: Vec<String> = Vec::new();
    let mut i: usize = 0;
    while i < v.len()
        invariant
            i <= v.len(),
            strs(result@) == strs(v@).take(i as int),
        decreases v.len() - i,
    {
        let ghost before = result@;
        result.push(v[i].clone());
        i = i + 1;
        assert(strs(result@) =~= strs(v@).take(i as int)) by {
            assert(strs(result@) =~= strs(before).push(v@[i - 1]@));
        }
    }
    assert(strs(v@).take(i as int) =~= strs(v@));
    result
}


/// Copies of every string in `v`, element for element.
pub fn copy_strings_exact(v: &Vec<String>) -> (result: Vec<String>)
    ensures
        result@ == v@,
{
    let mut result: Vec<String> = Vec::new();
    let mut i: usize = 0;
    while i < v.len()
        invariant
            i <= v.len(),
            result@ == v@.take(i as int),
        decreases v.len() - i,
    {
        result.push(v[i].clone());
        i = i + 1;
        assert(result@ =~= v@.take(i as int));
    }
    assert(v@.take(i as int) =~= v@);
    result
}


/// `s` without all trailing occurrences of `c` (`str::trim_end_matches(c)`).
pub open spec fn trim_end_char(s: Seq<char>, c: char) -> Seq<char>
    decreases s.len(),
{
    if s.len() > 0 && s.last() == c {
        trim_end_char(s.drop_last(), c)
    } else {
        s
    }
}

/// Executable form of [`trim_end_char`].
pub fn trim_end_chars(s: &Vec<char>, c: char) -> (result: Vec<char>)
    ensures
        result@ == trim_end_char(s@, c),
{
    let mut n = s.len();
    assert(s@.take(n as int) =~= s@);
    while n > 0 && s[n - 1] == c
        invariant
            n <= s.len(),
            trim_end_char(s@, c) == trim_end_char(s@.take(n as int), c),
        decreases n,
    {
        proof {
            assert(s@.take(n as int).drop_last() =~= s@.take(n - 1));
        }
        n = n - 1;
    }
    let r = slice_chars(s, 0, n);
    assert(r@ =~= s@.take(n as int));
    r
}

/// `s` without one leading `p`, when it starts with `p` (`str::strip_prefix`).
pub open spec fn strip_prefix(s: Seq<char>, p: Seq<char>) -> Option<Seq<char>> {
    if p.is_prefix_of(s) {
        Some(s.skip(p.len() as int))
    } else {
        None
    }
}

/// Executable form of [`strip_prefix`] for a literal prefix.
pub fn strip_prefix_str(s: &Vec<char>, p: &str) -> (result: Option<Vec<char>>)
    ensures
        match result {
            Some(r) => strip_prefix(s@, p@) == Some(r@),
            None => strip_prefix(s@, p@) is None,
        },
{
    let pc = to_chars(p);
    if starts_with(s, &pc) {
        let r = slice_chars(s, pc.len(), s.len());
        assert(r@ =~= s@.skip(p@.len() as int));
        Some(r)
    } else {
        None
    }
}

} // verus!
