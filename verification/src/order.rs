//! Lexicographic order of character sequences and a stable sort.
//!
//! `str`'s `Ord` compares UTF-8 bytes, which orders strings exactly as their
//! code points compare one by one; [`seq_le`] states that order.

use vstd::prelude::*;
use crate::text::{to_chars, strs};

verus! {

broadcast use vstd::seq_lib::group_to_multiset_ensures;

/// `a <= b` in lexicographic order of code points.
pub open spec fn seq_le(a: Seq<char>, b: Seq<char>) -> bool
    decreases a.len(),
{
    if a.len() == 0 {
        true
    } else if b.len() == 0 {
        false
    } else if (a[0] as int) < (b[0] as int) {
        true
    } else if a[0] == b[0] {
        seq_le(a.drop_first(), b.drop_first())
    } else {
        false
    }
}

/// `a < b` in lexicographic order of code points.
pub open spec fn seq_lt(a: Seq<char>, b: Seq<char>) -> bool {
    seq_le(a, b) && a != b
}

/// Every text is ordered before or equal to itself.
pub proof fn lemma_seq_le_reflexive(a: Seq<char>)
    ensures
        seq_le(a, a),
    decreases a.len(),
{
    if a.len() > 0 {
        lemma_seq_le_reflexive(a.drop_first());
    }
}

/// Any two texts are ordered one way or the other.
pub proof fn lemma_seq_le_total(a: Seq<char>, b: Seq<char>)
    ensures
        seq_le(a, b) || seq_le(b, a),
    decreases a.len(),
{
    if a.len() > 0 && b.len() > 0 {
        if a[0] == b[0] {
            lemma_seq_le_total(a.drop_first(), b.drop_first());
        } else {
            assert((a[0] as int) != (b[0] as int));
        }
    }
}

/// Texts ordered both ways are equal.
pub proof fn lemma_seq_le_antisymmetric(a: Seq<char>, b: Seq<char>)
    requires
        seq_le(a, b),
        seq_le(b, a),
    ensures
        a == b,
    decreases a.len(),
{
    if a.len() > 0 && b.len() > 0 {
        lemma_seq_le_antisymmetric(a.drop_first(), b.drop_first());
        assert(a =~= seq![a[0]] + a.drop_first());
        assert(b =~= seq![b[0]] + b.drop_first());
    } else {
        assert(a.len() == 0 && b.len() == 0);
        assert(a =~= b);
    }
}

/// The text order is transitive.
pub proof fn lemma_seq_le_transitive(a: Seq<char>, b: Seq<char>, c: Seq<char>)
    requires
        seq_le(a, b),
        seq_le(b, c),
    ensures
        seq_le(a, c),
    decreases a.len(),
{
    if a.len() > 0 && b.len() > 0 && c.len() > 0 && a[0] == b[0] && b[0] == c[0] {
        lemma_seq_le_transitive(a.drop_first(), b.drop_first(), c.drop_first());
    }
}

proof fn lemma_seq_le_skip(a: Seq<char>, b: Seq<char>, i: int)
    requires
        0 <= i <= a.len(),
        i <= b.len(),
        a.subrange(0, i) == b.subrange(0, i),
    ensures
        seq_le(a, b) == seq_le(a.subrange(i, a.len() as int), b.subrange(i, b.len() as int)),
    decreases i,
{
    if i > 0 {
        assert(a[0] == a.subrange(0, i)[0]);
        assert(b[0] == b.subrange(0, i)[0]);
        let a1 = a.drop_first();
        let b1 = b.drop_first();
        assert(a1.subrange(0, i - 1) =~= a.subrange(1, i));
        assert(b1.subrange(0, i - 1) =~= b.subrange(1, i));
        assert forall|k: int| 0 <= k < i - 1 implies #[trigger] a1[k] == b1[k] by {
            assert(a1[k] == a[k + 1]);
            assert(b1[k] == b[k + 1]);
            assert(a.subrange(0, i)[k + 1] == a[k + 1]);
            assert(b.subrange(0, i)[k + 1] == b[k + 1]);
        }
        assert(a1.subrange(0, i - 1) =~= b1.subrange(0, i - 1));
        lemma_seq_le_skip(a1, b1, i - 1);
        assert(a1.subrange(i - 1, a1.len() as int) =~= a.subrange(i, a.len() as int));
        assert(b1.subrange(i - 1, b1.len() as int) =~= b.subrange(i, b.len() as int));
    } else {
        assert(a.subrange(0, a.len() as int) =~= a);
        assert(b.subrange(0, b.len() as int) =~= b);
    }
}

/// Whether `a <= b`.
pub fn chars_le(a: &Vec<char>, b: &Vec<char>) -> (result: bool)
    ensures
        result == seq_le(a@, b@),
{
    let mut i: usize = 0;
    while i < a.len() && i < b.len() && a[i] == b[i]
        invariant
            i <= a.len(),
            i <= b.len(),
            a@.subrange(0, i as int) == b@.subrange(0, i as int),
        decreases a.len() - i,
    {
        i = i + 1;
        assert(a@.subrange(0, i as int) =~= b@.subrange(0, i as int)) by {
            assert forall|k: int| 0 <= k < i implies #[trigger] a@[k] == b@[k] by {
                if k < i - 1 {
                    assert(a@.subrange(0, i - 1)[k] == b@.subrange(0, i - 1)[k]);
                }
            }
        }
    }
    proof {
        lemma_seq_le_skip(a@, b@, i as int);
    }
    if i == a.len() {
        true
    } else if i == b.len() {
        false
    } else {
        proof {
            assert(a@.subrange(i as int, a.len() as int)[0] == a@[i as int]);
            assert(b@.subrange(i as int, b.len() as int)[0] == b@[i as int]);
        }
        a[i] < b[i]
    }
}

/// Whether `a <= b`.
pub fn str_le(a: &str, b: &str) -> (result: bool)
    ensures
        result == seq_le(a@, b@),
{
    let ac = to_chars(a);
    let bc = to_chars(b);
    chars_le(&ac, &bc)
}

/// The facts of a total order among three sequences, gathered for proofs
/// about keys made of several parts.
pub proof fn lemma_seq_order_facts(a: Seq<char>, b: Seq<char>, c: Seq<char>)
    ensures
        seq_le(a, a),
        seq_le(a, b) || seq_le(b, a),
        seq_le(b, c) || seq_le(c, b),
        seq_le(a, c) || seq_le(c, a),
        seq_le(a, b) && seq_le(b, c) ==> seq_le(a, c),
        seq_le(a, b) && seq_le(b, a) ==> a == b,
        seq_le(b, c) && seq_le(c, b) ==> b == c,
        seq_le(a, c) && seq_le(c, a) ==> a == c,
{
    lemma_seq_le_reflexive(a);
    lemma_seq_le_total(a, b);
    lemma_seq_le_total(b, c);
    lemma_seq_le_total(a, c);
    if seq_le(a, b) && seq_le(b, c) {
        lemma_seq_le_transitive(a, b, c);
    }
    if seq_le(a, b) && seq_le(b, a) {
        lemma_seq_le_antisymmetric(a, b);
    }
    if seq_le(b, c) && seq_le(c, b) {
        lemma_seq_le_antisymmetric(b, c);
    }
    if seq_le(a, c) && seq_le(c, a) {
        lemma_seq_le_antisymmetric(a, c);
    }
}

/// Three-way comparison of two strings: negative, zero or positive as `a`
/// sorts before, equal to, or after `b`.
pub fn compare_strs(a: &str, b: &str) -> (result: i8)
    ensures
        result < 0 <==> seq_lt(a@, b@),
        result == 0 <==> a@ == b@,
        result > 0 <==> seq_lt(b@, a@),
{
    let ab = str_le(a, b);
    let ba = str_le(b, a);
    proof {
        lemma_seq_order_facts(a@, b@, b@);
        lemma_seq_le_reflexive(b@);
    }
    if ab && ba {
        0
    } else if ab {
        -1
    } else {
        1
    }
}

/// Mapping two sequences that hold the same elements, counted with
/// multiplicity, gives sequences that also do.
pub proof fn lemma_multiset_map<A, B>(s1: Seq<A>, s2: Seq<A>, f: spec_fn(A) -> B)
    requires
        s1.to_multiset() == s2.to_multiset(),
    ensures
        s1.map_values(f).to_multiset() == s2.map_values(f).to_multiset(),
    decreases s1.len(),
{
    if s1.len() == 0 {
        assert(s2.len() == s2.to_multiset().len());
        assert(s1.map_values(f) =~= Seq::<B>::empty());
        assert(s2.map_values(f) =~= Seq::<B>::empty());
    } else {
        let x = s1.last();
        let n = s1.len() - 1;
        assert(s1.contains(x)) by {
            assert(s1[n] == x);
        }
        assert(s1.to_multiset().count(x) > 0);
        assert(s2.contains(x));
        let j = choose|j: int| 0 <= j < s2.len() && s2[j] == x;
        assert(s1.remove(n) =~= s1.drop_last());
        vstd::seq_lib::to_multiset_remove(s1, n);
        vstd::seq_lib::to_multiset_remove(s2, j);
        lemma_multiset_map(s1.drop_last(), s2.remove(j), f);
        assert(s1.map_values(f) =~= s1.drop_last().map_values(f).push(f(x)));
        assert(s2.map_values(f).remove(j) =~= s2.remove(j).map_values(f));
        vstd::seq_lib::to_multiset_remove(s2.map_values(f), j);
        let m2 = s2.map_values(f).to_multiset();
        assert(s2.map_values(f)[j] == f(x));
        assert(s2.map_values(f).contains(f(x)));
        assert(m2.count(f(x)) > 0);
        assert(m2 =~= m2.remove(f(x)).insert(f(x)));
    }
}

/// The natural order of a type.
pub struct Natural;

/// A total preorder, named by the marker `M`, used to sort values.
pub trait SortKey<M>: Sized {
    spec fn key_le(&self, other: &Self) -> bool;

    fn le(&self, other: &Self) -> (result: bool)
        ensures
            result == self.key_le(other),
    ;

    proof fn lemma_total(a: &Self, b: &Self)
        ensures
            a.key_le(b) || b.key_le(a),
    ;

    proof fn lemma_transitive(a: &Self, b: &Self, c: &Self)
        requires
            a.key_le(b),
            b.key_le(c),
        ensures
            a.key_le(c),
    ;
}

/// `s` is in non-decreasing order.
pub open spec fn sorted<M, T: SortKey<M>>(s: Seq<T>) -> bool {
    forall|i: int, j: int| 0 <= i < j < s.len() ==> #[trigger] s[i].key_le(&s[j])
}

/// Two sorted sequences with the same elements are equal when the order
/// has no ties between different elements of them.
pub proof fn lemma_sorted_same_elements_equal<M, T: SortKey<M>>(a: Seq<T>, b: Seq<T>)
    requires
        sorted::<M, T>(a),
        sorted::<M, T>(b),
        a.to_multiset() == b.to_multiset(),
        forall|x: T, y: T|
            a.contains(x) && a.contains(y) && #[trigger] x.key_le(&y) && #[trigger] y.key_le(&x) ==> x == y,
    ensures
        a == b,
    decreases a.len(),
{
    assert(a.len() == a.to_multiset().len());
    assert(b.len() == b.to_multiset().len());
    if a.len() == 0 {
        assert(a =~= b);
    } else {
        let n = a.len() - 1;
        let x = a.last();
        let y = b.last();
        assert(a.contains(x)) by {
            assert(a[n] == x);
        }
        assert(b.contains(y)) by {
            assert(b[n] == y);
        }
        assert(a.to_multiset().count(x) > 0);
        assert(b.contains(x));
        assert(b.to_multiset().count(y) > 0);
        assert(a.contains(y));
        if x != y {
            let i = choose|i: int| 0 <= i < b.len() && b[i] == x;
            let j = choose|j: int| 0 <= j < a.len() && a[j] == y;
            assert(i != n);
            assert(j != n);
            assert(b[i].key_le(&b[n]));
            assert(a[j].key_le(&a[n]));
            assert(false);
        }
        assert(a =~= a.drop_last().push(x));
        assert(b =~= b.drop_last().push(x));
        let ma = a.drop_last().to_multiset();
        let mb = b.drop_last().to_multiset();
        assert(ma.insert(x) == mb.insert(x));
        assert(ma =~= ma.insert(x).remove(x));
        assert(mb =~= mb.insert(x).remove(x));
        assert forall|i: int, j: int| 0 <= i < j < a.drop_last().len() implies #[trigger] a.drop_last()[i].key_le(
            &a.drop_last()[j],
        ) by {
            assert(a[i].key_le(&a[j]));
        }
        assert forall|i: int, j: int| 0 <= i < j < b.drop_last().len() implies #[trigger] b.drop_last()[i].key_le(
            &b.drop_last()[j],
        ) by {
            assert(b[i].key_le(&b[j]));
        }
        assert forall|u: T, v: T|
            a.drop_last().contains(u) && a.drop_last().contains(v) && #[trigger] u.key_le(&v) && #[trigger] v.key_le(
                &u,
            ) implies u == v by {
            let p = choose|p: int| 0 <= p < a.drop_last().len() && a.drop_last()[p] == u;
            let q = choose|q: int| 0 <= q < a.drop_last().len() && a.drop_last()[q] == v;
            assert(a[p] == u && a[q] == v);
        }
        lemma_sorted_same_elements_equal::<M, T>(a.drop_last(), b.drop_last());
    }
}

/// Sorts `v` in non-decreasing order; elements with equal keys keep their
/// relative order, as std's stable `sort_by` does.
pub fn stable_sort<M, T: SortKey<M>>(v: Vec<T>) -> (result: Vec<T>)
    ensures
        sorted::<M, T>(result@),
        result@.to_multiset() == v@.to_multiset(),
        result.len() == v.len(),
{
    let mut input = v;
    let ghost original = input@;
    let mut result: Vec<T> = Vec::new();
    while input.len() > 0
        invariant
            sorted::<M, T>(result@),
            original.to_multiset() == result@.to_multiset().add(input@.to_multiset()),
            result.len() + input.len() == original.len(),
        decreases input.len(),
    {
        let ghost before_input = input@;
        let x = input.remove(0);
        proof {
            vstd::seq_lib::to_multiset_remove(before_input, 0);
        }
        let mut k: usize = 0;
        while k < result.len() && result[k].le(&x)
            invariant
                k <= result.len(),
                forall|j: int| 0 <= j < k ==> #[trigger] result@[j].key_le(&x),
            decreases result.len() - k,
        {
            k = k + 1;
        }
        let ghost before = result@;
        proof {
            if k < result.len() {
                T::lemma_total(&result@[k as int], &x);
            }
        }
        result.insert(k, x);
        proof {
            vstd::seq_lib::to_multiset_insert(before, k as int, x);
            assert forall|i: int, j: int| 0 <= i < j < result@.len() implies #[trigger] result@[
                i
            ].key_le(&result@[j]) by {
                if j < k {
                    assert(before[i].key_le(&before[j]));
                } else if j == k {
                } else if i < k {
                    assert(result@[j] == before[j - 1]);
                    assert(before[i].key_le(&x));
                    T::lemma_transitive(&before[i], &x, &before[k as int]);
                    if j - 1 > k {
                        assert(before[k as int].key_le(&before[j - 1]));
                    } else {
                        T::lemma_total(&before[k as int], &before[k as int]);
                    }
                    T::lemma_transitive(&before[i], &before[k as int], &before[j - 1]);
                } else if i == k {
                    if j - 1 > k {
                        assert(before[k as int].key_le(&before[j - 1]));
                        T::lemma_transitive(&x, &before[k as int], &before[j - 1]);
                    }
                } else {
                    assert(before[i - 1].key_le(&before[j - 1]));
                }
            }
            assert(original.to_multiset() =~= result@.to_multiset().add(input@.to_multiset()));
        }
    }
    proof {
        assert(input@.to_multiset() =~= vstd::multiset::Multiset::empty());
        assert(original.to_multiset() =~= result@.to_multiset());
    }
    result
}

impl SortKey<Natural> for String {
    open spec fn key_le(&self, other: &Self) -> bool {
        seq_le(self@, other@)
    }

    fn le(&self, other: &Self) -> (result: bool) {
        str_le(self.as_str(), other.as_str())
    }

    proof fn lemma_total(a: &Self, b: &Self) {
        lemma_seq_le_total(a@, b@);
    }

    proof fn lemma_transitive(a: &Self, b: &Self, c: &Self) {
        lemma_seq_le_transitive(a@, b@, c@);
    }
}


/// A strictly smaller text followed by a smaller-or-equal one stays strictly smaller.
pub proof fn lemma_seq_lt_le(a: Seq<char>, b: Seq<char>, c: Seq<char>)
    requires
        seq_lt(a, b),
        seq_le(b, c),
    ensures
        seq_lt(a, c),
{
    lemma_seq_le_transitive(a, b, c);
    if a == c {
        lemma_seq_le_antisymmetric(a, b);
    }
}

/// `s` is strictly increasing, so it holds no duplicates.
pub open spec fn strictly_increasing(s: Seq<Seq<char>>) -> bool {
    forall|i: int, j: int| 0 <= i < j < s.len() ==> seq_lt(#[trigger] s[i], #[trigger] s[j])
}

proof fn lemma_sorted_strings_contains(sorted_v: Seq<String>, v: Seq<String>, x: Seq<char>)
    requires
        sorted_v.to_multiset() == v.to_multiset(),
    ensures
        strs(sorted_v).contains(x) == strs(v).contains(x),
{
    if strs(sorted_v).contains(x) {
        let i = choose|i: int| 0 <= i < strs(sorted_v).len() && strs(sorted_v)[i] == x;
        let e = sorted_v[i];
        assert(sorted_v.contains(e));
        vstd::seq_lib::to_multiset_contains(sorted_v, e);
        vstd::seq_lib::to_multiset_contains(v, e);
        assert(v.contains(e));
        let j = choose|j: int| 0 <= j < v.len() && v[j] == e;
        assert(strs(v)[j] == x);
    }
    if strs(v).contains(x) {
        let i = choose|i: int| 0 <= i < strs(v).len() && strs(v)[i] == x;
        let e = v[i];
        assert(v.contains(e));
        vstd::seq_lib::to_multiset_contains(sorted_v, e);
        vstd::seq_lib::to_multiset_contains(v, e);
        assert(sorted_v.contains(e));
        let j = choose|j: int| 0 <= j < sorted_v.len() && sorted_v[j] == e;
        assert(strs(sorted_v)[j] == x);
    }
}

/// The distinct strings of `v` in ascending order, as a `BTreeSet<&str>`
/// iterates them.
pub fn sorted_unique(v: Vec<String>) -> (result: Vec<String>)
    ensures
        strictly_increasing(strs(result@)),
        forall|x: Seq<char>| strs(result@).contains(x) == strs(v@).contains(x),
{
    let ghost original = v@;
    let sorted_v = stable_sort::<Natural, String>(v);
    proof {
        assert forall|x: Seq<char>| strs(sorted_v@).contains(x) == strs(original).contains(x) by {
            lemma_sorted_strings_contains(sorted_v@, original, x);
        }
    }
    let mut result: Vec<String> = Vec::new();
    let mut i: usize = 0;
    while i < sorted_v.len()
        invariant
            i <= sorted_v.len(),
            sorted::<Natural, String>(sorted_v@),
            strictly_increasing(strs(result@)),
            i > 0 ==> result.len() > 0 && result@.last()@ == sorted_v@[i - 1]@,
            i == 0 ==> result.len() == 0,
            forall|x: Seq<char>| strs(result@).contains(x) == strs(sorted_v@.take(i as int)).contains(x),
        decreases sorted_v.len() - i,
    {
        let ghost before = result@;
        let ghost taken = sorted_v@.take(i as int);
        let ghost next = sorted_v@.take(i + 1);
        proof {
            assert(strs(next) =~= strs(taken).push(sorted_v@[i as int]@));
        }
        let keep = if i == 0 {
            true
        } else {
            result[result.len() - 1] != sorted_v[i]
        };
        if keep {
            result.push(sorted_v[i].clone());
            proof {
                assert(strs(result@) =~= strs(before).push(sorted_v@[i as int]@));
                if i > 0 {
                    let last = sorted_v@[i - 1]@;
                    let cur = sorted_v@[i as int]@;
                    assert(sorted_v@[i - 1].key_le(&sorted_v@[i as int]));
                    assert(seq_lt(last, cur));
                    assert forall|a: int, b: int| 0 <= a < b < strs(result@).len() implies seq_lt(
                        #[trigger] strs(result@)[a],
                        #[trigger] strs(result@)[b],
                    ) by {
                        if b == strs(result@).len() - 1 {
                            if a < strs(before).len() - 1 {
                                assert(seq_lt(strs(before)[a], strs(before)[strs(before).len() - 1]));
                                lemma_seq_lt_le(strs(before)[a], last, cur);
                            }
                        } else {
                            assert(strs(result@)[a] == strs(before)[a]);
                            assert(strs(result@)[b] == strs(before)[b]);
                        }
                    }
                }
            }
        } else {
            proof {
                assert(strs(result@) =~= strs(before));
            }
        }
        proof {
            assert forall|x: Seq<char>| strs(result@).contains(x) == strs(next).contains(x) by {
                if strs(next).contains(x) && !strs(taken).contains(x) {
                    let k = choose|k: int| 0 <= k < strs(next).len() && strs(next)[k] == x;
                    if k < i {
                        assert(strs(taken)[k] == x);
                    }
                    assert(x == sorted_v@[i as int]@);
                    if !keep {
                        assert(strs(before)[strs(before).len() - 1] == x);
                    }
                    assert(strs(result@)[strs(result@).len() - 1] == x);
                }
                if strs(result@).contains(x) && !strs(before).contains(x) {
                    let k = choose|k: int| 0 <= k < strs(result@).len() && strs(result@)[k] == x;
                    if k < strs(before).len() {
                        assert(strs(before)[k] == x);
                    }
                    assert(strs(next)[i as int] == x);
                }
                if strs(before).contains(x) {
                    let k = choose|k: int| 0 <= k < strs(before).len() && strs(before)[k] == x;
                    assert(strs(result@)[k] == x);
                }
                if strs(taken).contains(x) {
                    let k = choose|k: int| 0 <= k < strs(taken).len() && strs(taken)[k] == x;
                    assert(strs(next)[k] == x);
                }
            }
        }
        i = i + 1;
    }
    proof {
        assert(sorted_v@.take(i as int) =~= sorted_v@);
    }
    result
}

} // verus!
