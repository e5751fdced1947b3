//! Orders on strings and the stable insertion sort that the library uses to keep
//! lists ordered.
use vstd::prelude::*;

use crate::text::{chars_eq, chars_of};

verus! {

broadcast use vstd::seq_lib::group_seq_properties;

/// Lexicographic order on characters by code point; for strings this is the order
/// `String`'s `Ord` uses (UTF-8 preserves code point order).
pub open spec fn seq_le(a: Seq<char>, b: Seq<char>) -> bool
    decreases a.len(),
{
    if a.len() == 0 {
        true
    } else if b.len() == 0 {
        false
    } else if a[0] != b[0] {
        a[0] < b[0]
    } else {
        seq_le(a.drop_first(), b.drop_first())
    }
}

pub proof fn lemma_seq_le_total(a: Seq<char>, b: Seq<char>)
    ensures
        seq_le(a, b) || seq_le(b, a),
    decreases a.len(),
{
    if a.len() > 0 && b.len() > 0 && a[0] == b[0] {
        lemma_seq_le_total(a.drop_first(), b.drop_first());
    }
}

pub proof fn lemma_seq_le_antisym(a: Seq<char>, b: Seq<char>)
    requires
        seq_le(a, b),
        seq_le(b, a),
    ensures
        a == b,
    decreases a.len(),
{
    if a.len() > 0 && b.len() > 0 {
        lemma_seq_le_antisym(a.drop_first(), b.drop_first());
        assert(a =~= seq![a[0]] + a.drop_first());
        assert(b =~= seq![b[0]] + b.drop_first());
    }
}

pub proof fn lemma_seq_le_trans(a: Seq<char>, b: Seq<char>, c: Seq<char>)
    requires
        seq_le(a, b),
        seq_le(b, c),
    ensures
        seq_le(a, c),
    decreases a.len(),
{
    if a.len() > 0 && b.len() > 0 && c.len() > 0 && a[0] == b[0] && b[0] == c[0] {
        lemma_seq_le_trans(a.drop_first(), b.drop_first(), c.drop_first());
    }
}

pub proof fn lemma_seq_le_refl(a: Seq<char>)
    ensures
        seq_le(a, a),
{
    lemma_seq_le_total(a, a);
}

/// `a <= b` for strings.
pub fn chars_le(a: &Vec<char>, b: &Vec<char>) -> (r: bool)
    ensures
        r == seq_le(a@, b@),
{
    let mut i: usize = 0;
    while i < a.len() && i < b.len() && a[i] == b[i]
        invariant
            i <= a@.len(),
            i <= b@.len(),
            a@.take(i as int) == b@.take(i as int),
            seq_le(a@, b@) == seq_le(a@.skip(i as int), b@.skip(i as int)),
        decreases a@.len() - i,
    {
        assert(a@.skip(i as int).drop_first() =~= a@.skip(i + 1));
        assert(b@.skip(i as int).drop_first() =~= b@.skip(i + 1));
        assert(a@.take(i + 1) =~= a@.take(i as int).push(a@[i as int]));
        assert(b@.take(i + 1) =~= b@.take(i as int).push(b@[i as int]));
        i += 1;
    }
    if i == a.len() {
        true
    } else if i == b.len() {
        false
    } else {
        a[i] < b[i]
    }
}

// ---------------------------------------------------------------------------
// Stable insertion sort, as a specification over any element type
// ---------------------------------------------------------------------------

/// Where a stable insertion places `x` in `sorted`: after the last element that is
/// not greater than it, scanning from the back.
pub open spec fn insert_pos<V>(sorted: Seq<V>, x: V, le: spec_fn(V, V) -> bool) -> nat
    decreases sorted.len(),
{
    if sorted.len() == 0 {
        0
    } else if le(sorted.last(), x) {
        sorted.len()
    } else {
        insert_pos(sorted.drop_last(), x, le)
    }
}

pub open spec fn insert_sorted<V>(sorted: Seq<V>, x: V, le: spec_fn(V, V) -> bool) -> Seq<V> {
    sorted.insert(insert_pos(sorted, x, le) as int, x)
}

/// The stable insertion sort of `s` under `le`.
pub open spec fn sort_seq<V>(s: Seq<V>, le: spec_fn(V, V) -> bool) -> Seq<V>
    decreases s.len(),
{
    if s.len() == 0 {
        s
    } else {
        insert_sorted(sort_seq(s.drop_last(), le), s.last(), le)
    }
}

pub open spec fn is_total<V>(le: spec_fn(V, V) -> bool) -> bool {
    forall|a: V, b: V| #[trigger] le(a, b) || le(b, a)
}

pub open spec fn is_transitive<V>(le: spec_fn(V, V) -> bool) -> bool {
    forall|a: V, b: V, c: V| #[trigger] le(a, b) && #[trigger] le(b, c) ==> le(a, c)
}

/// Each element is not greater than the next one.
pub open spec fn adjacent_sorted<V>(s: Seq<V>, le: spec_fn(V, V) -> bool) -> bool {
    forall|i: int| 0 <= i < s.len() - 1 ==> #[trigger] le(s[i], s[i + 1])
}

/// Every element is not greater than any later one.
pub open spec fn sorted_by<V>(s: Seq<V>, le: spec_fn(V, V) -> bool) -> bool {
    forall|i: int, j: int| 0 <= i < j < s.len() ==> #[trigger] le(s[i], s[j])
}

pub proof fn lemma_insert_pos_bound<V>(sorted: Seq<V>, x: V, le: spec_fn(V, V) -> bool)
    ensures
        insert_pos(sorted, x, le) <= sorted.len(),
        insert_pos(sorted, x, le) > 0 ==> le(sorted[insert_pos(sorted, x, le) - 1], x),
        forall|k: int| insert_pos(sorted, x, le) <= k < sorted.len() ==> !le(#[trigger] sorted[k], x),
    decreases sorted.len(),
{
    if sorted.len() > 0 && !le(sorted.last(), x) {
        lemma_insert_pos_bound(sorted.drop_last(), x, le);
        let p = insert_pos(sorted, x, le);
        assert forall|k: int| p <= k < sorted.len() implies !le(#[trigger] sorted[k], x) by {
            if k < sorted.len() - 1 {
                assert(sorted[k] == sorted.drop_last()[k]);
            }
        }
    }
}

pub proof fn lemma_insert_keeps_adjacent<V>(sorted: Seq<V>, x: V, le: spec_fn(V, V) -> bool)
    requires
        is_total(le),
        adjacent_sorted(sorted, le),
    ensures
        adjacent_sorted(insert_sorted(sorted, x, le), le),
{
    lemma_insert_pos_bound(sorted, x, le);
    let p = insert_pos(sorted, x, le) as int;
    let r = insert_sorted(sorted, x, le);
    assert forall|i: int| 0 <= i < r.len() - 1 implies #[trigger] le(r[i], r[i + 1]) by {
        if i + 1 < p {
            assert(r[i] == sorted[i] && r[i + 1] == sorted[i + 1]);
            assert(le(sorted[i], sorted[i + 1]));
        } else if i + 1 == p {
            assert(r[i] == sorted[i] && r[i + 1] == x);
        } else if i == p {
            assert(r[i] == x && r[i + 1] == sorted[i]);
            assert(!le(sorted[i], x));
            assert(le(sorted[i], x) || le(x, sorted[i]));
        } else {
            assert(r[i] == sorted[i - 1] && r[i + 1] == sorted[i]);
            let h = i - 1;
            assert(le(sorted[h], sorted[h + 1]));
        }
    }
}

/// Under a total relation, the sort leaves every element not greater than the next.
pub proof fn lemma_sort_adjacent<V>(s: Seq<V>, le: spec_fn(V, V) -> bool)
    requires
        is_total(le),
    ensures
        adjacent_sorted(sort_seq(s, le), le),
    decreases s.len(),
{
    if s.len() > 0 {
        lemma_sort_adjacent(s.drop_last(), le);
        lemma_insert_keeps_adjacent(sort_seq(s.drop_last(), le), s.last(), le);
    }
}

pub proof fn lemma_adjacent_to_sorted<V>(s: Seq<V>, le: spec_fn(V, V) -> bool)
    requires
        is_transitive(le),
        adjacent_sorted(s, le),
    ensures
        sorted_by(s, le),
    decreases s.len(),
{
    if s.len() > 1 {
        let t = s.drop_last();
        assert forall|i: int| 0 <= i < t.len() - 1 implies #[trigger] le(t[i], t[i + 1]) by {
            assert(le(s[i], s[i + 1]));
            assert(t[i] == s[i] && t[i + 1] == s[i + 1]);
        }
        lemma_adjacent_to_sorted(t, le);
        assert forall|i: int, j: int| 0 <= i < j < s.len() implies #[trigger] le(s[i], s[j]) by {
            if j < s.len() - 1 {
                assert(le(t[i], t[j]));
            } else if i < j - 1 {
                assert(le(t[i], t[j - 1]));
                let h = j - 1;
                assert(le(s[h], s[h + 1]));
            } else {
                assert(le(s[i], s[i + 1]));
            }
        }
    }
}

/// A list whose neighbours are in order is ordered when the relation chains across
/// every three of its elements in list order.
pub proof fn lemma_adjacent_to_sorted_within<V>(s: Seq<V>, le: spec_fn(V, V) -> bool)
    requires
        adjacent_sorted(s, le),
        forall|i: int, j: int, k: int|
            0 <= i < j < k < s.len() && #[trigger] le(s[i], s[j]) && #[trigger] le(s[j], s[k])
                ==> le(s[i], s[k]),
    ensures
        sorted_by(s, le),
    decreases s.len(),
{
    if s.len() > 1 {
        let t = s.drop_last();
        assert forall|i: int| 0 <= i < t.len() - 1 implies #[trigger] le(t[i], t[i + 1]) by {
            assert(le(s[i], s[i + 1]));
            assert(t[i] == s[i] && t[i + 1] == s[i + 1]);
        }
        assert forall|i: int, j: int, k: int|
            0 <= i < j < k < t.len() && #[trigger] le(t[i], t[j]) && #[trigger] le(t[j], t[k]) implies le(
            t[i],
            t[k],
        ) by {
            assert(t[i] == s[i] && t[j] == s[j] && t[k] == s[k]);
            assert(le(s[i], s[j]) && le(s[j], s[k]));
        }
        lemma_adjacent_to_sorted_within(t, le);
        assert forall|i: int, j: int| 0 <= i < j < s.len() implies #[trigger] le(s[i], s[j]) by {
            if j < s.len() - 1 {
                assert(le(t[i], t[j]));
            } else if i < j - 1 {
                let h = j - 1;
                assert(le(t[i], t[h]));
                assert(t[i] == s[i] && t[h] == s[h]);
                assert(le(s[h], s[h + 1]));
                assert(le(s[i], s[h]) && le(s[h], s[j]));
            } else {
                assert(le(s[i], s[i + 1]));
            }
        }
    }
}

/// Under a total preorder the sort is ordered.
pub proof fn lemma_sort_sorted<V>(s: Seq<V>, le: spec_fn(V, V) -> bool)
    requires
        is_total(le),
        is_transitive(le),
    ensures
        sorted_by(sort_seq(s, le), le),
{
    lemma_sort_adjacent(s, le);
    lemma_adjacent_to_sorted(sort_seq(s, le), le);
}

/// The sort rearranges its input and drops or adds nothing.
pub proof fn lemma_sort_permutation<V>(s: Seq<V>, le: spec_fn(V, V) -> bool)
    ensures
        sort_seq(s, le).to_multiset() == s.to_multiset(),
        sort_seq(s, le).len() == s.len(),
    decreases s.len(),
{
    if s.len() > 0 {
        let t = s.drop_last();
        lemma_sort_permutation(t, le);
        let st = sort_seq(t, le);
        lemma_insert_pos_bound(st, s.last(), le);
        let p = insert_pos(st, s.last(), le) as int;
        vstd::seq_lib::to_multiset_insert(st, p, s.last());
        assert(s =~= t.push(s.last()));
        vstd::seq_lib::to_multiset_build(t, s.last());
    }
}

/// Stable insertion sort of `v` by the comparison `le`, which computes `spec_le` on
/// the elements' views.
pub fn sort_stable<T: DeepView, F: Fn(&T, &T) -> bool>(
    v: Vec<T>,
    le: F,
    Ghost(spec_le): Ghost<spec_fn(T::V, T::V) -> bool>,
) -> (r: Vec<T>)
    requires
        forall|a: &T, b: &T| #[trigger] le.requires((a, b)),
        forall|a: &T, b: &T, x: bool|
            le.ensures((a, b), x) ==> x == spec_le(a.deep_view(), b.deep_view()),
    ensures
        r.deep_view() == sort_seq(v.deep_view(), spec_le),
{
    let ghost s = v.deep_view();
    let n = v.len();
    let mut rest = v;
    let mut out: Vec<T> = Vec::new();
    let mut i: usize = 0;
    while rest.len() > 0
        invariant
            n == s.len(),
            i + rest@.len() == s.len(),
            rest.deep_view() == s.skip(i as int),
            out.deep_view() == sort_seq(s.take(i as int), spec_le),
            forall|a: &T, b: &T| #[trigger] le.requires((a, b)),
            forall|a: &T, b: &T, x: bool|
                le.ensures((a, b), x) ==> x == spec_le(a.deep_view(), b.deep_view()),
        decreases rest@.len(),
    {
        let x = rest.remove(0);
        assert(x.deep_view() == s[i as int]);
        assert(rest.deep_view() =~= s.skip(i + 1));
        let ghost sorted = out.deep_view();
        let ghost xv = x.deep_view();
        let mut j: usize = out.len();
        while j > 0
            invariant
                j <= out@.len(),
                sorted == out.deep_view(),
                xv == x.deep_view(),
                insert_pos(sorted, xv, spec_le) == insert_pos(sorted.take(j as int), xv, spec_le),
                forall|a: &T, b: &T| #[trigger] le.requires((a, b)),
                forall|a: &T, b: &T, x: bool|
                    le.ensures((a, b), x) ==> x == spec_le(a.deep_view(), b.deep_view()),
            ensures
                j <= out@.len(),
                j == 0 || spec_le(sorted[j - 1], xv),
                insert_pos(sorted, xv, spec_le) == insert_pos(sorted.take(j as int), xv, spec_le),
            decreases j,
        {
            let keep = le(&out[j - 1], &x);
            if keep {
                assert(out@[j - 1].deep_view() == sorted[j - 1]);
                break ;
            }
            assert(out@[j - 1].deep_view() == sorted[j - 1]);
            assert(sorted.take(j as int).drop_last() =~= sorted.take(j - 1));
            j -= 1;
        }
        proof {
            if j > 0 {
                assert(sorted.take(j as int).last() == sorted[j - 1]);
            }
            lemma_insert_pos_bound(sorted.take(j as int), xv, spec_le);
        }
        assert(insert_pos(sorted, xv, spec_le) == j);
        out.insert(j, x);
        assert(out.deep_view() =~= sorted.insert(j as int, xv));
        assert(out.deep_view() =~= insert_sorted(sorted, xv, spec_le));
        assert(s.take(i + 1).drop_last() =~= s.take(i as int));
        assert(s.take(i + 1).last() == xv);
        i += 1;
    }
    assert(s.take(i as int) =~= s);
    out
}

// ---------------------------------------------------------------------------
// Sorted sets of strings
// ---------------------------------------------------------------------------

/// `a < b` for strings.
pub open spec fn seq_lt(a: Seq<char>, b: Seq<char>) -> bool {
    seq_le(a, b) && a != b
}

/// Strictly increasing: sorted, and no string occurs twice (the order a
/// `BTreeSet<String>` walks its items in).
pub open spec fn strictly_sorted(s: Seq<Seq<char>>) -> bool {
    forall|i: int, j: int| 0 <= i < j < s.len() ==> #[trigger] seq_lt(s[i], s[j])
}

/// Adds `x` to a strictly increasing list of strings, keeping it strictly increasing.
pub fn insert_unique_sorted(v: &mut Vec<String>, x: String)
    requires
        strictly_sorted(old(v).deep_view()),
    ensures
        strictly_sorted(final(v).deep_view()),
        final(v).deep_view().to_set() == old(v).deep_view().to_set().insert(x@),
{
    let ghost s = v.deep_view();
    let xv = chars_of(x.as_str());
    let mut p: usize = 0;
    while p < v.len()
        invariant
            p <= s.len(),
            s == v.deep_view(),
            xv@ == x@,
            forall|k: int| 0 <= k < p ==> #[trigger] seq_lt(s[k], x@),
        ensures
            p <= s.len(),
            s == v.deep_view(),
            forall|k: int| 0 <= k < p ==> #[trigger] seq_lt(s[k], x@),
            p < s.len() ==> seq_le(x@, s[p as int]),
        decreases s.len() - p,
    {
        let yv = chars_of(v[p].as_str());
        assert(yv@ == s[p as int]);
        if chars_le(&xv, &yv) {
            break ;
        }
        proof {
            lemma_seq_le_total(x@, s[p as int]);
        }
        p += 1;
    }
    if p < v.len() {
        let yv = chars_of(v[p].as_str());
        assert(yv@ == s[p as int]);
        if chars_eq(&yv, &xv) {
            assert(s.to_set().insert(x@) =~= s.to_set()) by {
                assert(s.contains(x@));
            }
            return;
        }
    }
    proof {
        if p < s.len() {
            assert(seq_le(x@, s[p as int]));
        }
    }
    let ghost r = s.insert(p as int, x@);
    v.insert(p, x);
    assert(v.deep_view() =~= r);
    assert forall|i: int, j: int| 0 <= i < j < r.len() implies #[trigger] seq_lt(r[i], r[j]) by {
        if j < p {
            assert(r[i] == s[i] && r[j] == s[j]);
        } else if j == p {
            assert(r[i] == s[i] && r[j] == x@);
        } else if i == p {
            assert(r[i] == x@ && r[j] == s[j - 1]);
            if j - 1 > p {
                assert(seq_lt(s[p as int], s[j - 1]));
                lemma_seq_le_trans(x@, s[p as int], s[j - 1]);
                if x@ == s[j - 1] {
                    lemma_seq_le_antisym(x@, s[p as int]);
                }
            }
        } else if i < p {
            assert(r[i] == s[i] && r[j] == s[j - 1]);
            if j - 1 >= p {
                let sj = s[j - 1];
                assert(seq_lt(s[i], x@));
                if j - 1 > p {
                    assert(seq_lt(s[p as int], sj));
                    lemma_seq_le_trans(x@, s[p as int], sj);
                }
                lemma_seq_le_trans(s[i], x@, sj);
                if s[i] == sj {
                    lemma_seq_le_antisym(s[i], x@);
                }
            }
        } else {
            assert(r[i] == s[i - 1] && r[j] == s[j - 1]);
            let a = i - 1;
            let b = j - 1;
            assert(seq_lt(s[a], s[b]));
        }
    }
    assert(r.to_set() =~= s.to_set().insert(x@)) by {
        assert forall|a: Seq<char>| r.to_set().contains(a) implies s.to_set().insert(x@).contains(a) by {
            let k = choose|k: int| 0 <= k < r.len() && r[k] == a;
            if k < p {
                assert(s[k] == a);
            } else if k > p {
                assert(s[k - 1] == a);
            }
        }
        assert forall|a: Seq<char>| s.to_set().insert(x@).contains(a) implies r.to_set().contains(a) by {
            if a == x@ {
                assert(r[p as int] == a);
            } else {
                let k = choose|k: int| 0 <= k < s.len() && s[k] == a;
                if k < p {
                    assert(r[k] == a);
                } else {
                    assert(r[k + 1] == a);
                }
            }
        }
    }
}

/// The distinct strings of `v` in increasing order (what collecting them into a
/// `BTreeSet` walks).
pub fn sorted_set_of(v: &Vec<String>) -> (r: Vec<String>)
    ensures
        strictly_sorted(r.deep_view()),
        r.deep_view().to_set() == v.deep_view().to_set(),
{
    let ghost s = v.deep_view();
    let mut r: Vec<String> = Vec::new();
    let mut i: usize = 0;
    assert(r.deep_view().to_set() =~= s.take(0).to_set());
    while i < v.len()
        invariant
            i <= s.len(),
            s == v.deep_view(),
            strictly_sorted(r.deep_view()),
            r.deep_view().to_set() == s.take(i as int).to_set(),
        decreases s.len() - i,
    {
        assert(s[i as int] == v@[i as int]@);
        insert_unique_sorted(&mut r, v[i].clone());
        proof {
            assert(s.take(i + 1) =~= s.take(i as int).push(s[i as int]));
            s.take(i as int).lemma_push_to_set_commute(s[i as int]);
        }
        i += 1;
    }
    assert(s.take(i as int) =~= s);
    r
}

// ---------------------------------------------------------------------------
// Searching
// ---------------------------------------------------------------------------

/// The index of the first element of `s` that satisfies `p`.
pub open spec fn first_index<T>(s: Seq<T>, p: spec_fn(T) -> bool) -> Option<int>
    decreases s.len(),
{
    if s.len() == 0 {
        None
    } else {
        match first_index(s.drop_last(), p) {
            Some(i) => Some(i),
            None => if p(s.last()) {
                Some(s.len() - 1)
            } else {
                None
            },
        }
    }
}

pub proof fn lemma_first_index<T>(s: Seq<T>, p: spec_fn(T) -> bool)
    ensures
        match first_index(s, p) {
            Some(i) => 0 <= i < s.len() && p(s[i]) && forall|j: int| 0 <= j < i ==> !p(#[trigger] s[j]),
            None => forall|j: int| 0 <= j < s.len() ==> !p(#[trigger] s[j]),
        },
    decreases s.len(),
{
    if s.len() > 0 {
        let t = s.drop_last();
        lemma_first_index(t, p);
        match first_index(t, p) {
            Some(i) => {
                assert forall|j: int| 0 <= j < i implies !p(#[trigger] s[j]) by {
                    assert(s[j] == t[j]);
                }
                assert(s[i] == t[i]);
            },
            None => {
                assert forall|j: int| 0 <= j < s.len() - 1 implies !p(#[trigger] s[j]) by {
                    assert(s[j] == t[j]);
                }
            },
        }
    }
}

/// The first index `i` with `p(s[i])` is the answer of `first_index` exactly when
/// no earlier element satisfies `p`.
pub proof fn lemma_first_index_at<T>(s: Seq<T>, p: spec_fn(T) -> bool, i: int)
    requires
        0 <= i < s.len(),
        p(s[i]),
        forall|j: int| 0 <= j < i ==> !p(#[trigger] s[j]),
    ensures
        first_index(s, p) == Some(i),
{
    lemma_first_index(s, p);
    match first_index(s, p) {
        Some(k) => {
            if k < i {
                assert(!p(s[k]));
            } else if k > i {
                assert(!p(s[i]));
            }
        },
        None => {
            assert(!p(s[i]));
        },
    }
}

} // verus!
