//! String helpers of the `vfox.strings` module offered to Lua plugins, beyond those
//! that are plain `str` operations (`has_prefix`, `has_suffix`, `contains`, `join`,
//! `trim_space` and `fields` are `starts_with`, `ends_with`, `contains`, `join`,
//! `trim` and `split_whitespace` of the text module).
use vstd::prelude::*;

use crate::text::{
    chars_of, copy_str, ends_with, has_char, is_prefix_of, is_suffix_of, join_seq, occurs_at_exec,
    push_char, starts_with, string_from_range,
};

verus! {

broadcast use vstd::seq_lib::group_seq_properties;

/// Puts `c` in front of the first piece.
pub open spec fn prepend_first(c: char, parts: Seq<Seq<char>>) -> Seq<Seq<char>> {
    parts.update(0, seq![c] + parts[0])
}

/// `str::split` with a non-empty string separator: the pieces between the
/// non-overlapping occurrences of `sep`, found from the left.
pub open spec fn split_on(s: Seq<char>, sep: Seq<char>) -> Seq<Seq<char>>
    recommends
        sep.len() > 0,
    decreases s.len(),
{
    if sep.len() == 0 || s.len() < sep.len() {
        seq![s]
    } else if s.take(sep.len() as int) == sep {
        seq![Seq::<char>::empty()] + split_on(s.skip(sep.len() as int), sep)
    } else {
        prepend_first(s[0], split_on(s.drop_first(), sep))
    }
}

/// `str::split` with the empty separator: an empty piece, each character, an empty
/// piece.
pub open spec fn split_empty(s: Seq<char>) -> Seq<Seq<char>> {
    seq![Seq::<char>::empty()] + s.map_values(|c: char| seq![c]) + seq![Seq::<char>::empty()]
}

pub open spec fn split_spec(s: Seq<char>, sep: Seq<char>) -> Seq<Seq<char>> {
    if sep.len() == 0 {
        split_empty(s)
    } else {
        split_on(s, sep)
    }
}

proof fn lemma_split_on_nonempty(s: Seq<char>, sep: Seq<char>)
    requires
        sep.len() > 0,
    ensures
        split_on(s, sep).len() >= 1,
    decreases s.len(),
{
    if s.len() >= sep.len() {
        if s.take(sep.len() as int) == sep {
            lemma_split_on_nonempty(s.skip(sep.len() as int), sep);
        } else {
            lemma_split_on_nonempty(s.drop_first(), sep);
        }
    }
}

/// The pieces of `input` between occurrences of `separator` (`str::split`).
pub fn split(input: &str, separator: &str) -> (r: Vec<String>)
    ensures
        r.deep_view() == split_spec(input@, separator@),
{
    let v = chars_of(input);
    let p = chars_of(separator);
    if p.len() == 0 {
        let mut r: Vec<String> = Vec::new();
        r.push(String::new());
        let mut i: usize = 0;
        while i < v.len()
            invariant
                i <= v@.len(),
                r.deep_view() == seq![Seq::<char>::empty()] + v@.take(i as int).map_values(
                    |c: char| seq![c],
                ),
            decreases v@.len() - i,
        {
            let mut one = String::new();
            push_char(&mut one, v[i]);
            let ghost before = r.deep_view();
            assert(one@ =~= seq![v@[i as int]]);
            r.push(one);
            assert(r.deep_view() =~= before.push(seq![v@[i as int]]));
            assert(v@.take(i + 1) =~= v@.take(i as int).push(v@[i as int]));
            assert(r.deep_view() =~= seq![Seq::<char>::empty()] + v@.take(i + 1).map_values(
                |c: char| seq![c],
            ));
            i += 1;
        }
        r.push(String::new());
        assert(v@.take(i as int) =~= v@);
        assert(r.deep_view() =~= split_empty(input@));
        return r;
    }
    let mut parts: Vec<String> = Vec::new();
    let mut cur = String::new();
    let mut i: usize = 0;
    proof {
        lemma_split_on_nonempty(v@, p@);
    }
    assert(v@.skip(0) =~= v@);
    assert(parts.deep_view() + prepend_first_all(cur@, split_on(v@.skip(0), p@)) =~= split_on(
        v@,
        p@,
    )) by {
        assert(cur@ =~= Seq::<char>::empty());
        assert(prepend_first_all(cur@, split_on(v@, p@)) =~= split_on(v@, p@));
    }
    while i < v.len()
        invariant
            i <= v@.len(),
            v@ == input@,
            p@ == separator@,
            p@.len() > 0,
            parts.deep_view() + prepend_first_all(cur@, split_on(v@.skip(i as int), p@)) == split_on(
                v@,
                p@,
            ),
        decreases v@.len() - i,
    {
        let ghost rest = v@.skip(i as int);
        proof {
            lemma_split_on_nonempty(rest, p@);
        }
        if occurs_at_exec(&v, &p, i) {
            assert(rest.take(p@.len() as int) =~= v@.subrange(i as int, i + p@.len()));
            assert(rest.skip(p@.len() as int) =~= v@.skip(i + p@.len()));
            let ghost tail = split_on(v@.skip(i + p@.len()), p@);
            proof {
                lemma_split_on_nonempty(v@.skip(i + p@.len()), p@);
            }
            let ghost old_parts = parts.deep_view();
            let ghost old_cur = cur@;
            let done = cur;
            parts.push(done);
            cur = String::new();
            assert(prepend_first_all(old_cur, seq![Seq::<char>::empty()] + tail) =~= seq![old_cur]
                + tail);
            assert(parts.deep_view() + prepend_first_all(cur@, tail) =~= old_parts
                + prepend_first_all(old_cur, split_on(rest, p@)));
            i += p.len();
        } else {
            proof {
                if rest.len() >= p@.len() {
                    assert(rest.take(p@.len() as int) =~= v@.subrange(i as int, i + p@.len()));
                }
                assert(rest.drop_first() =~= v@.skip(i + 1));
                lemma_split_on_nonempty(rest.drop_first(), p@);
            }
            let ghost old_cur = cur@;
            let ghost tail = split_on(v@.skip(i + 1), p@);
            push_char(&mut cur, v[i]);
            proof {
                let c = v@[i as int];
                assert(rest[0] == c);
                assert(cur@ == old_cur.push(c));
                if rest.len() < p@.len() {
                    assert(split_on(rest, p@) == seq![rest]);
                    assert(tail == seq![rest.drop_first()]);
                    assert(rest =~= seq![rest[0]] + rest.drop_first());
                    assert(old_cur + rest =~= old_cur.push(c) + rest.drop_first());
                } else {
                    assert(split_on(rest, p@) == prepend_first(c, tail));
                    assert(old_cur + (seq![c] + tail[0]) =~= old_cur.push(c) + tail[0]);
                }
                assert(prepend_first_all(cur@, tail) =~= prepend_first_all(
                    old_cur,
                    split_on(rest, p@),
                ));
            }
            i += 1;
        }
    }
    let ghost last = v@.skip(i as int);
    assert(last.len() == 0);
    assert(split_on(last, p@) == seq![last]);
    let final_piece = cur;
    parts.push(final_piece);
    assert(parts.deep_view() =~= split_on(v@, p@));
    parts
}

/// Puts `prefix` in front of the first piece.
pub open spec fn prepend_first_all(prefix: Seq<char>, parts: Seq<Seq<char>>) -> Seq<Seq<char>> {
    parts.update(0, prefix + parts[0])
}

/// `s` without the characters of `cut` at its start.
pub open spec fn trim_start_in(s: Seq<char>, cut: Seq<char>) -> Seq<char>
    decreases s.len(),
{
    if s.len() > 0 && cut.contains(s[0]) {
        trim_start_in(s.drop_first(), cut)
    } else {
        s
    }
}

/// `s` without the characters of `cut` at its end.
pub open spec fn trim_end_in(s: Seq<char>, cut: Seq<char>) -> Seq<char>
    decreases s.len(),
{
    if s.len() > 0 && cut.contains(s.last()) {
        trim_end_in(s.drop_last(), cut)
    } else {
        s
    }
}

proof fn lemma_trim_start_in_at(s: Seq<char>, cut: Seq<char>, i: int)
    requires
        0 <= i <= s.len(),
        forall|j: int| 0 <= j < i ==> cut.contains(#[trigger] s[j]),
        i == s.len() || !cut.contains(s[i]),
    ensures
        trim_start_in(s, cut) == s.skip(i),
    decreases i,
{
    if i == 0 {
        assert(s.skip(0) =~= s);
    } else {
        let t = s.drop_first();
        assert forall|j: int| 0 <= j < i - 1 implies cut.contains(#[trigger] t[j]) by {
            assert(t[j] == s[j + 1]);
        }
        if i - 1 < t.len() {
            assert(t[i - 1] == s[i]);
        }
        assert(cut.contains(s[0]));
        lemma_trim_start_in_at(t, cut, i - 1);
        assert(t.skip(i - 1) =~= s.skip(i));
    }
}

proof fn lemma_trim_end_in_at(s: Seq<char>, cut: Seq<char>, e: int)
    requires
        0 <= e <= s.len(),
        forall|j: int| e <= j < s.len() ==> cut.contains(#[trigger] s[j]),
        e == 0 || !cut.contains(s[e - 1]),
    ensures
        trim_end_in(s, cut) == s.take(e),
    decreases s.len() - e,
{
    if e == s.len() {
        assert(s.take(e) =~= s);
    } else {
        let t = s.drop_last();
        assert forall|j: int| e <= j < t.len() implies cut.contains(#[trigger] t[j]) by {
            assert(t[j] == s[j]);
        }
        if e > 0 {
            assert(t[e - 1] == s[e - 1]);
        }
        assert(cut.contains(s[s.len() - 1]));
        lemma_trim_end_in_at(t, cut, e);
        assert(t.take(e) =~= s.take(e));
    }
}

/// `input` without the characters of `cutset` at either end (`str::trim_matches`).
pub fn trim(input: &str, cutset: &str) -> (r: String)
    ensures
        r@ == trim_end_in(trim_start_in(input@, cutset@), cutset@),
{
    let v = chars_of(input);
    let cut = chars_of(cutset);
    let mut start: usize = 0;
    while start < v.len() && has_char(&cut, v[start])
        invariant
            start <= v@.len(),
            forall|j: int| 0 <= j < start ==> cut@.contains(#[trigger] v@[j]),
        decreases v@.len() - start,
    {
        start += 1;
    }
    proof {
        lemma_trim_start_in_at(v@, cut@, start as int);
    }
    let mut end: usize = v.len();
    while end > start && has_char(&cut, v[end - 1])
        invariant
            start <= end <= v@.len(),
            forall|j: int| end <= j < v@.len() ==> cut@.contains(#[trigger] v@[j]),
        decreases end,
    {
        end -= 1;
    }
    proof {
        let t = v@.skip(start as int);
        let e = end - start;
        assert forall|j: int| e <= j < t.len() implies cut@.contains(#[trigger] t[j]) by {
            assert(t[j] == v@[j + start]);
        }
        if e > 0 {
            assert(t[e - 1] == v@[end - 1]);
        }
        lemma_trim_end_in_at(t, cut@, e);
        assert(t.take(e) =~= v@.subrange(start as int, end as int));
    }
    string_from_range(&v, start, end)
}

/// `input` without `prefix` when it starts with it, else unchanged
/// (`strip_prefix(..).unwrap_or(input)`).
pub fn trim_prefix(input: &str, prefix: &str) -> (r: String)
    ensures
        r@ == (if is_prefix_of(prefix@, input@) {
            input@.skip(prefix@.len() as int)
        } else {
            input@
        }),
{
    if starts_with(input, prefix) {
        let v = chars_of(input);
        let p = chars_of(prefix);
        let r = string_from_range(&v, p.len(), v.len());
        assert(v@.subrange(p@.len() as int, v@.len() as int) =~= input@.skip(prefix@.len() as int));
        r
    } else {
        copy_str(input)
    }
}

/// `input` without `suffix` when it ends with it, else unchanged
/// (`strip_suffix(..).unwrap_or(input)`).
pub fn trim_suffix(input: &str, suffix: &str) -> (r: String)
    ensures
        r@ == (if is_suffix_of(suffix@, input@) {
            input@.take(input@.len() - suffix@.len())
        } else {
            input@
        }),
{
    if ends_with(input, suffix) {
        let v = chars_of(input);
        let p = chars_of(suffix);
        let r = string_from_range(&v, 0, v.len() - p.len());
        assert(v@.subrange(0, v@.len() - p@.len()) =~= input@.take(input@.len() - suffix@.len()));
        r
    } else {
        copy_str(input)
    }
}

// ---------------------------------------------------------------------------
// Splitting and joining undo each other
// ---------------------------------------------------------------------------

proof fn lemma_join_prepend(parts: Seq<Seq<char>>, x: Seq<char>, sep: Seq<char>)
    requires
        parts.len() >= 1,
    ensures
        join_seq(prepend_first_all(x, parts), sep) == x + join_seq(parts, sep),
    decreases parts.len(),
{
    let u = prepend_first_all(x, parts);
    if parts.len() == 1 {
        assert(u.len() == 1);
    } else {
        let d = parts.drop_last();
        lemma_join_prepend(d, x, sep);
        assert(u.drop_last() =~= prepend_first_all(x, d));
        assert(u.last() == parts.last());
        assert(join_seq(u, sep) =~= x + join_seq(parts, sep));
    }
}

proof fn lemma_join_leading_empty(rest: Seq<Seq<char>>, sep: Seq<char>)
    requires
        rest.len() >= 1,
    ensures
        join_seq(seq![Seq::<char>::empty()] + rest, sep) == sep + join_seq(rest, sep),
    decreases rest.len(),
{
    let w = seq![Seq::<char>::empty()] + rest;
    if rest.len() == 1 {
        assert(w.drop_last() =~= seq![Seq::<char>::empty()]);
        assert(join_seq(w.drop_last(), sep) =~= Seq::<char>::empty());
        assert(join_seq(w, sep) =~= sep + rest[0]);
    } else {
        lemma_join_leading_empty(rest.drop_last(), sep);
        assert(w.drop_last() =~= seq![Seq::<char>::empty()] + rest.drop_last());
        assert(join_seq(w, sep) =~= sep + join_seq(rest, sep));
    }
}

proof fn lemma_join_split_on(s: Seq<char>, sep: Seq<char>)
    requires
        sep.len() > 0,
    ensures
        join_seq(split_on(s, sep), sep) == s,
    decreases s.len(),
{
    if s.len() < sep.len() {
    } else if s.take(sep.len() as int) == sep {
        let t = s.skip(sep.len() as int);
        lemma_join_split_on(t, sep);
        lemma_split_on_nonempty(t, sep);
        lemma_join_leading_empty(split_on(t, sep), sep);
        assert(s =~= sep + t);
    } else {
        let t = s.drop_first();
        lemma_join_split_on(t, sep);
        lemma_split_on_nonempty(t, sep);
        assert(prepend_first(s[0], split_on(t, sep)) == prepend_first_all(seq![s[0]], split_on(t, sep)));
        lemma_join_prepend(split_on(t, sep), seq![s[0]], sep);
        assert(s =~= seq![s[0]] + t);
    }
}

proof fn lemma_join_singletons(s: Seq<char>)
    ensures
        join_seq(seq![Seq::<char>::empty()] + s.map_values(|c: char| seq![c]), Seq::<char>::empty())
            == s,
    decreases s.len(),
{
    let f = |c: char| seq![c];
    let w = seq![Seq::<char>::empty()] + s.map_values(f);
    if s.len() == 0 {
        assert(w =~= seq![Seq::<char>::empty()]);
    } else {
        let d = s.drop_last();
        lemma_join_singletons(d);
        assert(w.drop_last() =~= seq![Seq::<char>::empty()] + d.map_values(f));
        assert(w.last() == seq![s.last()]);
        assert(join_seq(w, Seq::<char>::empty()) =~= s);
    }
}

/// Joining the pieces of a split with the separator gives back the string, for every
/// separator, the empty one included.
pub proof fn law_join_undoes_split(s: Seq<char>, sep: Seq<char>)
    ensures
        join_seq(split_spec(s, sep), sep) == s,
{
    if sep.len() > 0 {
        lemma_join_split_on(s, sep);
    } else {
        let e = Seq::<char>::empty();
        let p = seq![e] + s.map_values(|c: char| seq![c]);
        lemma_join_singletons(s);
        assert(split_empty(s) =~= p.push(e));
        assert(sep =~= e);
        assert(join_seq(p.push(e), e) =~= join_seq(p, e) + e + e);
    }
}

} // verus!
