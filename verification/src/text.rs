//! Character-sequence specifications and verified string helpers shared by the
//! rest of the library.
use vstd::prelude::*;
use vstd::std_specs::iter::IteratorSpec;

verus! {

broadcast use vstd::string::group_string_axioms;

// ---------------------------------------------------------------------------
// Character classes
// ---------------------------------------------------------------------------

/// Unicode `White_Space`, the class used by `str::trim` and `str::split_whitespace`.
pub open spec fn is_ws(c: char) -> bool {
    ||| ('\u{9}' <= c && c <= '\u{d}')
    ||| c == ' '
    ||| c == '\u{85}'
    ||| c == '\u{a0}'
    ||| c == '\u{1680}'
    ||| ('\u{2000}' <= c && c <= '\u{200a}')
    ||| c == '\u{2028}'
    ||| c == '\u{2029}'
    ||| c == '\u{202f}'
    ||| c == '\u{205f}'
    ||| c == '\u{3000}'
}

pub open spec fn is_ascii_digit(c: char) -> bool {
    '0' <= c && c <= '9'
}

pub open spec fn is_ascii_upper(c: char) -> bool {
    'A' <= c && c <= 'Z'
}

pub open spec fn is_ascii_alnum(c: char) -> bool {
    is_ascii_digit(c) || is_ascii_upper(c) || ('a' <= c && c <= 'z')
}

pub open spec fn ascii_lower(c: char) -> char {
    if is_ascii_upper(c) {
        ((c as u32) + 32) as char
    } else {
        c
    }
}

pub open spec fn lower_seq(s: Seq<char>) -> Seq<char> {
    s.map_values(|c: char| ascii_lower(c))
}

pub fn char_is_ws(c: char) -> (b: bool)
    ensures
        b == is_ws(c),
{
    ('\u{9}' <= c && c <= '\u{d}') || c == ' ' || c == '\u{85}' || c == '\u{a0}' || c == '\u{1680}'
        || ('\u{2000}' <= c && c <= '\u{200a}') || c == '\u{2028}' || c == '\u{2029}' || c
        == '\u{202f}' || c == '\u{205f}' || c == '\u{3000}'
}

pub fn char_is_ascii_alnum(c: char) -> (b: bool)
    ensures
        b == is_ascii_alnum(c),
{
    ('0' <= c && c <= '9') || ('A' <= c && c <= 'Z') || ('a' <= c && c <= 'z')
}

pub fn char_to_ascii_lower(c: char) -> (r: char)
    ensures
        r == ascii_lower(c),
{
    if 'A' <= c && c <= 'Z' {
        let code: u32 = c as u32;
        let lowered: u8 = (code + 32) as u8;
        let r = lowered as char;
        assert(lowered == code + 32);
        r
    } else {
        c
    }
}

// ---------------------------------------------------------------------------
// Sequence predicates
// ---------------------------------------------------------------------------

pub open spec fn is_prefix_of(p: Seq<char>, s: Seq<char>) -> bool {
    p.len() <= s.len() && s.take(p.len() as int) == p
}

pub open spec fn is_suffix_of(p: Seq<char>, s: Seq<char>) -> bool {
    p.len() <= s.len() && s.skip(s.len() - p.len()) == p
}

pub open spec fn occurs_at(s: Seq<char>, n: Seq<char>, i: int) -> bool {
    0 <= i && i + n.len() <= s.len() && s.subrange(i, i + n.len()) == n
}

/// `n` is a substring of `s`.
pub open spec fn contains_seq(s: Seq<char>, n: Seq<char>) -> bool {
    exists|i: int| occurs_at(s, n, i)
}

pub open spec fn trim_start_seq(s: Seq<char>) -> Seq<char>
    decreases s.len(),
{
    if s.len() > 0 && is_ws(s[0]) {
        trim_start_seq(s.drop_first())
    } else {
        s
    }
}

pub open spec fn trim_end_seq(s: Seq<char>) -> Seq<char>
    decreases s.len(),
{
    if s.len() > 0 && is_ws(s.last()) {
        trim_end_seq(s.drop_last())
    } else {
        s
    }
}

/// What `str::trim` keeps of `s`.
pub open spec fn trim_seq(s: Seq<char>) -> Seq<char> {
    trim_end_seq(trim_start_seq(s))
}

/// Concatenation of `parts` with `sep` between consecutive parts.
pub open spec fn join_seq(parts: Seq<Seq<char>>, sep: Seq<char>) -> Seq<char>
    decreases parts.len(),
{
    if parts.len() == 0 {
        Seq::empty()
    } else if parts.len() == 1 {
        parts[0]
    } else {
        join_seq(parts.drop_last(), sep) + sep + parts.last()
    }
}

/// Character classes used to cut strings into pieces.
#[derive(Clone, Copy)]
pub enum CharClass {
    /// A single separator character.
    Exactly(char),
    /// Unicode white space.
    Whitespace,
    /// Anything but an ASCII letter or digit.
    NotAsciiAlnum,
}

pub open spec fn in_class(k: CharClass, c: char) -> bool {
    match k {
        CharClass::Exactly(x) => c == x,
        CharClass::Whitespace => is_ws(c),
        CharClass::NotAsciiAlnum => !is_ascii_alnum(c),
    }
}

pub fn char_in_class(k: CharClass, c: char) -> (b: bool)
    ensures
        b == in_class(k, c),
{
    match k {
        CharClass::Exactly(x) => c == x,
        CharClass::Whitespace => char_is_ws(c),
        CharClass::NotAsciiAlnum => !char_is_ascii_alnum(c),
    }
}

/// The pieces of `s` between separator characters of class `k`, as `str::split`
/// yields them (always at least one piece).
pub open spec fn split_seq(s: Seq<char>, k: CharClass) -> Seq<Seq<char>>
    decreases s.len(),
{
    if s.len() == 0 {
        seq![Seq::<char>::empty()]
    } else {
        let prev = split_seq(s.drop_last(), k);
        if in_class(k, s.last()) {
            prev.push(Seq::<char>::empty())
        } else {
            prev.update(prev.len() - 1, prev.last().push(s.last()))
        }
    }
}

pub proof fn lemma_split_nonempty(s: Seq<char>, k: CharClass)
    ensures
        split_seq(s, k).len() >= 1,
    decreases s.len(),
{
    if s.len() > 0 {
        lemma_split_nonempty(s.drop_last(), k);
    }
}

/// Keeps the non-empty pieces.
pub open spec fn non_empty_pieces(parts: Seq<Seq<char>>) -> Seq<Seq<char>>
    decreases parts.len(),
{
    if parts.len() == 0 {
        Seq::empty()
    } else if parts.last().len() == 0 {
        non_empty_pieces(parts.drop_last())
    } else {
        non_empty_pieces(parts.drop_last()).push(parts.last())
    }
}

/// `str::split_whitespace`.
pub open spec fn words_seq(s: Seq<char>) -> Seq<Seq<char>> {
    non_empty_pieces(split_seq(s, CharClass::Whitespace))
}

/// Drops a trailing `'\r'`.
pub open spec fn strip_cr(line: Seq<char>) -> Seq<char> {
    if line.len() > 0 && line.last() == '\r' {
        line.drop_last()
    } else {
        line
    }
}

/// `str::lines`: pieces between `'\n'`, without a final empty piece, each without a
/// trailing `'\r'`.
pub open spec fn lines_seq(s: Seq<char>) -> Seq<Seq<char>> {
    let parts = split_seq(s, CharClass::Exactly('\n'));
    let kept = if parts.last().len() == 0 {
        parts.drop_last()
    } else {
        parts
    };
    kept.map_values(|l: Seq<char>| strip_cr(l))
}

// ---------------------------------------------------------------------------
// Lemmas
// ---------------------------------------------------------------------------

pub proof fn lemma_trim_start_at(s: Seq<char>, i: int)
    requires
        0 <= i <= s.len(),
        forall|j: int| 0 <= j < i ==> is_ws(#[trigger] s[j]),
        i == s.len() || !is_ws(s[i]),
    ensures
        trim_start_seq(s) == s.skip(i),
    decreases i,
{
    if i == 0 {
        assert(s.skip(0) =~= s);
    } else {
        let t = s.drop_first();
        assert forall|j: int| 0 <= j < i - 1 implies is_ws(#[trigger] t[j]) by {
            assert(t[j] == s[j + 1]);
        }
        if i - 1 < t.len() {
            assert(t[i - 1] == s[i]);
        }
        lemma_trim_start_at(t, i - 1);
        assert(t.skip(i - 1) =~= s.skip(i));
    }
}

pub proof fn lemma_trim_end_at(s: Seq<char>, e: int)
    requires
        0 <= e <= s.len(),
        forall|j: int| e <= j < s.len() ==> is_ws(#[trigger] s[j]),
        e == 0 || !is_ws(s[e - 1]),
    ensures
        trim_end_seq(s) == s.take(e),
    decreases s.len() - e,
{
    if e == s.len() {
        assert(s.take(e) =~= s);
    } else {
        let t = s.drop_last();
        assert forall|j: int| e <= j < t.len() implies is_ws(#[trigger] t[j]) by {
            assert(t[j] == s[j]);
        }
        if e > 0 {
            assert(t[e - 1] == s[e - 1]);
        }
        lemma_trim_end_at(t, e);
        assert(t.take(e) =~= s.take(e));
    }
}

// ---------------------------------------------------------------------------
// Conversions between `str`/`String` and character vectors
// ---------------------------------------------------------------------------

/// Appends one character (`String::push`).
#[verifier::external_body]
pub fn push_char(s: &mut String, c: char)
    ensures
        final(s)@ == old(s)@.push(c),
{
    s.push(c);
}

/// The characters of `s`.
pub fn chars_of(s: &str) -> (v: Vec<char>)
    ensures
        v@ == s@,
{
    let mut it = s.chars();
    let mut v: Vec<char> = Vec::new();
    loop
        invariant
            it.remaining() == s@.skip(v@.len() as int),
            v@ == s@.take(v@.len() as int),
            v@.len() <= s@.len(),
        ensures
            v@ == s@,
        decreases s@.len() - v@.len(),
    {
        let next = it.next();
        match next {
            Some(c) => {
                assert(s@.skip(v@.len() as int).drop_first() =~= s@.skip((v@.len() + 1) as int));
                assert(s@.take((v@.len() + 1) as int) =~= s@.take(v@.len() as int).push(c));
                v.push(c);
            },
            None => {
                assert(s@.take(v@.len() as int) =~= s@);
                break ;
            },
        }
    }
    v
}

/// A `String` holding the characters of `v` in `start..end`.
pub fn string_from_range(v: &Vec<char>, start: usize, end: usize) -> (s: String)
    requires
        start <= end <= v@.len(),
    ensures
        s@ == v@.subrange(start as int, end as int),
{
    let mut s = String::new();
    let mut i: usize = start;
    while i < end
        invariant
            start <= i <= end <= v@.len(),
            s@ == v@.subrange(start as int, i as int),
        decreases end - i,
    {
        assert(v@.subrange(start as int, i + 1) =~= v@.subrange(start as int, i as int).push(
            v@[i as int],
        ));
        push_char(&mut s, v[i]);
        i += 1;
    }
    s
}

/// Copies a string.
pub fn copy_str(s: &str) -> (r: String)
    ensures
        r@ == s@,
{
    s.to_string()
}

/// Copies a vector of strings.
pub fn clone_strings(v: &Vec<String>) -> (r: Vec<String>)
    ensures
        r.deep_view() == v.deep_view(),
{
    let mut r: Vec<String> = Vec::new();
    let mut i: usize = 0;
    while i < v.len()
        invariant
            i <= v@.len(),
            r.deep_view() == v.deep_view().take(i as int),
        decreases v@.len() - i,
    {
        let s = v[i].clone();
        let ghost before = r.deep_view();
        r.push(s);
        assert(r.deep_view() =~= before.push(v@[i as int]@));
        assert(v.deep_view().take(i + 1) =~= v.deep_view().take(i as int).push(v@[i as int]@));
        i += 1;
    }
    assert(v.deep_view().take(v@.len() as int) =~= v.deep_view());
    r
}

/// Copies an optional string.
pub fn clone_opt(o: &Option<String>) -> (r: Option<String>)
    ensures
        r.deep_view() == o.deep_view(),
{
    match o {
        Some(s) => Some(s.clone()),
        None => None,
    }
}

// ---------------------------------------------------------------------------
// Comparisons and searches
// ---------------------------------------------------------------------------

/// Whether `n` occurs in `s` at index `i`.
pub fn occurs_at_exec(s: &Vec<char>, n: &Vec<char>, i: usize) -> (b: bool)
    ensures
        b == occurs_at(s@, n@, i as int),
{
    if i > s.len() || n.len() > s.len() - i {
        return false;
    }
    let slen = s.len();
    let mut k: usize = 0;
    while k < n.len()
        invariant
            slen == s@.len(),
            i + n@.len() <= s@.len(),
            k <= n@.len(),
            s@.subrange(i as int, i + k) == n@.take(k as int),
        decreases n@.len() - k,
    {
        assert(i + k < s@.len());
        if s[i + k] != n[k] {
            assert(s@.subrange(i as int, i + n@.len())[k as int] != n@[k as int]);
            return false;
        }
        assert(s@.subrange(i as int, i + k + 1) =~= s@.subrange(i as int, i + k).push(
            s@[i + k],
        ));
        assert(n@.take(k + 1) =~= n@.take(k as int).push(n@[k as int]));
        k += 1;
    }
    assert(n@.take(n@.len() as int) =~= n@);
    true
}

/// Sequence equality of character vectors.
pub fn chars_eq(a: &Vec<char>, b: &Vec<char>) -> (r: bool)
    ensures
        r == (a@ == b@),
{
    if a.len() != b.len() {
        return false;
    }
    let r = occurs_at_exec(a, b, 0);
    assert(a@.subrange(0, b@.len() as int) =~= a@);
    r
}

/// String equality.
pub fn str_eq(a: &str, b: &str) -> (r: bool)
    ensures
        r == (a@ == b@),
{
    let av = chars_of(a);
    let bv = chars_of(b);
    chars_eq(&av, &bv)
}

/// `str::starts_with` for a string pattern.
pub fn starts_with(s: &str, p: &str) -> (r: bool)
    ensures
        r == is_prefix_of(p@, s@),
{
    let sv = chars_of(s);
    let pv = chars_of(p);
    let r = occurs_at_exec(&sv, &pv, 0);
    assert(r == is_prefix_of(p@, s@)) by {
        if pv@.len() <= sv@.len() {
            assert(sv@.subrange(0, pv@.len() as int) =~= sv@.take(pv@.len() as int));
        }
    }
    r
}

/// `str::ends_with` for a string pattern.
pub fn ends_with(s: &str, p: &str) -> (r: bool)
    ensures
        r == is_suffix_of(p@, s@),
{
    let sv = chars_of(s);
    let pv = chars_of(p);
    if pv.len() > sv.len() {
        return false;
    }
    let start = sv.len() - pv.len();
    let r = occurs_at_exec(&sv, &pv, start);
    assert(sv@.subrange(start as int, sv@.len() as int) =~= sv@.skip(start as int));
    r
}

/// Substring search over character vectors.
pub fn chars_contain(s: &Vec<char>, n: &Vec<char>) -> (r: bool)
    ensures
        r == contains_seq(s@, n@),
{
    if n.len() > s.len() {
        assert forall|i: int| !occurs_at(s@, n@, i) by {}
        return false;
    }
    let last = s.len() - n.len();
    let mut i: usize = 0;
    loop
        invariant
            last == s@.len() - n@.len(),
            i <= last,
            forall|j: int| 0 <= j < i ==> !occurs_at(s@, n@, j),
        ensures
            forall|j: int| 0 <= j <= last ==> !occurs_at(s@, n@, j),
        decreases last - i,
    {
        if occurs_at_exec(s, n, i) {
            return true;
        }
        if i == last {
            break ;
        }
        i += 1;
    }
    assert forall|j: int| !occurs_at(s@, n@, j) by {
        if 0 <= j <= last {
        }
    }
    false
}

/// `str::contains` for a string pattern.
pub fn contains(s: &str, n: &str) -> (r: bool)
    ensures
        r == contains_seq(s@, n@),
{
    let sv = chars_of(s);
    let nv = chars_of(n);
    chars_contain(&sv, &nv)
}

/// Whether a character occurs in a character vector.
pub fn has_char(s: &Vec<char>, c: char) -> (r: bool)
    ensures
        r == s@.contains(c),
{
    let mut i: usize = 0;
    while i < s.len()
        invariant
            i <= s@.len(),
            forall|j: int| 0 <= j < i ==> s@[j] != c,
        decreases s@.len() - i,
    {
        if s[i] == c {
            return true;
        }
        i += 1;
    }
    false
}

// ---------------------------------------------------------------------------
// Transformations
// ---------------------------------------------------------------------------

/// `str::to_ascii_lowercase`.
pub fn to_ascii_lowercase(s: &str) -> (r: String)
    ensures
        r@ == lower_seq(s@),
{
    let v = chars_of(s);
    let mut out = String::new();
    let mut i: usize = 0;
    while i < v.len()
        invariant
            i <= v@.len(),
            v@ == s@,
            out@ == lower_seq(v@.take(i as int)),
        decreases v@.len() - i,
    {
        let c = char_to_ascii_lower(v[i]);
        assert(lower_seq(v@.take(i + 1)) =~= lower_seq(v@.take(i as int)).push(c));
        push_char(&mut out, c);
        i += 1;
    }
    assert(v@.take(v@.len() as int) =~= v@);
    out
}

/// The bounds `(start, end)` of what `str::trim` keeps of `v`.
pub fn trim_bounds(v: &Vec<char>) -> (r: (usize, usize))
    ensures
        r.0 <= r.1 <= v@.len(),
        trim_seq(v@) == v@.subrange(r.0 as int, r.1 as int),
        trim_start_seq(v@) == v@.skip(r.0 as int),
{
    let mut start: usize = 0;
    while start < v.len() && char_is_ws(v[start])
        invariant
            start <= v@.len(),
            forall|j: int| 0 <= j < start ==> is_ws(#[trigger] v@[j]),
        decreases v@.len() - start,
    {
        start += 1;
    }
    proof {
        lemma_trim_start_at(v@, start as int);
    }
    let mut end: usize = v.len();
    while end > start && char_is_ws(v[end - 1])
        invariant
            start <= end <= v@.len(),
            forall|j: int| end <= j < v@.len() ==> is_ws(#[trigger] v@[j]),
        decreases end,
    {
        end -= 1;
    }
    proof {
        let t = v@.skip(start as int);
        let e = end - start;
        assert forall|j: int| e <= j < t.len() implies is_ws(#[trigger] t[j]) by {
            assert(t[j] == v@[j + start]);
        }
        if e > 0 {
            assert(t[e - 1] == v@[end - 1]);
        }
        lemma_trim_end_at(t, e);
        assert(t.take(e) =~= v@.subrange(start as int, end as int));
    }
    (start, end)
}

/// `str::trim`.
pub fn trim(s: &str) -> (r: String)
    ensures
        r@ == trim_seq(s@),
{
    let v = chars_of(s);
    let (a, b) = trim_bounds(&v);
    string_from_range(&v, a, b)
}

/// `str::trim_start`.
pub fn trim_start(s: &str) -> (r: String)
    ensures
        r@ == trim_start_seq(s@),
{
    let v = chars_of(s);
    let (a, _b) = trim_bounds(&v);
    let r = string_from_range(&v, a, v.len());
    assert(v@.subrange(a as int, v@.len() as int) =~= v@.skip(a as int));
    r
}

/// Joins the strings of `parts` with `sep` (`[String]::join`).
pub fn join(parts: &Vec<String>, sep: &str) -> (r: String)
    ensures
        r@ == join_seq(parts.deep_view(), sep@),
{
    let mut out = String::new();
    let mut i: usize = 0;
    while i < parts.len()
        invariant
            i <= parts@.len(),
            out@ == join_seq(parts.deep_view().take(i as int), sep@),
        decreases parts@.len() - i,
    {
        let ghost before = parts.deep_view().take(i as int);
        assert(parts.deep_view().take(i + 1).drop_last() =~= before);
        if i > 0 {
            out.append(sep);
        }
        out.append(parts[i].as_str());
        i += 1;
    }
    assert(parts.deep_view().take(parts@.len() as int) =~= parts.deep_view());
    out
}

/// Splits a character vector at characters of class `k` (`str::split`).
pub fn split_chars(v: &Vec<char>, k: CharClass) -> (parts: Vec<String>)
    ensures
        parts.deep_view() == split_seq(v@, k),
{
    let mut parts: Vec<String> = Vec::new();
    let mut cur = String::new();
    let mut i: usize = 0;
    assert(v@.take(0) =~= Seq::<char>::empty());
    assert(parts.deep_view().push(cur@) =~= split_seq(v@.take(0), k));
    while i < v.len()
        invariant
            i <= v@.len(),
            parts.deep_view().push(cur@) == split_seq(v@.take(i as int), k),
        decreases v@.len() - i,
    {
        let c = v[i];
        let ghost pre = v@.take(i as int);
        assert(v@.take(i + 1).drop_last() =~= pre);
        assert(v@.take(i + 1).last() == c);
        proof {
            lemma_split_nonempty(pre, k);
        }
        if char_in_class(k, c) {
            let done = cur;
            parts.push(done);
            cur = String::new();
            assert(parts.deep_view().push(cur@) =~= split_seq(pre, k).push(Seq::<char>::empty()));
        } else {
            let ghost old_cur = cur@;
            push_char(&mut cur, c);
            assert(parts.deep_view().push(cur@) =~= split_seq(pre, k).update(
                split_seq(pre, k).len() - 1,
                split_seq(pre, k).last().push(c),
            ));
        }
        i += 1;
    }
    assert(v@.take(v@.len() as int) =~= v@);
    parts.push(cur);
    parts
}

/// Keeps the non-empty strings of `parts`.
pub fn keep_non_empty(parts: Vec<String>) -> (r: Vec<String>)
    ensures
        r.deep_view() == non_empty_pieces(parts.deep_view()),
{
    let mut r: Vec<String> = Vec::new();
    let mut i: usize = 0;
    while i < parts.len()
        invariant
            i <= parts@.len(),
            r.deep_view() == non_empty_pieces(parts.deep_view().take(i as int)),
        decreases parts@.len() - i,
    {
        assert(parts.deep_view().take(i + 1).drop_last() =~= parts.deep_view().take(i as int));
        assert(parts.deep_view().take(i + 1).last() == parts@[i as int]@);
        let empty = parts[i].as_str().is_empty();
        proof {
            if empty {
                assert(parts@[i as int]@.len() == 0);
            }
        }
        if !parts[i].as_str().is_empty() {
            let p = parts[i].clone();
            r.push(p);
            assert(r.deep_view() =~= non_empty_pieces(parts.deep_view().take(i as int)).push(
                parts@[i as int]@,
            ));
        }
        i += 1;
    }
    assert(parts.deep_view().take(parts@.len() as int) =~= parts.deep_view());
    r
}

/// `str::split_whitespace`.
pub fn split_whitespace(s: &str) -> (r: Vec<String>)
    ensures
        r.deep_view() == words_seq(s@),
{
    let v = chars_of(s);
    let parts = split_chars(&v, CharClass::Whitespace);
    keep_non_empty(parts)
}

/// `str::lines`.
pub fn lines(s: &str) -> (r: Vec<String>)
    ensures
        r.deep_view() == lines_seq(s@),
{
    let v = chars_of(s);
    let parts = split_chars(&v, CharClass::Exactly('\n'));
    proof {
        lemma_split_nonempty(v@, CharClass::Exactly('\n'));
    }
    let n = parts.len();
    let drop_last = parts[n - 1].as_str().is_empty();
    let keep = if drop_last {
        n - 1
    } else {
        n
    };
    let ghost kept = if parts.deep_view().last().len() == 0 {
        parts.deep_view().drop_last()
    } else {
        parts.deep_view()
    };
    assert(drop_last == (parts.deep_view().last().len() == 0));
    assert(kept.len() == keep);
    let mut r: Vec<String> = Vec::new();
    let mut i: usize = 0;
    while i < keep
        invariant
            i <= keep <= parts@.len(),
            kept.len() == keep,
            forall|j: int| 0 <= j < keep ==> kept[j] == parts.deep_view()[j],
            r.deep_view() == kept.take(i as int).map_values(|l: Seq<char>| strip_cr(l)),
        decreases keep - i,
    {
        let line = chars_of(parts[i].as_str());
        let len = line.len();
        let stripped = if len > 0 && line[len - 1] == '\r' {
            string_from_range(&line, 0, len - 1)
        } else {
            string_from_range(&line, 0, len)
        };
        proof {
            assert(line@ == kept[i as int]);
            assert(line@.subrange(0, len as int) =~= line@);
            if len > 0 {
                assert(line@.subrange(0, len - 1) =~= line@.drop_last());
            }
        }
        assert(stripped@ == strip_cr(kept[i as int]));
        let ghost before = r.deep_view();
        r.push(stripped);
        assert(r.deep_view() =~= before.push(strip_cr(kept[i as int])));
        assert(kept.take(i + 1) =~= kept.take(i as int).push(kept[i as int]));
        assert(r.deep_view() =~= kept.take(i + 1).map_values(|l: Seq<char>| strip_cr(l)));
        i += 1;
    }
    assert(kept.take(keep as int) =~= kept);
    r
}

/// `str::replace` with a non-empty string pattern: the non-overlapping occurrences of
/// `pat`, found from the left, replaced by `to`.
pub open spec fn replace_all(s: Seq<char>, pat: Seq<char>, to: Seq<char>) -> Seq<char>
    decreases s.len(),
{
    if pat.len() == 0 || s.len() < pat.len() {
        s
    } else if s.take(pat.len() as int) == pat {
        to + replace_all(s.skip(pat.len() as int), pat, to)
    } else {
        seq![s[0]] + replace_all(s.drop_first(), pat, to)
    }
}

/// `str::replace` with a non-empty string pattern.
pub fn replace_str(s: &str, pat: &str, to: &str) -> (out: String)
    requires
        pat@.len() > 0,
    ensures
        out@ == replace_all(s@, pat@, to@),
{
    let v = chars_of(s);
    let p = chars_of(pat);
    let mut out = String::new();
    let mut i: usize = 0;
    assert(v@.skip(0) =~= v@);
    assert(out@ + replace_all(v@, p@, to@) =~= replace_all(v@, p@, to@));
    while i < v.len()
        invariant
            i <= v@.len(),
            v@ == s@,
            p@ == pat@,
            p@.len() > 0,
            out@ + replace_all(v@.skip(i as int), p@, to@) == replace_all(v@, p@, to@),
        decreases v@.len() - i,
    {
        let ghost rest = v@.skip(i as int);
        if occurs_at_exec(&v, &p, i) {
            assert(rest.take(p@.len() as int) =~= v@.subrange(i as int, i + p@.len()));
            assert(rest.skip(p@.len() as int) =~= v@.skip(i + p@.len()));
            let ghost old_out = out@;
            out.append(to);
            assert(out@ + replace_all(v@.skip(i + p@.len()), p@, to@) =~= old_out + replace_all(
                rest,
                p@,
                to@,
            ));
            i += p.len();
        } else {
            proof {
                if rest.len() >= p@.len() {
                    assert(rest.take(p@.len() as int) =~= v@.subrange(i as int, i + p@.len()));
                }
                assert(rest.drop_first() =~= v@.skip(i + 1));
                if rest.len() < p@.len() {
                    assert(replace_all(rest, p@, to@) == rest);
                    if rest.drop_first().len() < p@.len() {
                        assert(replace_all(rest.drop_first(), p@, to@) == rest.drop_first());
                    }
                    assert(rest =~= seq![rest[0]] + rest.drop_first());
                }
            }
            let ghost old_out = out@;
            push_char(&mut out, v[i]);
            assert(out@ + replace_all(v@.skip(i + 1), p@, to@) =~= old_out + replace_all(
                rest,
                p@,
                to@,
            ));
            i += 1;
        }
    }
    assert(replace_all(v@.skip(i as int), p@, to@) =~= Seq::<char>::empty()) by {
        assert(v@.skip(i as int).len() == 0);
    }
    assert(out@ =~= out@ + Seq::<char>::empty());
    out
}

} // verus!
