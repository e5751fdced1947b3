//! Version strings: their components, the order between them, and the rules
//! that pick a version out of a list of candidates.
use vstd::prelude::*;

use crate::core_model::{InstalledVersion, InstalledVersionView};
use crate::order::{
    chars_le, first_index, lemma_adjacent_to_sorted_within, lemma_first_index, lemma_first_index_at,
    lemma_seq_le_antisym,
    lemma_seq_le_refl, lemma_seq_le_total, lemma_seq_le_trans, lemma_sort_adjacent,
    lemma_sort_permutation, lemma_sort_sorted, adjacent_sorted, is_total, seq_le, sort_seq,
    sort_stable, sorted_by,
};
use crate::text::{
    chars_eq, chars_of, copy_str, is_ascii_digit, is_prefix_of, keep_non_empty, non_empty_pieces,
    push_char, split_chars, split_seq, starts_with, str_eq, string_from_range, trim, trim_seq,
    CharClass,
};

verus! {

broadcast use vstd::seq_lib::group_seq_properties;

/// The outcome of comparing two versions.
#[derive(Debug, Clone, Copy, PartialEq, Eq, Structural)]
pub enum VersionOrder {
    Less,
    Equal,
    Greater,
}

/// The same comparison seen from the other side.
pub open spec fn flip(o: VersionOrder) -> VersionOrder {
    match o {
        VersionOrder::Less => VersionOrder::Greater,
        VersionOrder::Equal => VersionOrder::Equal,
        VersionOrder::Greater => VersionOrder::Less,
    }
}

/// `s` without its leading `'v'` characters (`trim_start_matches('v')`).
pub open spec fn strip_leading_v(s: Seq<char>) -> Seq<char>
    decreases s.len(),
{
    if s.len() > 0 && s[0] == 'v' {
        strip_leading_v(s.drop_first())
    } else {
        s
    }
}

/// The components of a version: the non-empty runs of ASCII letters and digits
/// after the leading `v`s.
pub open spec fn version_components_spec(v: Seq<char>) -> Seq<Seq<char>> {
    non_empty_pieces(split_seq(strip_leading_v(v), CharClass::NotAsciiAlnum))
}

pub open spec fn digit_value(c: char) -> nat {
    (c as int - '0' as int) as nat
}

/// The number that a string of decimal digits writes.
pub open spec fn digits_value(s: Seq<char>) -> nat
    decreases s.len(),
{
    if s.len() == 0 {
        0
    } else {
        digits_value(s.drop_last()) * 10 + digit_value(s.last())
    }
}

pub open spec fn all_digits(s: Seq<char>) -> bool {
    forall|i: int| 0 <= i < s.len() ==> is_ascii_digit(#[trigger] s[i])
}

/// What `str::parse::<u64>` gives: an optional `+`, then one or more decimal
/// digits whose value fits in a `u64`.
pub open spec fn parse_u64_spec(s: Seq<char>) -> Option<u64> {
    let d = if s.len() > 0 && s[0] == '+' {
        s.drop_first()
    } else {
        s
    };
    if d.len() > 0 && all_digits(d) && digits_value(d) <= u64::MAX {
        Some(digits_value(d) as u64)
    } else {
        None
    }
}

/// Compares two integers.
pub open spec fn int_order(x: int, y: int) -> VersionOrder {
    if x < y {
        VersionOrder::Less
    } else if x == y {
        VersionOrder::Equal
    } else {
        VersionOrder::Greater
    }
}

/// Compares two strings by code point (`str::cmp`).
pub open spec fn text_order(a: Seq<char>, b: Seq<char>) -> VersionOrder {
    if a == b {
        VersionOrder::Equal
    } else if seq_le(a, b) {
        VersionOrder::Less
    } else {
        VersionOrder::Greater
    }
}

/// Two components compare as numbers when both parse as `u64`, else as strings.
pub open spec fn component_order(a: Seq<char>, b: Seq<char>) -> VersionOrder {
    match (parse_u64_spec(a), parse_u64_spec(b)) {
        (Some(x), Some(y)) => int_order(x as int, y as int),
        _ => text_order(a, b),
    }
}

/// The first component pair that differs decides; when one list runs out, the
/// longer list is the greater.
pub open spec fn components_order(a: Seq<Seq<char>>, b: Seq<Seq<char>>) -> VersionOrder
    decreases a.len(),
{
    if a.len() == 0 || b.len() == 0 {
        int_order(a.len() as int, b.len() as int)
    } else if component_order(a[0], b[0]) != VersionOrder::Equal {
        component_order(a[0], b[0])
    } else {
        components_order(a.drop_first(), b.drop_first())
    }
}

/// The order between two version strings.
pub open spec fn version_order(a: Seq<char>, b: Seq<char>) -> VersionOrder {
    components_order(version_components_spec(a), version_components_spec(b))
}

/// Splits a version into its components.
pub fn version_components(version: &str) -> (parts: Vec<String>)
    ensures
        parts.deep_view() == version_components_spec(version@),
{
    let v = chars_of(version);
    let mut start: usize = 0;
    while start < v.len() && v[start] == 'v'
        invariant
            start <= v@.len(),
            strip_leading_v(v@) == strip_leading_v(v@.skip(start as int)),
        decreases v@.len() - start,
    {
        assert(v@.skip(start as int).drop_first() =~= v@.skip(start + 1));
        start += 1;
    }
    let rest_text = string_from_range(&v, start, v.len());
    let rest = chars_of(rest_text.as_str());
    assert(rest@ =~= v@.skip(start as int));
    assert(strip_leading_v(rest@) == rest@);
    let pieces = split_chars(&rest, CharClass::NotAsciiAlnum);
    keep_non_empty(pieces)
}

/// `str::parse::<u64>`.
#[verifier::spinoff_prover]
#[verifier::rlimit(50)]
pub fn parse_u64(s: &Vec<char>) -> (r: Option<u64>)
    ensures
        r == parse_u64_spec(s@),
{
    let start: usize = if s.len() > 0 && s[0] == '+' {
        1
    } else {
        0
    };
    let ghost d = if s@.len() > 0 && s@[0] == '+' {
        s@.drop_first()
    } else {
        s@
    };
    assert(d =~= s@.skip(start as int));
    if start == s.len() {
        return None;
    }
    let mut acc: u64 = 0;
    let mut overflow = false;
    let mut i: usize = start;
    while i < s.len()
        invariant
            start <= i <= s@.len(),
            d == s@.skip(start as int),
            d == (if s@.len() > 0 && s@[0] == '+' {
                s@.drop_first()
            } else {
                s@
            }),
            all_digits(s@.subrange(start as int, i as int)),
            !overflow ==> acc == digits_value(s@.subrange(start as int, i as int)),
            overflow ==> digits_value(s@.subrange(start as int, i as int)) > u64::MAX,
        decreases s@.len() - i,
    {
        let c = s[i];
        if !('0' <= c && c <= '9') {
            proof {
                assert(d[i - start] == c);
                assert(!is_ascii_digit(d[i - start]));
                assert(!all_digits(d));
            }
            return None;
        }
        let ghost pre = s@.subrange(start as int, i as int);
        let ghost next = s@.subrange(start as int, i + 1);
        assert(next.drop_last() =~= pre);
        assert(next.last() == c);
        let dv: u64 = ((c as u32) - ('0' as u32)) as u64;
        assert(dv == digit_value(c));
        if !overflow {
            if acc > 1844674407370955161 || (acc == 1844674407370955161 && dv > 5) {
                overflow = true;
            } else {
                acc = acc * 10 + dv;
            }
        }
        assert forall|j: int| 0 <= j < next.len() implies is_ascii_digit(#[trigger] next[j]) by {
            if j < pre.len() {
                assert(next[j] == pre[j]);
            }
        }
        i += 1;
    }
    assert(s@.subrange(start as int, s@.len() as int) =~= d);
    if overflow {
        None
    } else {
        Some(acc)
    }
}

fn int_order_exec(x: u64, y: u64) -> (o: VersionOrder)
    ensures
        o == int_order(x as int, y as int),
{
    if x < y {
        VersionOrder::Less
    } else if x == y {
        VersionOrder::Equal
    } else {
        VersionOrder::Greater
    }
}

fn component_order_exec(a: &str, b: &str) -> (o: VersionOrder)
    ensures
        o == component_order(a@, b@),
{
    let av = chars_of(a);
    let bv = chars_of(b);
    match (parse_u64(&av), parse_u64(&bv)) {
        (Some(x), Some(y)) => int_order_exec(x, y),
        _ => {
            if chars_eq(&av, &bv) {
                VersionOrder::Equal
            } else if chars_le(&av, &bv) {
                VersionOrder::Less
            } else {
                VersionOrder::Greater
            }
        },
    }
}

/// Compares two versions component by component: numerically where both
/// components are numbers, else as strings; a version with more components is the
/// greater when all shared components are equal.
pub fn compare_version_components(left: &str, right: &str) -> (o: VersionOrder)
    ensures
        o == version_order(left@, right@),
{
    let lp = version_components(left);
    let rp = version_components(right);
    let ghost a = lp.deep_view();
    let ghost b = rp.deep_view();
    let mut i: usize = 0;
    while i < lp.len() && i < rp.len()
        invariant
            i <= a.len(),
            i <= b.len(),
            a == lp.deep_view(),
            b == rp.deep_view(),
            a == version_components_spec(left@),
            b == version_components_spec(right@),
            components_order(a, b) == components_order(a.skip(i as int), b.skip(i as int)),
        decreases a.len() - i,
    {
        let o = component_order_exec(lp[i].as_str(), rp[i].as_str());
        assert(a[i as int] == lp@[i as int]@);
        assert(b[i as int] == rp@[i as int]@);
        assert(a.skip(i as int)[0] == a[i as int]);
        assert(b.skip(i as int)[0] == b[i as int]);
        if o != VersionOrder::Equal {
            return o;
        }
        assert(a.skip(i as int).drop_first() =~= a.skip(i + 1));
        assert(b.skip(i as int).drop_first() =~= b.skip(i + 1));
        i += 1;
    }
    let la = lp.len() - i;
    let lb = rp.len() - i;
    int_order_exec(la as u64, lb as u64)
}

/// Compares two versions, newest first.
pub fn compare_versions_desc(left: &str, right: &str) -> (o: VersionOrder)
    ensures
        o == flip(version_order(left@, right@)),
{
    match compare_version_components(left, right) {
        VersionOrder::Less => VersionOrder::Greater,
        VersionOrder::Equal => VersionOrder::Equal,
        VersionOrder::Greater => VersionOrder::Less,
    }
}

// ---------------------------------------------------------------------------
// Picking a version out of candidates
// ---------------------------------------------------------------------------

/// `x` is `selector` itself or one of its refinements (`selector.` followed by more).
pub open spec fn refines(x: Seq<char>, selector: Seq<char>) -> bool {
    x == selector || is_prefix_of(selector.push('.'), x)
}

/// Equal to `x`.
pub open spec fn equals_pred(x: Seq<char>) -> spec_fn(Seq<char>) -> bool {
    |y: Seq<char>| y == x
}

/// Starts with `p`.
pub open spec fn prefix_pred(p: Seq<char>) -> spec_fn(Seq<char>) -> bool {
    |y: Seq<char>| is_prefix_of(p, y)
}

/// `select_matching_version`: with no candidates, nothing; with an empty (trimmed)
/// selector, the first candidate; else the first candidate equal to the selector,
/// else the first that starts with `selector.`.
pub open spec fn select_matching_spec(selector: Seq<char>, c: Seq<Seq<char>>) -> Option<Seq<char>> {
    let sel = trim_seq(selector);
    if c.len() == 0 {
        None
    } else if sel.len() == 0 {
        Some(c[0])
    } else {
        match first_index(c, equals_pred(sel)) {
            Some(i) => Some(c[i]),
            None => match first_index(c, prefix_pred(sel.push('.'))) {
                Some(j) => Some(c[j]),
                None => None,
            },
        }
    }
}

/// The index of the first string equal to `x`.
fn find_equal(c: &Vec<String>, x: &str) -> (r: Option<usize>)
    ensures
        match r {
            Some(i) => i < c@.len() && first_index(c.deep_view(), equals_pred(x@)) == Some(i as int),
            None => first_index(c.deep_view(), equals_pred(x@)) is None,
        },
{
    let ghost p = equals_pred(x@);
    proof {
        lemma_first_index(c.deep_view(), p);
    }
    let mut i: usize = 0;
    while i < c.len()
        invariant
            i <= c@.len(),
            p == equals_pred(x@),
            forall|j: int| 0 <= j < i ==> !p(#[trigger] c.deep_view()[j]),
        decreases c@.len() - i,
    {
        assert(c.deep_view()[i as int] == c@[i as int]@);
        if str_eq(c[i].as_str(), x) {
            proof {
                lemma_first_index_at(c.deep_view(), p, i as int);
            }
            return Some(i);
        }
        i += 1;
    }
    None
}

/// The index of the first string that starts with `prefix`.
fn find_with_prefix(c: &Vec<String>, prefix: &str) -> (r: Option<usize>)
    ensures
        match r {
            Some(i) => i < c@.len() && first_index(c.deep_view(), prefix_pred(prefix@)) == Some(
                i as int,
            ),
            None => first_index(c.deep_view(), prefix_pred(prefix@)) is None,
        },
{
    let ghost p = prefix_pred(prefix@);
    proof {
        lemma_first_index(c.deep_view(), p);
    }
    let mut i: usize = 0;
    while i < c.len()
        invariant
            i <= c@.len(),
            p == prefix_pred(prefix@),
            forall|j: int| 0 <= j < i ==> !p(#[trigger] c.deep_view()[j]),
        decreases c@.len() - i,
    {
        assert(c.deep_view()[i as int] == c@[i as int]@);
        if starts_with(c[i].as_str(), prefix) {
            proof {
                lemma_first_index_at(c.deep_view(), p, i as int);
            }
            return Some(i);
        }
        i += 1;
    }
    None
}

/// Picks the candidate a version selector stands for: an exact match first, then the
/// first candidate in the selector's line (`20` picks `20.11.1`).
pub fn select_matching_version(selector: &str, candidates: &Vec<String>) -> (r: Option<String>)
    ensures
        r.deep_view() == select_matching_spec(selector@, candidates.deep_view()),
{
    if candidates.len() == 0 {
        return None;
    }
    let sel = trim(selector);
    if sel.as_str().is_empty() {
        return Some(candidates[0].clone());
    }
    match find_equal(candidates, sel.as_str()) {
        Some(i) => Some(candidates[i].clone()),
        None => {
            let mut prefix = sel.clone();
            push_char(&mut prefix, '.');
            match find_with_prefix(candidates, prefix.as_str()) {
                Some(j) => Some(candidates[j].clone()),
                None => None,
            }
        },
    }
}

/// What resolving `version` against the `installed` versions may give: the version
/// itself when it is installed or nothing installed refines it; otherwise the least
/// installed version (in string order) that refines it.
pub open spec fn fuzzy_matches(r: Seq<char>, version: Seq<char>, exact_installed: bool, installed: Seq<
    Seq<char>,
>) -> bool {
    &&& exact_installed ==> r == version
    &&& !exact_installed && (forall|i: int| 0 <= i < installed.len() ==> !refines(#[trigger] installed[i], version))
        ==> r == version
    &&& !exact_installed && (exists|i: int| 0 <= i < installed.len() && refines(#[trigger] installed[i], version))
        ==> {
        &&& refines(r, version)
        &&& installed.contains(r)
        &&& forall|i: int|
            0 <= i < installed.len() && refines(#[trigger] installed[i], version) ==> seq_le(r, installed[i])
    }
}

/// Resolves a requested version against installed ones: when the version itself is
/// installed it stands; otherwise the least installed version (in string order)
/// that equals it or starts with `version.`; otherwise the version unchanged.
pub fn fuzzy_match_version(version: &str, exact_installed: bool, installed: &Vec<String>) -> (r:
    String)
    ensures
        exact_installed ==> r@ == version@,
        !exact_installed && (forall|i: int|
            0 <= i < installed@.len() ==> !refines(#[trigger] installed.deep_view()[i], version@))
            ==> r@ == version@,
        !exact_installed && (exists|i: int|
            0 <= i < installed@.len() && refines(#[trigger] installed.deep_view()[i], version@))
            ==> {
            &&& refines(r@, version@)
            &&& installed.deep_view().contains(r@)
            &&& forall|i: int|
                0 <= i < installed@.len() && refines(#[trigger] installed.deep_view()[i], version@)
                    ==> seq_le(r@, installed.deep_view()[i])
        },
        fuzzy_matches(r@, version@, exact_installed, installed.deep_view()),
{
    if exact_installed {
        return copy_str(version);
    }
    let mut prefix = copy_str(version);
    push_char(&mut prefix, '.');
    let mut best: Option<usize> = None;
    let mut i: usize = 0;
    while i < installed.len()
        invariant
            i <= installed@.len(),
            prefix@ == version@.push('.'),
            match best {
                Some(b) => {
                    &&& b < i
                    &&& refines(installed.deep_view()[b as int], version@)
                    &&& forall|k: int|
                        0 <= k < i && refines(#[trigger] installed.deep_view()[k], version@)
                            ==> seq_le(installed.deep_view()[b as int], installed.deep_view()[k])
                },
                None => forall|k: int|
                    0 <= k < i ==> !refines(#[trigger] installed.deep_view()[k], version@),
            },
        decreases installed@.len() - i,
    {
        let hit = str_eq(installed[i].as_str(), version) || starts_with(
            installed[i].as_str(),
            prefix.as_str(),
        );
        assert(installed.deep_view()[i as int] == installed@[i as int]@);
        if hit {
            match best {
                None => {
                    proof {
                        lemma_seq_le_refl(installed.deep_view()[i as int]);
                    }
                    best = Some(i);
                },
                Some(b) => {
                    let bv = chars_of(installed[b].as_str());
                    let iv = chars_of(installed[i].as_str());
                    assert(installed.deep_view()[b as int] == installed@[b as int]@);
                    if !chars_le(&bv, &iv) {
                        proof {
                            lemma_seq_le_total(bv@, iv@);
                            assert forall|k: int|
                                0 <= k < i + 1 && refines(
                                    #[trigger] installed.deep_view()[k],
                                    version@,
                                ) implies seq_le(iv@, installed.deep_view()[k]) by {
                                if k < i {
                                    lemma_seq_le_trans(iv@, bv@, installed.deep_view()[k]);
                                } else {
                                    lemma_seq_le_refl(iv@);
                                }
                            }
                        }
                        best = Some(i);
                    }
                },
            }
        }
        i += 1;
    }
    match best {
        Some(b) => {
            assert(installed.deep_view()[b as int] == installed@[b as int]@);
            installed[b].clone()
        },
        None => copy_str(version),
    }
}

// ---------------------------------------------------------------------------
// Installed versions
// ---------------------------------------------------------------------------

/// Installed versions are listed by plugin name, newest-looking version first.
pub open spec fn installed_le() -> spec_fn(InstalledVersionView, InstalledVersionView) -> bool {
    |a: InstalledVersionView, b: InstalledVersionView|
        if a.plugin != b.plugin {
            seq_le(a.plugin, b.plugin)
        } else {
            version_order(a.version, b.version) != VersionOrder::Less
        }
}

fn installed_le_exec(a: &InstalledVersion, b: &InstalledVersion) -> (r: bool)
    ensures
        r == installed_le()(a.deep_view(), b.deep_view()),
{
    let ap = chars_of(a.plugin.as_str());
    let bp = chars_of(b.plugin.as_str());
    if !chars_eq(&ap, &bp) {
        chars_le(&ap, &bp)
    } else {
        compare_version_components(a.version.as_str(), b.version.as_str()) != VersionOrder::Less
    }
}

/// Orders installed versions by plugin name, then from the newest-looking version
/// to the oldest (a stable sort).
pub fn sort_installed_versions(installed: Vec<InstalledVersion>) -> (r: Vec<InstalledVersion>)
    ensures
        r.deep_view() == sort_seq(installed.deep_view(), installed_le()),
{
    sort_stable(installed, installed_le_exec, Ghost(installed_le()))
}

/// A plugin's versions are listed from the newest-looking to the oldest-looking.
pub open spec fn version_desc_le() -> spec_fn(InstalledVersionView, InstalledVersionView) -> bool {
    |a: InstalledVersionView, b: InstalledVersionView|
        version_order(a.version, b.version) != VersionOrder::Less
}

fn version_desc_le_exec(a: &InstalledVersion, b: &InstalledVersion) -> (r: bool)
    ensures
        r == version_desc_le()(a.deep_view(), b.deep_view()),
{
    compare_versions_desc(a.version.as_str(), b.version.as_str()) != VersionOrder::Greater
}

/// The installed versions of one plugin.
pub open spec fn of_plugin(s: Seq<InstalledVersionView>, plugin: Seq<char>) -> Seq<InstalledVersionView> {
    s.filter(|v: InstalledVersionView| v.plugin == plugin)
}

/// The installed versions of `plugin`, from the newest-looking to the oldest-looking
/// (a stable sort).
pub fn installed_versions_for_plugin(installed: Vec<InstalledVersion>, plugin: &str) -> (r: Vec<
    InstalledVersion,
>)
    ensures
        r.deep_view() == sort_seq(of_plugin(installed.deep_view(), plugin@), version_desc_le()),
{
    let ghost s = installed.deep_view();
    let ghost p = |v: InstalledVersionView| v.plugin == plugin@;
    let mut kept: Vec<InstalledVersion> = Vec::new();
    let mut i: usize = 0;
    while i < installed.len()
        invariant
            i <= installed@.len(),
            s == installed.deep_view(),
            p == (|v: InstalledVersionView| v.plugin == plugin@),
            kept.deep_view() == s.take(i as int).filter(p),
        decreases installed@.len() - i,
    {
        assert(s.take(i + 1).drop_last() =~= s.take(i as int));
        assert(s[i as int] == installed@[i as int].deep_view());
        let ghost before = kept.deep_view();
        if str_eq(installed[i].plugin.as_str(), plugin) {
            let v = installed[i].duplicate();
            kept.push(v);
            assert(kept.deep_view() =~= before.push(s[i as int]));
        }
        assert(s.take(i + 1).filter(p) == kept.deep_view()) by {
            s.take(i as int).lemma_filter_push(s[i as int], p);
            assert(s.take(i + 1) =~= s.take(i as int).push(s[i as int]));
        }
        i += 1;
    }
    assert(s.take(i as int) =~= s);
    sort_stable(kept, version_desc_le_exec, Ghost(version_desc_le()))
}

// ---------------------------------------------------------------------------
// Laws of the order
// ---------------------------------------------------------------------------

proof fn lemma_text_order_flip(a: Seq<char>, b: Seq<char>)
    ensures
        text_order(b, a) == flip(text_order(a, b)),
{
    lemma_seq_le_total(a, b);
    if a != b && seq_le(a, b) && seq_le(b, a) {
        lemma_seq_le_antisym(a, b);
    }
}

proof fn lemma_components_order_flip(a: Seq<Seq<char>>, b: Seq<Seq<char>>)
    ensures
        components_order(b, a) == flip(components_order(a, b)),
    decreases a.len(),
{
    if a.len() > 0 && b.len() > 0 {
        lemma_text_order_flip(a[0], b[0]);
        lemma_components_order_flip(a.drop_first(), b.drop_first());
    }
}

proof fn lemma_components_order_refl(a: Seq<Seq<char>>)
    ensures
        components_order(a, a) == VersionOrder::Equal,
    decreases a.len(),
{
    if a.len() > 0 {
        lemma_components_order_refl(a.drop_first());
    }
}

/// Every version compares equal to itself.
pub proof fn law_version_order_reflexive(a: Seq<char>)
    ensures
        version_order(a, a) == VersionOrder::Equal,
{
    lemma_components_order_refl(version_components_spec(a));
}

/// Comparing the other way round gives the opposite answer: `a < b` exactly when
/// `b > a`, and equality is symmetric.
pub proof fn law_version_order_antisymmetric(a: Seq<char>, b: Seq<char>)
    ensures
        version_order(b, a) == flip(version_order(a, b)),
{
    lemma_components_order_flip(version_components_spec(a), version_components_spec(b));
}

/// The listing order of installed versions compares any two records one way or the
/// other.
pub proof fn lemma_installed_le_total()
    ensures
        is_total(installed_le()),
{
    assert forall|a: InstalledVersionView, b: InstalledVersionView| #[trigger]
        installed_le()(a, b) || installed_le()(b, a) by {
        lemma_seq_le_total(a.plugin, b.plugin);
        law_version_order_antisymmetric(a.version, b.version);
    }
}

/// The installed-version listing holds exactly the records it was given, and each
/// record is listed before the next one: by plugin name, then newest-looking
/// version first.
pub proof fn law_installed_listing_ordered(s: Seq<InstalledVersionView>)
    ensures
        sort_seq(s, installed_le()).to_multiset() == s.to_multiset(),
        adjacent_sorted(sort_seq(s, installed_le()), installed_le()),
{
    lemma_installed_le_total();
    lemma_sort_permutation(s, installed_le());
    lemma_sort_adjacent(s, installed_le());
}

/// The versions listed for a plugin are exactly its installed records, each listed
/// before the next one from the newest-looking to the oldest-looking.
pub proof fn law_plugin_versions_ordered(s: Seq<InstalledVersionView>, plugin: Seq<char>)
    ensures
        sort_seq(of_plugin(s, plugin), version_desc_le()).to_multiset() == of_plugin(
            s,
            plugin,
        ).to_multiset(),
        adjacent_sorted(sort_seq(of_plugin(s, plugin), version_desc_le()), version_desc_le()),
        forall|k: int|
            0 <= k < sort_seq(of_plugin(s, plugin), version_desc_le()).len() ==> (#[trigger] sort_seq(
                of_plugin(s, plugin),
                version_desc_le(),
            )[k]).plugin == plugin,
{
    let f = of_plugin(s, plugin);
    let r = sort_seq(f, version_desc_le());
    assert forall|a: InstalledVersionView, b: InstalledVersionView| #[trigger]
        version_desc_le()(a, b) || version_desc_le()(b, a) by {
        law_version_order_antisymmetric(a.version, b.version);
    }
    lemma_sort_permutation(f, version_desc_le());
    lemma_sort_adjacent(f, version_desc_le());
    assert forall|k: int| 0 <= k < r.len() implies (#[trigger] r[k]).plugin == plugin by {
        vstd::seq_lib::to_multiset_contains(r, r[k]);
        assert(r.to_multiset().count(r[k]) > 0);
        vstd::seq_lib::to_multiset_contains(f, r[k]);
        broadcast use vstd::seq_lib::group_filter_ensures;
        let j = choose|j: int| 0 <= j < f.len() && f[j] == r[k];
        assert(f[j].plugin == plugin);
    }
}

/// A version whose components all read as numbers (`1.2.10`, `v20.11.1`).
pub open spec fn numeric_version(v: Seq<char>) -> bool {
    numeric_components(version_components_spec(v))
}

pub open spec fn numeric_components(s: Seq<Seq<char>>) -> bool {
    forall|k: int| 0 <= k < s.len() ==> (#[trigger] parse_u64_spec(s[k])) is Some
}

proof fn lemma_components_not_less_trans(a: Seq<Seq<char>>, b: Seq<Seq<char>>, c: Seq<Seq<char>>)
    requires
        numeric_components(a),
        numeric_components(b),
        numeric_components(c),
        components_order(a, b) != VersionOrder::Less,
        components_order(b, c) != VersionOrder::Less,
    ensures
        components_order(a, c) != VersionOrder::Less,
    decreases a.len(),
{
    if a.len() > 0 && b.len() > 0 && c.len() > 0 {
        assert(parse_u64_spec(a[0]) is Some);
        assert(parse_u64_spec(b[0]) is Some);
        assert(parse_u64_spec(c[0]) is Some);
        let x = parse_u64_spec(a[0]).unwrap() as int;
        let y = parse_u64_spec(b[0]).unwrap() as int;
        let z = parse_u64_spec(c[0]).unwrap() as int;
        if x == y && y == z {
            assert forall|k: int| 0 <= k < a.drop_first().len() implies (#[trigger] parse_u64_spec(
                a.drop_first()[k],
            )) is Some by {
                assert(a.drop_first()[k] == a[k + 1]);
                assert(parse_u64_spec(a[k + 1]) is Some);
            }
            assert forall|k: int| 0 <= k < b.drop_first().len() implies (#[trigger] parse_u64_spec(
                b.drop_first()[k],
            )) is Some by {
                assert(b.drop_first()[k] == b[k + 1]);
                assert(parse_u64_spec(b[k + 1]) is Some);
            }
            assert forall|k: int| 0 <= k < c.drop_first().len() implies (#[trigger] parse_u64_spec(
                c.drop_first()[k],
            )) is Some by {
                assert(c.drop_first()[k] == c[k + 1]);
                assert(parse_u64_spec(c[k + 1]) is Some);
            }
            lemma_components_not_less_trans(a.drop_first(), b.drop_first(), c.drop_first());
        }
    }
}

/// On versions made of numbers only the "not older" order chains: when `a` is not
/// older than `b` and `b` not older than `c`, `a` is not older than `c`. (On other
/// versions it need not: `10`, `1a`, `9` each compare older than the next, and `9`
/// older than `10`.)
pub proof fn law_numeric_version_order_transitive(a: Seq<char>, b: Seq<char>, c: Seq<char>)
    requires
        numeric_version(a),
        numeric_version(b),
        numeric_version(c),
        version_order(a, b) != VersionOrder::Less,
        version_order(b, c) != VersionOrder::Less,
    ensures
        version_order(a, c) != VersionOrder::Less,
{
    lemma_components_not_less_trans(
        version_components_spec(a),
        version_components_spec(b),
        version_components_spec(c),
    );
}

/// When every installed version of a plugin is made of numbers only, its listing is
/// fully ordered: every version is listed before every older-looking one.
pub proof fn law_numeric_plugin_versions_sorted(s: Seq<InstalledVersionView>, plugin: Seq<char>)
    requires
        forall|i: int| 0 <= i < s.len() ==> numeric_version(#[trigger] s[i].version),
    ensures
        sorted_by(sort_seq(of_plugin(s, plugin), version_desc_le()), version_desc_le()),
{
    let f = of_plugin(s, plugin);
    let r = sort_seq(f, version_desc_le());
    law_plugin_versions_ordered(s, plugin);
    assert forall|k: int| 0 <= k < r.len() implies numeric_version(#[trigger] r[k].version) by {
        vstd::seq_lib::to_multiset_contains(r, r[k]);
        assert(r.to_multiset().count(r[k]) > 0);
        vstd::seq_lib::to_multiset_contains(f, r[k]);
        assert(f.contains(r[k]));
        s.lemma_filter_contains_rev(|v: InstalledVersionView| v.plugin == plugin, r[k]);
        assert(s.contains(r[k]));
        let m = choose|m: int| 0 <= m < s.len() && s[m] == r[k];
        assert(numeric_version(s[m].version));
    }
    assert forall|i: int, j: int, k: int|
        0 <= i < j < k < r.len() && #[trigger] version_desc_le()(r[i], r[j]) && #[trigger] version_desc_le()(
            r[j],
            r[k],
        ) implies version_desc_le()(r[i], r[k]) by {
        assert(numeric_version(r[i].version));
        assert(numeric_version(r[j].version));
        assert(numeric_version(r[k].version));
        law_numeric_version_order_transitive(r[i].version, r[j].version, r[k].version);
    }
    lemma_adjacent_to_sorted_within(r, version_desc_le());
}

} // verus!
