//! Version files written for other tools (`.tool-versions`, `.nvmrc`,
//! `.node-version`, `.sdkmanrc`), and the settings that steer how they and the
//! runtime directories are read.
use vstd::prelude::*;

use crate::order::{
    first_index, insert_unique_sorted, lemma_first_index, lemma_first_index_at, strictly_sorted,
};
use crate::paths::{is_absolute, is_absolute_path, join_path, path_join};
use crate::text::{
    chars_of, copy_str, lines, lines_seq, split_whitespace, str_eq, string_from_range, trim,
    trim_seq, words_seq,
};
use crate::versions::{parse_u64, parse_u64_spec, select_matching_spec, select_matching_version};

verus! {

broadcast use vstd::seq_lib::group_seq_properties;

// ---------------------------------------------------------------------------
// Files
// ---------------------------------------------------------------------------

/// The legacy version files read besides the project's own file.
pub open spec fn supported_legacy_files_spec() -> Seq<Seq<char>> {
    seq![".tool-versions"@, ".nvmrc"@, ".node-version"@, ".sdkmanrc"@]
}

/// The legacy version files read besides the project's own file.
pub fn supported_legacy_files() -> (r: Vec<String>)
    ensures
        r.deep_view() == supported_legacy_files_spec(),
{
    let mut r: Vec<String> = Vec::new();
    r.push(copy_str(".tool-versions"));
    r.push(copy_str(".nvmrc"));
    r.push(copy_str(".node-version"));
    r.push(copy_str(".sdkmanrc"));
    assert(r.deep_view() =~= supported_legacy_files_spec());
    r
}

/// `names` followed by each name of `extra` that is not already listed.
pub open spec fn append_missing(names: Seq<Seq<char>>, extra: Seq<Seq<char>>) -> Seq<Seq<char>>
    decreases extra.len(),
{
    if extra.len() == 0 {
        names
    } else {
        let prev = append_missing(names, extra.drop_last());
        if prev.contains(extra.last()) {
            prev
        } else {
            prev.push(extra.last())
        }
    }
}

fn contains_str(v: &Vec<String>, x: &str) -> (r: bool)
    ensures
        r == v.deep_view().contains(x@),
{
    let mut i: usize = 0;
    while i < v.len()
        invariant
            i <= v@.len(),
            forall|j: int| 0 <= j < i ==> v.deep_view()[j] != x@,
        decreases v@.len() - i,
    {
        assert(v.deep_view()[i as int] == v@[i as int]@);
        if str_eq(v[i].as_str(), x) {
            return true;
        }
        i += 1;
    }
    false
}

/// The file names to look for when resolving a plugin's version from legacy files:
/// the supported ones, then the plugin's own legacy file names not yet listed.
pub fn legacy_candidate_file_names(plugin_legacy_filenames: &Vec<String>) -> (r: Vec<String>)
    ensures
        r.deep_view() == append_missing(
            supported_legacy_files_spec(),
            plugin_legacy_filenames.deep_view(),
        ),
{
    let mut r = supported_legacy_files();
    let ghost extra = plugin_legacy_filenames.deep_view();
    let mut i: usize = 0;
    while i < plugin_legacy_filenames.len()
        invariant
            i <= extra.len(),
            extra == plugin_legacy_filenames.deep_view(),
            r.deep_view() == append_missing(supported_legacy_files_spec(), extra.take(i as int)),
        decreases extra.len() - i,
    {
        assert(extra.take(i + 1).drop_last() =~= extra.take(i as int));
        assert(extra[i as int] == plugin_legacy_filenames@[i as int]@);
        let name = plugin_legacy_filenames[i].as_str();
        if !contains_str(&r, name) {
            let ghost before = r.deep_view();
            r.push(copy_str(name));
            assert(r.deep_view() =~= before.push(extra[i as int]));
        }
        i += 1;
    }
    assert(extra.take(i as int) =~= extra);
    r
}

// ---------------------------------------------------------------------------
// `.tool-versions`
// ---------------------------------------------------------------------------

/// A line that holds content: not blank once trimmed, and not a `#` comment.
pub open spec fn is_content_line(t: Seq<char>) -> bool {
    t.len() > 0 && t[0] != '#'
}

/// A `.tool-versions` line: the first two whitespace-separated words, when there are
/// two.
pub open spec fn tool_line_pair(line: Seq<char>) -> Option<(Seq<char>, Seq<char>)> {
    let t = trim_seq(line);
    let w = words_seq(t);
    if is_content_line(t) && w.len() >= 2 {
        Some((w[0], w[1]))
    } else {
        None
    }
}

/// The pairs that the content lines yield, in order.
pub open spec fn pairs_of_lines(
    ls: Seq<Seq<char>>,
    f: spec_fn(Seq<char>) -> Option<(Seq<char>, Seq<char>)>,
) -> Seq<(Seq<char>, Seq<char>)>
    decreases ls.len(),
{
    if ls.len() == 0 {
        Seq::empty()
    } else {
        let prev = pairs_of_lines(ls.drop_last(), f);
        match f(ls.last()) {
            Some(p) => prev.push(p),
            None => prev,
        }
    }
}

pub open spec fn tool_versions_pairs(content: Seq<char>) -> Seq<(Seq<char>, Seq<char>)> {
    pairs_of_lines(lines_seq(content), |l: Seq<char>| tool_line_pair(l))
}

/// The value of the last pair with key `key`: what a map filled from the pairs in
/// order holds for it.
pub open spec fn lookup_last(pairs: Seq<(Seq<char>, Seq<char>)>, key: Seq<char>) -> Option<
    Seq<char>,
>
    decreases pairs.len(),
{
    if pairs.len() == 0 {
        None
    } else if pairs.last().0 == key {
        Some(pairs.last().1)
    } else {
        lookup_last(pairs.drop_last(), key)
    }
}

fn tool_line_pair_exec(line: &str) -> (r: Option<(String, String)>)
    ensures
        match tool_line_pair(line@) {
            Some(p) => r matches Some(q) && q.0@ == p.0 && q.1@ == p.1,
            None => r is None,
        },
{
    let t = trim(line);
    let tv = chars_of(t.as_str());
    if tv.len() == 0 || tv[0] == '#' {
        return None;
    }
    let w = split_whitespace(t.as_str());
    if w.len() < 2 {
        return None;
    }
    assert(w.deep_view()[0] == w@[0]@);
    assert(w.deep_view()[1] == w@[1]@);
    Some((w[0].clone(), w[1].clone()))
}

/// The `tool version` pairs of a `.tool-versions` file, in file order. Looking a tool
/// up takes its last pair (`tool_version_of`).
pub fn parse_tool_versions_content(content: &str) -> (r: Vec<(String, String)>)
    ensures
        r.deep_view() == tool_versions_pairs(content@),
{
    let ls = lines(content);
    let ghost lv = ls.deep_view();
    let ghost f = |l: Seq<char>| tool_line_pair(l);
    let mut r: Vec<(String, String)> = Vec::new();
    let mut i: usize = 0;
    while i < ls.len()
        invariant
            i <= lv.len(),
            lv == ls.deep_view(),
            f == (|l: Seq<char>| tool_line_pair(l)),
            r.deep_view() == pairs_of_lines(lv.take(i as int), f),
        decreases lv.len() - i,
    {
        assert(lv.take(i + 1).drop_last() =~= lv.take(i as int));
        assert(lv[i as int] == ls@[i as int]@);
        let ghost before = r.deep_view();
        match tool_line_pair_exec(ls[i].as_str()) {
            Some(p) => {
                let ghost pv = (p.0@, p.1@);
                r.push(p);
                assert(r.deep_view() =~= before.push(pv));
            },
            None => {},
        }
        i += 1;
    }
    assert(lv.take(i as int) =~= lv);
    r
}

// ---------------------------------------------------------------------------
// `.sdkmanrc`
// ---------------------------------------------------------------------------

pub open spec fn is_char(c: char) -> spec_fn(char) -> bool {
    |x: char| x == c
}

/// A `.sdkmanrc` line: the trimmed text before and after its first `=`.
pub open spec fn sdkman_line_pair(line: Seq<char>) -> Option<(Seq<char>, Seq<char>)> {
    let t = trim_seq(line);
    if !is_content_line(t) {
        None
    } else {
        match first_index(t, is_char('=')) {
            Some(k) => Some((trim_seq(t.take(k)), trim_seq(t.skip(k + 1)))),
            None => None,
        }
    }
}

pub open spec fn sdkmanrc_pairs(content: Seq<char>) -> Seq<(Seq<char>, Seq<char>)> {
    pairs_of_lines(lines_seq(content), |l: Seq<char>| sdkman_line_pair(l))
}

fn sdkman_line_pair_exec(line: &str) -> (r: Option<(String, String)>)
    ensures
        match sdkman_line_pair(line@) {
            Some(p) => r matches Some(q) && q.0@ == p.0 && q.1@ == p.1,
            None => r is None,
        },
{
    let t = trim(line);
    let tv = chars_of(t.as_str());
    if tv.len() == 0 || tv[0] == '#' {
        return None;
    }
    proof {
        lemma_first_index(tv@, is_char('='));
    }
    let mut k: usize = 0;
    while k < tv.len()
        invariant
            k <= tv@.len(),
            tv@ == trim_seq(line@),
            is_content_line(tv@),
            forall|j: int| 0 <= j < k ==> !is_char('=')(#[trigger] tv@[j]),
        decreases tv@.len() - k,
    {
        if tv[k] == '=' {
            proof {
                lemma_first_index_at(tv@, is_char('='), k as int);
            }
            let before = string_from_range(&tv, 0, k);
            let after = string_from_range(&tv, k + 1, tv.len());
            assert(tv@.subrange(0, k as int) =~= tv@.take(k as int));
            assert(tv@.subrange(k + 1, tv@.len() as int) =~= tv@.skip(k + 1));
            return Some((trim(before.as_str()), trim(after.as_str())));
        }
        k += 1;
    }
    None
}

/// The `tool=version` pairs of a `.sdkmanrc` file, in file order.
pub fn parse_sdkmanrc_content(content: &str) -> (r: Vec<(String, String)>)
    ensures
        r.deep_view() == sdkmanrc_pairs(content@),
{
    let ls = lines(content);
    let ghost lv = ls.deep_view();
    let ghost f = |l: Seq<char>| sdkman_line_pair(l);
    let mut r: Vec<(String, String)> = Vec::new();
    let mut i: usize = 0;
    while i < ls.len()
        invariant
            i <= lv.len(),
            lv == ls.deep_view(),
            f == (|l: Seq<char>| sdkman_line_pair(l)),
            r.deep_view() == pairs_of_lines(lv.take(i as int), f),
        decreases lv.len() - i,
    {
        assert(lv.take(i + 1).drop_last() =~= lv.take(i as int));
        assert(lv[i as int] == ls@[i as int]@);
        let ghost before = r.deep_view();
        match sdkman_line_pair_exec(ls[i].as_str()) {
            Some(p) => {
                let ghost pv = (p.0@, p.1@);
                r.push(p);
                assert(r.deep_view() =~= before.push(pv));
            },
            None => {},
        }
        i += 1;
    }
    assert(lv.take(i as int) =~= lv);
    r
}

// ---------------------------------------------------------------------------
// Lookups
// ---------------------------------------------------------------------------

/// The version a tool is pinned to by a list of pairs: the last pair for it wins.
pub fn tool_version_of(pairs: &Vec<(String, String)>, key: &str) -> (r: Option<String>)
    ensures
        r.deep_view() == lookup_last(pairs.deep_view(), key@),
{
    let ghost s = pairs.deep_view();
    let mut i: usize = pairs.len();
    while i > 0
        invariant
            i <= s.len(),
            s == pairs.deep_view(),
            lookup_last(s, key@) == lookup_last(s.take(i as int), key@),
        decreases i,
    {
        let ghost t = s.take(i as int);
        assert(t.drop_last() =~= s.take(i - 1));
        assert(t.last() == s[i - 1]);
        assert(s[i - 1] == (pairs@[i - 1].0@, pairs@[i - 1].1@));
        if str_eq(pairs[i - 1].0.as_str(), key) {
            return Some(pairs[i - 1].1.clone());
        }
        i -= 1;
    }
    None
}

/// The keys of a list of pairs, as a set.
pub open spec fn pair_key_set(pairs: Seq<(Seq<char>, Seq<char>)>) -> Set<Seq<char>> {
    pairs.map_values(|p: (Seq<char>, Seq<char>)| p.0).to_set()
}

/// The distinct keys of a list of pairs in increasing order (a `BTreeSet` of them).
pub fn pair_names(pairs: &Vec<(String, String)>) -> (r: Vec<String>)
    ensures
        strictly_sorted(r.deep_view()),
        r.deep_view().to_set() == pair_key_set(pairs.deep_view()),
{
    let ghost s = pairs.deep_view();
    let ghost key = |p: (Seq<char>, Seq<char>)| p.0;
    let mut r: Vec<String> = Vec::new();
    let mut i: usize = 0;
    assert(r.deep_view().to_set() =~= s.take(0).map_values(key).to_set());
    while i < pairs.len()
        invariant
            i <= s.len(),
            s == pairs.deep_view(),
            key == (|p: (Seq<char>, Seq<char>)| p.0),
            strictly_sorted(r.deep_view()),
            r.deep_view().to_set() == s.take(i as int).map_values(key).to_set(),
        decreases s.len() - i,
    {
        assert(s[i as int] == (pairs@[i as int].0@, pairs@[i as int].1@));
        let name = pairs[i].0.clone();
        insert_unique_sorted(&mut r, name);
        assert(s.take(i + 1).map_values(key) =~= s.take(i as int).map_values(key).push(
            s[i as int].0,
        ));
        proof {
            s.take(i as int).map_values(key).lemma_push_to_set_commute(s[i as int].0);
        }
        i += 1;
    }
    assert(s.take(i as int) =~= s);
    r
}

// ---------------------------------------------------------------------------
// Reading tools and versions out of legacy files
// ---------------------------------------------------------------------------

/// The tools a legacy file names.
pub open spec fn legacy_tool_names_spec(file_name: Seq<char>, content: Seq<char>) -> Set<Seq<char>> {
    if file_name == ".tool-versions"@ {
        pair_key_set(tool_versions_pairs(content))
    } else if file_name == ".nvmrc"@ || file_name == ".node-version"@ {
        if trim_seq(content).len() > 0 {
            set!["nodejs"@]
        } else {
            Set::empty()
        }
    } else if file_name == ".sdkmanrc"@ {
        pair_key_set(sdkmanrc_pairs(content))
    } else {
        Set::empty()
    }
}

/// The tools a legacy file names, in increasing order without repeats.
pub fn parse_generic_legacy_tool_names(file_name: &str, content: &str) -> (r: Vec<String>)
    ensures
        strictly_sorted(r.deep_view()),
        r.deep_view().to_set() == legacy_tool_names_spec(file_name@, content@),
{
    if str_eq(file_name, ".tool-versions") {
        let pairs = parse_tool_versions_content(content);
        pair_names(&pairs)
    } else if str_eq(file_name, ".nvmrc") || str_eq(file_name, ".node-version") {
        let mut names: Vec<String> = Vec::new();
        let t = trim(content);
        if !t.as_str().is_empty() {
            names.push(copy_str("nodejs"));
            assert(names.deep_view() =~= seq!["nodejs"@]);
            assert(names.deep_view().to_set() =~= set!["nodejs"@]) by {
                assert(names.deep_view()[0] == "nodejs"@);
            }
        } else {
            assert(names.deep_view().to_set() =~= Set::<Seq<char>>::empty());
        }
        names
    } else if str_eq(file_name, ".sdkmanrc") {
        let pairs = parse_sdkmanrc_content(content);
        pair_names(&pairs)
    } else {
        let names: Vec<String> = Vec::new();
        assert(names.deep_view().to_set() =~= Set::<Seq<char>>::empty());
        names
    }
}

/// The version a legacy file pins `plugin` to, before any strategy applies.
pub open spec fn legacy_pinned_version(
    plugin: Seq<char>,
    file_name: Seq<char>,
    content: Seq<char>,
) -> Option<Seq<char>> {
    let found = if file_name == ".tool-versions"@ {
        lookup_last(tool_versions_pairs(content), plugin)
    } else if (file_name == ".nvmrc"@ || file_name == ".node-version"@) && plugin == "nodejs"@ {
        Some(trim_seq(content))
    } else if file_name == ".sdkmanrc"@ {
        lookup_last(sdkmanrc_pairs(content), plugin)
    } else {
        None
    };
    match found {
        Some(v) => if v.len() > 0 {
            Some(v)
        } else {
            None
        },
        None => None,
    }
}

/// The version a legacy file gives `plugin` under a strategy: `latest_installed`
/// and `latest_available` refine the pinned version against the installed and the
/// available versions (keeping it when nothing matches); any other strategy keeps it.
pub open spec fn legacy_version_spec(
    plugin: Seq<char>,
    file_name: Seq<char>,
    content: Seq<char>,
    installed: Seq<Seq<char>>,
    strategy: Seq<char>,
    available: Seq<Seq<char>>,
) -> Option<Seq<char>> {
    match legacy_pinned_version(plugin, file_name, content) {
        None => None,
        Some(v) => if strategy == "latest_installed"@ {
            match select_matching_spec(v, installed) {
                Some(m) => Some(m),
                None => Some(v),
            }
        } else if strategy == "latest_available"@ {
            match select_matching_spec(v, available) {
                Some(m) => Some(m),
                None => Some(v),
            }
        } else {
            Some(v)
        },
    }
}

fn non_empty(v: Option<String>) -> (r: Option<String>)
    ensures
        match v {
            Some(s) => if s@.len() > 0 {
                r.deep_view() == Some(s@)
            } else {
                r is None
            },
            None => r is None,
        },
{
    match v {
        Some(s) => if s.as_str().is_empty() {
            None
        } else {
            Some(s)
        },
        None => None,
    }
}

/// Reads the version of `plugin` out of a legacy file with the generic rules,
/// applying the strategy; `available` is only read under `latest_available`.
pub fn parse_generic_legacy_tool_version(
    plugin_name: &str,
    file_name: &str,
    content: &str,
    installed_versions: &Vec<String>,
    strategy: &str,
    available: &Vec<String>,
) -> (r: Option<String>)
    ensures
        r.deep_view() == legacy_version_spec(
            plugin_name@,
            file_name@,
            content@,
            installed_versions.deep_view(),
            strategy@,
            available.deep_view(),
        ),
{
    let found = if str_eq(file_name, ".tool-versions") {
        let pairs = parse_tool_versions_content(content);
        tool_version_of(&pairs, plugin_name)
    } else if (str_eq(file_name, ".nvmrc") || str_eq(file_name, ".node-version")) && str_eq(
        plugin_name,
        "nodejs",
    ) {
        Some(trim(content))
    } else if str_eq(file_name, ".sdkmanrc") {
        let pairs = parse_sdkmanrc_content(content);
        tool_version_of(&pairs, plugin_name)
    } else {
        None
    };
    let parsed = non_empty(found);
    match parsed {
        None => None,
        Some(v) => {
            if str_eq(strategy, "latest_installed") {
                match select_matching_version(v.as_str(), installed_versions) {
                    Some(m) => Some(m),
                    None => Some(v),
                }
            } else if str_eq(strategy, "latest_available") {
                match select_matching_version(v.as_str(), available) {
                    Some(m) => Some(m),
                    None => Some(v),
                }
            } else {
                Some(v)
            }
        },
    }
}

// ---------------------------------------------------------------------------
// Settings
// ---------------------------------------------------------------------------

/// Where runtimes live: `home/cache` when nothing is configured, the configured path
/// when it is absolute, else the configured path under the home.
pub open spec fn runtime_root_spec(home: Seq<char>, configured: Seq<char>) -> Seq<char> {
    let t = trim_seq(configured);
    if t.len() == 0 {
        path_join(home, "cache"@)
    } else if is_absolute_path(t) {
        t
    } else {
        path_join(home, t)
    }
}

/// Resolves the configured runtime root against the home.
pub fn normalize_runtime_root(home: &str, configured_path: &str) -> (r: String)
    ensures
        r@ == runtime_root_spec(home@, configured_path@),
{
    let trimmed = trim(configured_path);
    if trimmed.as_str().is_empty() {
        return join_path(home, "cache");
    }
    if is_absolute(trimmed.as_str()) {
        trimmed
    } else {
        join_path(home, trimmed.as_str())
    }
}

/// The legacy strategy in effect: `latest_installed` and `latest_available` stand,
/// anything else means `specified`.
pub fn normalize_legacy_strategy(strategy: &str) -> (r: String)
    ensures
        r@ == (if strategy@ == "latest_installed"@ || strategy@ == "latest_available"@ {
            strategy@
        } else {
            "specified"@
        }),
{
    if str_eq(strategy, "latest_installed") || str_eq(strategy, "latest_available") {
        copy_str(strategy)
    } else {
        copy_str("specified")
    }
}

/// The proxy URL in effect: the trimmed URL, when the proxy is enabled and the URL
/// is not blank.
pub fn configured_proxy_url(enable: bool, url: &str) -> (r: Option<String>)
    ensures
        r.deep_view() == (if enable && trim_seq(url@).len() > 0 {
            Some(trim_seq(url@))
        } else {
            None
        }),
{
    if !enable {
        return None;
    }
    let t = trim(url);
    if t.as_str().is_empty() {
        None
    } else {
        Some(t)
    }
}

/// `amount * factor`, or `u64::MAX` when that overflows.
pub open spec fn saturating_times(amount: u64, factor: u64) -> u64 {
    if amount * factor > u64::MAX {
        u64::MAX
    } else {
        (amount * factor) as u64
    }
}

pub open spec fn is_digit_char() -> spec_fn(char) -> bool {
    |c: char| '0' <= c && c <= '9'
}

/// A duration such as `30`, `90s`, `15m`, `12h` or `7d`, in seconds: a decimal amount
/// and an optional unit. Blank, `0`, a zero amount, an amount that is not a `u64`
/// and an unknown unit give no duration; the product saturates at `u64::MAX`.
pub open spec fn duration_spec(value: Seq<char>) -> Option<u64> {
    let t = trim_seq(value);
    let split = match first_index(t, |c: char| !is_digit_char()(c)) {
        Some(k) => k,
        None => t.len() as int,
    };
    let unit = t.skip(split);
    if t.len() == 0 || t == "0"@ {
        None
    } else {
        match parse_u64_spec(t.take(split)) {
            None => None,
            Some(amount) => if amount == 0 {
                None
            } else if unit.len() == 0 || unit == "s"@ {
                Some(amount)
            } else if unit == "m"@ {
                Some(saturating_times(amount, 60))
            } else if unit == "h"@ {
                Some(saturating_times(amount, 3600))
            } else if unit == "d"@ {
                Some(saturating_times(amount, 86400))
            } else {
                None
            },
        }
    }
}

fn saturating_times_exec(amount: u64, factor: u64) -> (r: u64)
    requires
        factor > 0,
    ensures
        r == saturating_times(amount, factor),
{
    if amount > u64::MAX / factor {
        assert(amount * factor > u64::MAX) by (nonlinear_arith)
            requires
                amount > u64::MAX / factor,
                factor > 0,
        ;
        u64::MAX
    } else {
        assert(amount * factor <= u64::MAX) by (nonlinear_arith)
            requires
                amount <= u64::MAX / factor,
                factor > 0,
        ;
        amount * factor
    }
}

/// Parses a cache duration into seconds.
pub fn parse_duration_spec(value: &str) -> (r: Option<u64>)
    ensures
        r == duration_spec(value@),
{
    let t = trim(value);
    let tv = chars_of(t.as_str());
    if tv.len() == 0 || str_eq(t.as_str(), "0") {
        return None;
    }
    let ghost p = |c: char| !is_digit_char()(c);
    proof {
        lemma_first_index(tv@, p);
    }
    let mut k: usize = 0;
    while k < tv.len() && '0' <= tv[k] && tv[k] <= '9'
        invariant
            k <= tv@.len(),
            p == (|c: char| !is_digit_char()(c)),
            forall|j: int| 0 <= j < k ==> !p(#[trigger] tv@[j]),
        decreases tv@.len() - k,
    {
        k += 1;
    }
    proof {
        if k < tv@.len() {
            lemma_first_index_at(tv@, p, k as int);
        }
    }
    let amount_text = string_from_range(&tv, 0, k);
    let unit = string_from_range(&tv, k, tv.len());
    let amount_chars = chars_of(amount_text.as_str());
    assert(tv@.subrange(0, k as int) =~= tv@.take(k as int));
    assert(tv@.subrange(k as int, tv@.len() as int) =~= tv@.skip(k as int));
    let amount = match parse_u64(&amount_chars) {
        Some(a) => a,
        None => {
            return None;
        },
    };
    if amount == 0 {
        return None;
    }
    let u = unit.as_str();
    if u.is_empty() || str_eq(u, "s") {
        Some(amount)
    } else if str_eq(u, "m") {
        Some(saturating_times_exec(amount, 60))
    } else if str_eq(u, "h") {
        Some(saturating_times_exec(amount, 3600))
    } else if str_eq(u, "d") {
        Some(saturating_times_exec(amount, 86400))
    } else {
        None
    }
}

/// A cache written at `cached_at` (seconds since the epoch) is fresh at `now` (whole
/// seconds and nanoseconds since the epoch) when `now` is not earlier and the age does
/// not exceed the time to live.
pub open spec fn cache_fresh_spec(ttl_secs: u64, cached_at: u64, now_secs: u64, now_nanos: u32) -> bool {
    now_secs >= cached_at && (now_secs - cached_at < ttl_secs || (now_secs - cached_at == ttl_secs
        && now_nanos == 0))
}

/// Whether cached available versions may still be used.
pub fn available_cache_is_fresh(ttl_secs: u64, cached_at: u64, now_secs: u64, now_nanos: u32) -> (r:
    bool)
    ensures
        r == cache_fresh_spec(ttl_secs, cached_at, now_secs, now_nanos),
{
    if now_secs < cached_at {
        return false;
    }
    let age = now_secs - cached_at;
    age < ttl_secs || (age == ttl_secs && now_nanos == 0)
}

// ---------------------------------------------------------------------------
// Laws
// ---------------------------------------------------------------------------

proof fn lemma_lookup_key_listed(pairs: Seq<(Seq<char>, Seq<char>)>, key: Seq<char>)
    requires
        lookup_last(pairs, key) is Some,
    ensures
        pair_key_set(pairs).contains(key),
    decreases pairs.len(),
{
    let m = pairs.map_values(|p: (Seq<char>, Seq<char>)| p.0);
    if pairs.last().0 == key {
        assert(m[pairs.len() - 1] == key);
    } else {
        lemma_lookup_key_listed(pairs.drop_last(), key);
        let m2 = pairs.drop_last().map_values(|p: (Seq<char>, Seq<char>)| p.0);
        let k = choose|k: int| 0 <= k < m2.len() && m2[k] == key;
        assert(m[k] == key);
    }
}

/// Every tool that a legacy file pins a version for is among the tools it names.
pub proof fn law_pinned_tool_is_named(plugin: Seq<char>, file_name: Seq<char>, content: Seq<char>)
    requires
        legacy_pinned_version(plugin, file_name, content) is Some,
    ensures
        legacy_tool_names_spec(file_name, content).contains(plugin),
{
    if file_name == ".tool-versions"@ {
        lemma_lookup_key_listed(tool_versions_pairs(content), plugin);
    } else if (file_name == ".nvmrc"@ || file_name == ".node-version"@) && plugin == "nodejs"@ {
        assert(file_name != ".tool-versions"@) by {
            reveal_strlit(".tool-versions");
            reveal_strlit(".nvmrc");
            reveal_strlit(".node-version");
        }
    } else if file_name == ".sdkmanrc"@ {
        assert(file_name != ".nvmrc"@ && file_name != ".node-version"@) by {
            reveal_strlit(".nvmrc");
            reveal_strlit(".node-version");
            reveal_strlit(".sdkmanrc");
            assert(".sdkmanrc"@.len() == 9);
            assert(".nvmrc"@.len() == 6);
            assert(".node-version"@.len() == 13);
        }
        lemma_lookup_key_listed(sdkmanrc_pairs(content), plugin);
    }
}

/// Under the `specified` strategy (and any strategy but the two `latest_*` ones) the
/// pinned version is what a legacy file gives; under the `latest_*` strategies the
/// answer is the pinned version or a candidate in its line.
pub proof fn law_strategy_refines_pinned(
    plugin: Seq<char>,
    file_name: Seq<char>,
    content: Seq<char>,
    installed: Seq<Seq<char>>,
    strategy: Seq<char>,
    available: Seq<Seq<char>>,
)
    ensures
        legacy_version_spec(plugin, file_name, content, installed, strategy, available) is Some
            <==> legacy_pinned_version(plugin, file_name, content) is Some,
        strategy != "latest_installed"@ && strategy != "latest_available"@ ==> legacy_version_spec(
            plugin,
            file_name,
            content,
            installed,
            strategy,
            available,
        ) == legacy_pinned_version(plugin, file_name, content),
{
}

} // verus!
