//! Plugin registry entries and the rules for the added list and the index.
use vstd::prelude::*;

use crate::model::{PluginBackendKind, PluginManifest};
use crate::order::{
    chars_le, is_total, is_transitive, lemma_seq_le_total, lemma_seq_le_trans,
    lemma_sort_permutation, lemma_sort_sorted, seq_le, sort_seq, sort_stable, sorted_by,
};
use crate::paths::{join_path, path_join};
use crate::text::{
    chars_contain, chars_of, clone_opt, clone_strings, contains_seq, copy_str, lower_seq, occurs_at,
    str_eq, to_ascii_lowercase,
};

verus! {

broadcast use vstd::seq_lib::group_seq_properties;

/// A plugin entry stored by the registry service.
#[derive(Debug, Clone, PartialEq, Eq)]
pub struct RegistryEntry {
    /// Stable plugin identifier.
    pub name: String,
    /// Local source directory or registry target.
    pub source: String,
    /// Backend used to execute the plugin.
    pub backend: PluginBackendKind,
    /// Optional description.
    pub description: Option<String>,
    /// Alternative names accepted by the CLI.
    pub aliases: Vec<String>,
}

pub struct RegistryEntryView {
    pub name: Seq<char>,
    pub source: Seq<char>,
    pub backend: PluginBackendKind,
    pub description: Option<Seq<char>>,
    pub aliases: Seq<Seq<char>>,
}

impl DeepView for RegistryEntry {
    type V = RegistryEntryView;

    open spec fn deep_view(&self) -> RegistryEntryView {
        RegistryEntryView {
            name: self.name@,
            source: self.source@,
            backend: self.backend,
            description: self.description.deep_view(),
            aliases: self.aliases.deep_view(),
        }
    }
}

/// An entry answers to its name and to each of its aliases.
pub open spec fn entry_matches(e: RegistryEntryView, query: Seq<char>) -> bool {
    e.name == query || e.aliases.contains(query)
}

impl RegistryEntry {
    /// Matches the entry against a name or alias.
    pub fn matches(&self, query: &str) -> (r: bool)
        ensures
            r == entry_matches(self.deep_view(), query@),
    {
        if str_eq(self.name.as_str(), query) {
            return true;
        }
        let mut i: usize = 0;
        while i < self.aliases.len()
            invariant
                i <= self.aliases@.len(),
                forall|j: int| 0 <= j < i ==> self.aliases.deep_view()[j] != query@,
            decreases self.aliases@.len() - i,
        {
            if str_eq(self.aliases[i].as_str(), query) {
                assert(self.aliases.deep_view()[i as int] == query@);
                return true;
            }
            i += 1;
        }
        assert(!self.aliases.deep_view().contains(query@)) by {
            assert forall|j: int| 0 <= j < self.aliases.deep_view().len() implies self.aliases.deep_view()[j]
                != query@ by {}
        }
        false
    }

    /// A copy of the entry.
    pub fn duplicate(&self) -> (r: RegistryEntry)
        ensures
            r.deep_view() == self.deep_view(),
    {
        RegistryEntry {
            name: self.name.clone(),
            source: self.source.clone(),
            backend: self.backend,
            description: clone_opt(&self.description),
            aliases: clone_strings(&self.aliases),
        }
    }

    /// Converts the entry into a plugin manifest: name, backend, source, description
    /// and aliases are carried over, every other field is empty.
    pub fn to_manifest(&self) -> (m: PluginManifest)
        ensures
            m.name@ == self.name@,
            m.backend == self.backend,
            m.source@ == self.source@,
            m.description.deep_view() == self.description.deep_view(),
            m.aliases.deep_view() == self.aliases.deep_view(),
            m.version is None,
            m.homepage is None,
            m.license is None,
            m.update_url is None,
            m.manifest_url is None,
            m.min_runtime_version is None,
            m.notes@.len() == 0,
            m.legacy_filenames@.len() == 0,
    {
        PluginManifest {
            name: self.name.clone(),
            backend: self.backend,
            source: self.source.clone(),
            description: clone_opt(&self.description),
            aliases: clone_strings(&self.aliases),
            version: None,
            homepage: None,
            license: None,
            update_url: None,
            manifest_url: None,
            min_runtime_version: None,
            notes: Vec::new(),
            legacy_filenames: Vec::new(),
        }
    }
}

/// Errors returned by registry services.
#[derive(Debug, Clone, PartialEq, Eq)]
pub enum RegistryError {
    /// An I/O operation failed, with its message.
    Io(String),
    /// A JSON file could not be parsed.
    Json { path: String, message: String },
}

/// The human readable message of a registry error.
pub open spec fn registry_error_text(e: RegistryError) -> Seq<char> {
    match e {
        RegistryError::Io(text) => text@,
        RegistryError::Json { path, message } => "failed to parse JSON file at "@ + path@ + ": "@
            + message@,
    }
}

impl RegistryError {
    /// The human readable message of the error.
    pub fn message(&self) -> (m: String)
        ensures
            m@ == registry_error_text(*self),
    {
        match self {
            RegistryError::Io(text) => text.clone(),
            RegistryError::Json { path, message } => {
                let mut m = copy_str("failed to parse JSON file at ");
                m.append(path.as_str());
                m.append(": ");
                m.append(message.as_str());
                m
            },
        }
    }
}

/// Filesystem locations of registry metadata under a `vs` home.
#[derive(Debug, Clone)]
pub struct RegistryStore {
    home: String,
}

impl RegistryStore {
    /// Creates a new store rooted at the provided home.
    pub fn new(home: &str) -> (s: RegistryStore)
        ensures
            s.home_spec() == home@,
    {
        RegistryStore { home: copy_str(home) }
    }

    pub closed spec fn home_spec(&self) -> Seq<char> {
        self.home@
    }

    /// The home the store is rooted at.
    pub fn home(&self) -> (h: &str)
        ensures
            h@ == self.home_spec(),
    {
        self.home.as_str()
    }

    /// `home/registry/index.json`: the searchable index.
    pub fn available_path(&self) -> (p: String)
        ensures
            p@ == path_join(path_join(self.home_spec(), "registry"@), "index.json"@),
    {
        let dir = join_path(self.home.as_str(), "registry");
        join_path(dir.as_str(), "index.json")
    }

    /// `home/plugins/entries.json`: plugins added to the home.
    pub fn added_path(&self) -> (p: String)
        ensures
            p@ == path_join(path_join(self.home_spec(), "plugins"@), "entries.json"@),
    {
        let dir = join_path(self.home.as_str(), "plugins");
        join_path(dir.as_str(), "entries.json")
    }
}

/// What reading one of the store's JSON lists from disk gave.
#[derive(Debug, Clone)]
pub enum StoredList {
    /// The file does not exist.
    Missing,
    /// The file could not be read, with the message.
    Unreadable(String),
    /// The file is not a JSON list of entries, with the parser's message.
    Malformed(String),
    /// The entries the file holds.
    Parsed(Vec<RegistryEntry>),
}

/// The outcome of loading a stored list from `path`: a missing file is an empty list,
/// a read failure an I/O error, a parse failure a JSON error naming the file.
pub open spec fn loaded(path: Seq<char>, stored: StoredList, r: Result<Vec<RegistryEntry>, RegistryError>) -> bool {
    match stored {
        StoredList::Missing => r matches Ok(v) && v@.len() == 0,
        StoredList::Unreadable(m) => r matches Err(RegistryError::Io(e)) && e@ == m@,
        StoredList::Malformed(m) => r matches Err(RegistryError::Json { path: p, message }) && p@
            == path && message@ == m@,
        StoredList::Parsed(v) => r matches Ok(w) && w == v,
    }
}

fn load_list(path: String, stored: StoredList) -> (r: Result<Vec<RegistryEntry>, RegistryError>)
    ensures
        loaded(path@, stored, r),
{
    match stored {
        StoredList::Missing => Ok(Vec::new()),
        StoredList::Unreadable(m) => Err(RegistryError::Io(m)),
        StoredList::Malformed(m) => Err(RegistryError::Json { path, message: m }),
        StoredList::Parsed(v) => Ok(v),
    }
}

impl RegistryStore {
    /// Loads the searchable plugin index from what reading `available_path` gave.
    pub fn load_available(&self, stored: StoredList) -> (r: Result<Vec<RegistryEntry>, RegistryError>)
        ensures
            loaded(path_join(path_join(self.home_spec(), "registry"@), "index.json"@), stored, r),
    {
        load_list(self.available_path(), stored)
    }

    /// Loads the plugins added to the home from what reading `added_path` gave.
    pub fn load_added(&self, stored: StoredList) -> (r: Result<Vec<RegistryEntry>, RegistryError>)
        ensures
            loaded(path_join(path_join(self.home_spec(), "plugins"@), "entries.json"@), stored, r),
    {
        load_list(self.added_path(), stored)
    }
}

// ---------------------------------------------------------------------------
// Lookup
// ---------------------------------------------------------------------------

/// The index of the first entry that answers to `q`.
pub open spec fn first_match(s: Seq<RegistryEntryView>, q: Seq<char>) -> Option<int>
    decreases s.len(),
{
    if s.len() == 0 {
        None
    } else {
        match first_match(s.drop_last(), q) {
            Some(i) => Some(i),
            None => if entry_matches(s.last(), q) {
                Some(s.len() - 1)
            } else {
                None
            },
        }
    }
}

pub proof fn lemma_first_match(s: Seq<RegistryEntryView>, q: Seq<char>)
    ensures
        match first_match(s, q) {
            Some(i) => 0 <= i < s.len() && entry_matches(s[i], q) && forall|j: int|
                0 <= j < i ==> !entry_matches(#[trigger] s[j], q),
            None => forall|j: int| 0 <= j < s.len() ==> !entry_matches(#[trigger] s[j], q),
        },
    decreases s.len(),
{
    if s.len() > 0 {
        let t = s.drop_last();
        lemma_first_match(t, q);
        match first_match(t, q) {
            Some(i) => {
                assert forall|j: int| 0 <= j < i implies !entry_matches(#[trigger] s[j], q) by {
                    assert(s[j] == t[j]);
                }
                assert(s[i] == t[i]);
            },
            None => {
                assert forall|j: int| 0 <= j < s.len() - 1 implies !entry_matches(#[trigger] s[j], q) by {
                    assert(s[j] == t[j]);
                }
            },
        }
    }
}

fn find_first(entries: &Vec<RegistryEntry>, q: &str) -> (r: Option<usize>)
    ensures
        match r {
            Some(i) => first_match(entries.deep_view(), q@) == Some(i as int) && i < entries@.len(),
            None => first_match(entries.deep_view(), q@) is None,
        },
{
    proof {
        lemma_first_match(entries.deep_view(), q@);
    }
    let ghost s = entries.deep_view();
    let mut i: usize = 0;
    while i < entries.len()
        invariant
            i <= entries@.len(),
            s == entries.deep_view(),
            first_match(s.take(i as int), q@) is None,
        decreases entries@.len() - i,
    {
        assert(s.take(i + 1).drop_last() =~= s.take(i as int));
        assert(s.take(i + 1).last() == s[i as int]);
        if entries[i].matches(q) {
            proof {
                lemma_first_match(s, q@);
                lemma_first_match(s.take(i + 1), q@);
                match first_match(s, q@) {
                    Some(k) => {
                        if k < i {
                            lemma_first_match(s.take(i as int), q@);
                            assert(s.take(i as int)[k] == s[k]);
                        } else if k > i {
                            assert(!entry_matches(s[i as int], q@));
                        }
                    },
                    None => {
                        assert(!entry_matches(s[i as int], q@));
                    },
                }
            }
            return Some(i);
        }
        i += 1;
    }
    assert(s.take(entries@.len() as int) =~= s);
    None
}

// ---------------------------------------------------------------------------
// Ordering by name
// ---------------------------------------------------------------------------

/// Entries are ordered by name.
pub open spec fn name_le() -> spec_fn(RegistryEntryView, RegistryEntryView) -> bool {
    |a: RegistryEntryView, b: RegistryEntryView| seq_le(a.name, b.name)
}

pub proof fn lemma_name_le_total_preorder()
    ensures
        is_total(name_le()),
        is_transitive(name_le()),
{
    assert forall|a: RegistryEntryView, b: RegistryEntryView| #[trigger]
        name_le()(a, b) || name_le()(b, a) by {
        lemma_seq_le_total(a.name, b.name);
    }
    assert forall|a: RegistryEntryView, b: RegistryEntryView, c: RegistryEntryView| #[trigger]
        name_le()(a, b) && #[trigger] name_le()(b, c) implies name_le()(a, c) by {
        lemma_seq_le_trans(a.name, b.name, c.name);
    }
}

fn entry_name_le(a: &RegistryEntry, b: &RegistryEntry) -> (r: bool)
    ensures
        r == name_le()(a.deep_view(), b.deep_view()),
{
    let an = chars_of(a.name.as_str());
    let bn = chars_of(b.name.as_str());
    chars_le(&an, &bn)
}

/// Stable sort of entries by name (`sort_by` on `name`).
pub fn sort_by_name(v: Vec<RegistryEntry>) -> (r: Vec<RegistryEntry>)
    ensures
        r.deep_view() == sort_seq(v.deep_view(), name_le()),
{
    sort_stable(v, entry_name_le, Ghost(name_le()))
}

// ---------------------------------------------------------------------------
// The service
// ---------------------------------------------------------------------------

/// The added list after adding `e`: it replaces the first entry that answers to its
/// name (or is appended), then the list is sorted by name.
pub open spec fn added_after_add(added: Seq<RegistryEntryView>, e: RegistryEntryView) -> Seq<
    RegistryEntryView,
> {
    let base = match first_match(added, e.name) {
        Some(i) => added.update(i, e),
        None => added.push(e),
    };
    sort_seq(base, name_le())
}

/// Keeps the entries that do not answer to `name`.
pub open spec fn retain_not_matching(s: Seq<RegistryEntryView>, name: Seq<char>) -> Seq<
    RegistryEntryView,
>
    decreases s.len(),
{
    if s.len() == 0 {
        s
    } else if entry_matches(s.last(), name) {
        retain_not_matching(s.drop_last(), name)
    } else {
        retain_not_matching(s.drop_last(), name).push(s.last())
    }
}

/// The search predicate: the lowercase query occurs in the lowercase name,
/// description or one of the aliases.
pub open spec fn search_hit(e: RegistryEntryView, query: Seq<char>) -> bool {
    let q = lower_seq(query);
    ||| contains_seq(lower_seq(e.name), q)
    ||| contains_seq(
        lower_seq(
            match e.description {
                Some(d) => d,
                None => Seq::empty(),
            },
        ),
        q,
    )
    ||| exists|k: int| 0 <= k < e.aliases.len() && contains_seq(lower_seq(#[trigger] e.aliases[k]), q)
}

pub open spec fn search_filter(s: Seq<RegistryEntryView>, query: Seq<char>) -> Seq<RegistryEntryView>
    decreases s.len(),
{
    if s.len() == 0 {
        s
    } else if search_hit(s.last(), query) {
        search_filter(s.drop_last(), query).push(s.last())
    } else {
        search_filter(s.drop_last(), query)
    }
}

/// Resolution: the first added entry that answers to `name`, else the first index
/// entry that does.
pub open spec fn resolve_spec(
    added: Seq<RegistryEntryView>,
    available: Seq<RegistryEntryView>,
    name: Seq<char>,
) -> Option<RegistryEntryView> {
    match first_match(added, name) {
        Some(i) => Some(added[i]),
        None => match first_match(available, name) {
            Some(j) => Some(available[j]),
            None => None,
        },
    }
}

/// High-level registry operations over the two lists a home keeps: the entries
/// added to it and the searchable index.
#[derive(Debug, Clone)]
pub struct RegistryService {
    store: RegistryStore,
}

impl RegistryService {
    /// Creates a registry service rooted at a `vs` home.
    pub fn new(home: &str) -> (s: RegistryService)
        ensures
            s.store_spec().home_spec() == home@,
    {
        RegistryService { store: RegistryStore::new(home) }
    }

    pub closed spec fn store_spec(&self) -> RegistryStore {
        self.store
    }

    /// The store that holds the two lists.
    pub fn store(&self) -> (s: &RegistryStore)
        ensures
            *s == self.store_spec(),
    {
        &self.store
    }

    /// Returns the searchable plugin index, from what reading it gave.
    pub fn available_plugins(&self, stored: StoredList) -> (r: Result<Vec<RegistryEntry>, RegistryError>)
        ensures
            loaded(
                path_join(path_join(self.store_spec().home_spec(), "registry"@), "index.json"@),
                stored,
                r,
            ),
    {
        self.store.load_available(stored)
    }

    /// Returns the plugins added to the home, from what reading them gave.
    pub fn added_plugins(&self, stored: StoredList) -> (r: Result<Vec<RegistryEntry>, RegistryError>)
        ensures
            loaded(
                path_join(path_join(self.store_spec().home_spec(), "plugins"@), "entries.json"@),
                stored,
                r,
            ),
    {
        self.store.load_added(stored)
    }

    /// The added list after adding a plugin entry: the entry replaces the first
    /// added entry that answers to its name, or is appended; the list is then
    /// sorted by name.
    pub fn add_plugin(added: Vec<RegistryEntry>, entry: RegistryEntry) -> (r: Vec<RegistryEntry>)
        ensures
            r.deep_view() == added_after_add(added.deep_view(), entry.deep_view()),
    {
        let ghost s = added.deep_view();
        let mut entries = added;
        let found = find_first(&entries, entry.name.as_str());
        let ghost ev = entry.deep_view();
        let ghost base = match first_match(s, ev.name) {
            Some(k) => s.update(k, ev),
            None => s.push(ev),
        };
        match found {
            Some(i) => {
                entries.set(i, entry);
                assert(entries.deep_view() =~= s.update(i as int, ev));
            },
            None => {
                entries.push(entry);
                assert(entries.deep_view() =~= s.push(ev));
            },
        }
        assert(entries.deep_view() == base);
        sort_by_name(entries)
    }

    /// The added list after removing every entry that answers to `name`, and
    /// whether one did.
    pub fn remove_plugin(added: Vec<RegistryEntry>, name: &str) -> (r: (Vec<RegistryEntry>, bool))
        ensures
            r.0.deep_view() == retain_not_matching(added.deep_view(), name@),
            r.1 == (r.0@.len() != added@.len()),
    {
        let ghost s = added.deep_view();
        let before = added.len();
        let mut rest = added;
        assert(before == s.len());
        let mut kept: Vec<RegistryEntry> = Vec::new();
        let mut i: usize = 0;
        while rest.len() > 0
            invariant
                i + rest@.len() == s.len(),
                before == s.len(),
                rest.deep_view() == s.skip(i as int),
                kept.deep_view() == retain_not_matching(s.take(i as int), name@),
            decreases rest@.len(),
        {
            let x = rest.remove(0);
            assert(x.deep_view() == s[i as int]);
            assert(rest.deep_view() =~= s.skip(i + 1));
            assert(s.take(i + 1).drop_last() =~= s.take(i as int));
            let ghost before_kept = kept.deep_view();
            if !x.matches(name) {
                let ghost xv = x.deep_view();
                kept.push(x);
                assert(kept.deep_view() =~= before_kept.push(xv));
            }
            i += 1;
        }
        assert(s.take(i as int) =~= s);
        let removed = kept.len() != before;
        (kept, removed)
    }

    /// The index entries whose name, description or an alias contains the query,
    /// compared in ASCII lowercase; the order is kept.
    pub fn search(available: Vec<RegistryEntry>, query: &str) -> (r: Vec<RegistryEntry>)
        ensures
            r.deep_view() == search_filter(available.deep_view(), query@),
    {
        let ghost s = available.deep_view();
        let n = available.len();
        let q = to_ascii_lowercase(query);
        let qv = chars_of(q.as_str());
        let mut rest = available;
        let mut kept: Vec<RegistryEntry> = Vec::new();
        let mut i: usize = 0;
        while rest.len() > 0
            invariant
                i + rest@.len() == s.len(),
                rest.deep_view() == s.skip(i as int),
                kept.deep_view() == search_filter(s.take(i as int), query@),
                n == s.len(),
                qv@ == lower_seq(query@),
            decreases rest@.len(),
        {
            let x = rest.remove(0);
            assert(x.deep_view() == s[i as int]);
            assert(rest.deep_view() =~= s.skip(i + 1));
            assert(s.take(i + 1).drop_last() =~= s.take(i as int));
            let hit = entry_search_hit(&x, &qv, Ghost(query@));
            let ghost before_kept = kept.deep_view();
            if hit {
                let ghost xv = x.deep_view();
                kept.push(x);
                assert(kept.deep_view() =~= before_kept.push(xv));
            }
            i += 1;
        }
        assert(s.take(i as int) =~= s);
        kept
    }

    /// Finds a plugin by exact name or alias, searching the added entries before
    /// the index.
    pub fn resolve(added: &Vec<RegistryEntry>, available: &Vec<RegistryEntry>, name: &str) -> (r:
        Option<RegistryEntry>)
        ensures
            r.deep_view() == resolve_spec(added.deep_view(), available.deep_view(), name@),
    {
        match find_first(added, name) {
            Some(i) => {
                let e = added[i].duplicate();
                assert(added.deep_view()[i as int] == added[i as int].deep_view());
                Some(e)
            },
            None => match find_first(available, name) {
                Some(j) => {
                    let e = available[j].duplicate();
                    assert(available.deep_view()[j as int] == available[j as int].deep_view());
                    Some(e)
                },
                None => None,
            },
        }
    }
}

fn entry_search_hit(e: &RegistryEntry, q: &Vec<char>, Ghost(query): Ghost<Seq<char>>) -> (r: bool)
    requires
        q@ == lower_seq(query),
    ensures
        r == search_hit(e.deep_view(), query),
{
    let name = to_ascii_lowercase(e.name.as_str());
    let nv = chars_of(name.as_str());
    if chars_contain(&nv, q) {
        return true;
    }
    let desc = match &e.description {
        Some(d) => to_ascii_lowercase(d.as_str()),
        None => String::new(),
    };
    let dv = chars_of(desc.as_str());
    proof {
        if e.description is None {
            assert(lower_seq(Seq::<char>::empty()) =~= Seq::<char>::empty());
        }
    }
    if chars_contain(&dv, q) {
        return true;
    }
    let mut k: usize = 0;
    while k < e.aliases.len()
        invariant
            k <= e.aliases@.len(),
            q@ == lower_seq(query),
            forall|x: int|
                0 <= x < k ==> !contains_seq(lower_seq(#[trigger] e.aliases.deep_view()[x]), q@),
        decreases e.aliases@.len() - k,
    {
        let a = to_ascii_lowercase(e.aliases[k].as_str());
        let av = chars_of(a.as_str());
        if chars_contain(&av, q) {
            assert(contains_seq(lower_seq(e.aliases.deep_view()[k as int]), q@));
            assert(e.deep_view().aliases[k as int] == e.aliases.deep_view()[k as int]);
            return true;
        }
        k += 1;
    }
    false
}

// ---------------------------------------------------------------------------
// Laws
// ---------------------------------------------------------------------------

/// Resolution prefers the added entries: when an added entry answers to the name,
/// the first such entry is what resolves, whatever the index holds.
pub proof fn law_resolve_prefers_added(
    added: Seq<RegistryEntryView>,
    available: Seq<RegistryEntryView>,
    name: Seq<char>,
    i: int,
)
    requires
        0 <= i < added.len(),
        entry_matches(added[i], name),
        forall|j: int| 0 <= j < i ==> !entry_matches(#[trigger] added[j], name),
    ensures
        resolve_spec(added, available, name) == Some(added[i]),
{
    lemma_first_match(added, name);
    match first_match(added, name) {
        Some(k) => {
            if k < i {
                assert(!entry_matches(added[k], name));
            } else if k > i {
                assert(!entry_matches(added[i], name));
            }
        },
        None => {
            assert(!entry_matches(added[i], name));
        },
    }
}

/// What an add writes is what resolution then reads back: when at most one added
/// entry answered to the new entry's name, resolving that name after the add gives
/// the new entry.
pub proof fn law_add_then_resolve(
    added: Seq<RegistryEntryView>,
    available: Seq<RegistryEntryView>,
    e: RegistryEntryView,
)
    requires
        forall|a: int, b: int|
            0 <= a < added.len() && 0 <= b < added.len() && entry_matches(#[trigger] added[a], e.name)
                && entry_matches(#[trigger] added[b], e.name) ==> a == b,
    ensures
        resolve_spec(added_after_add(added, e), available, e.name) == Some(e),
{
    lemma_first_match(added, e.name);
    let base = match first_match(added, e.name) {
        Some(i) => added.update(i, e),
        None => added.push(e),
    };
    assert(entry_matches(e, e.name));
    assert(base.contains(e)) by {
        match first_match(added, e.name) {
            Some(i) => {
                assert(base[i] == e);
            },
            None => {
                assert(base[added.len() as int] == e);
            },
        }
    }
    assert forall|k: int| 0 <= k < base.len() && entry_matches(#[trigger] base[k], e.name) implies base[k]
        == e by {
        match first_match(added, e.name) {
            Some(i) => {
                if k != i {
                    assert(base[k] == added[k]);
                }
            },
            None => {
                if k < added.len() {
                    assert(base[k] == added[k]);
                }
            },
        }
    }
    let r = sort_seq(base, name_le());
    lemma_sort_permutation(base, name_le());
    assert(r.to_multiset().count(e) > 0) by {
        vstd::seq_lib::to_multiset_contains(base, e);
    }
    assert(r.contains(e)) by {
        vstd::seq_lib::to_multiset_contains(r, e);
    }
    lemma_first_match(r, e.name);
    match first_match(r, e.name) {
        Some(k) => {
            assert(r.to_multiset().count(r[k]) > 0) by {
                vstd::seq_lib::to_multiset_contains(r, r[k]);
            }
            assert(base.contains(r[k])) by {
                vstd::seq_lib::to_multiset_contains(base, r[k]);
            }
            let m = choose|m: int| 0 <= m < base.len() && base[m] == r[k];
            assert(entry_matches(base[m], e.name));
        },
        None => {
            let m = choose|m: int| 0 <= m < r.len() && r[m] == e;
            assert(entry_matches(r[m], e.name));
        },
    }
}

/// After an add the added list is ordered by name, and it holds the same entries as
/// the list before (with the new entry in place of the replaced one).
pub proof fn law_add_keeps_list_sorted(added: Seq<RegistryEntryView>, e: RegistryEntryView)
    ensures
        sorted_by(added_after_add(added, e), name_le()),
        added_after_add(added, e).to_multiset() == (match first_match(added, e.name) {
            Some(i) => added.update(i, e),
            None => added.push(e),
        }).to_multiset(),
{
    lemma_name_le_total_preorder();
    let base = match first_match(added, e.name) {
        Some(i) => added.update(i, e),
        None => added.push(e),
    };
    lemma_sort_sorted(base, name_le());
    lemma_sort_permutation(base, name_le());
}

pub proof fn lemma_retain(s: Seq<RegistryEntryView>, name: Seq<char>)
    ensures
        forall|k: int|
            0 <= k < retain_not_matching(s, name).len() ==> !entry_matches(
                #[trigger] retain_not_matching(s, name)[k],
                name,
            ),
        retain_not_matching(s, name).len() == s.len() <==> forall|k: int|
            0 <= k < s.len() ==> !entry_matches(#[trigger] s[k], name),
        retain_not_matching(s, name).len() <= s.len(),
    decreases s.len(),
{
    if s.len() > 0 {
        let t = s.drop_last();
        lemma_retain(t, name);
        if (forall|k: int| 0 <= k < s.len() ==> !entry_matches(#[trigger] s[k], name)) {
            assert forall|k: int| 0 <= k < t.len() implies !entry_matches(#[trigger] t[k], name) by {
                assert(t[k] == s[k]);
            }
            assert(!entry_matches(s[s.len() - 1], name));
        }
        if !entry_matches(s.last(), name) && retain_not_matching(t, name).len() == t.len() {
            assert forall|k: int| 0 <= k < s.len() implies !entry_matches(#[trigger] s[k], name) by {
                if k < t.len() {
                    assert(t[k] == s[k]);
                }
            }
        }
    }
}

/// Removing a plugin leaves no added entry that answers to the name, and it reports
/// a removal exactly when some entry did answer to it.
pub proof fn law_remove_forgets_name(added: Seq<RegistryEntryView>, name: Seq<char>)
    ensures
        first_match(retain_not_matching(added, name), name) is None,
        (retain_not_matching(added, name).len() != added.len()) == (first_match(added, name) is Some),
{
    lemma_retain(added, name);
    lemma_first_match(retain_not_matching(added, name), name);
    lemma_first_match(added, name);
    let r = retain_not_matching(added, name);
    if first_match(r, name) is Some {
        let k = first_match(r, name)->0;
        assert(!entry_matches(r[k], name));
    }
    if first_match(added, name) is Some {
        let k = first_match(added, name)->0;
        assert(entry_matches(added[k], name));
    }
}

proof fn lemma_search_filter_members(s: Seq<RegistryEntryView>, query: Seq<char>)
    ensures
        forall|e: RegistryEntryView|
            #[trigger] search_filter(s, query).contains(e) <==> s.contains(e) && search_hit(e, query),
    decreases s.len(),
{
    if s.len() > 0 {
        let d = s.drop_last();
        lemma_search_filter_members(d, query);
        assert forall|e: RegistryEntryView|
            #[trigger] search_filter(s, query).contains(e) <==> s.contains(e) && search_hit(e, query) by {
            if s.contains(e) {
                let i = choose|i: int| 0 <= i < s.len() && s[i] == e;
                if i < s.len() - 1 {
                    assert(d[i] == e);
                    assert(d.contains(e));
                }
            }
            if d.contains(e) {
                let i = choose|i: int| 0 <= i < d.len() && d[i] == e;
                assert(s[i] == e);
            }
            if search_hit(s.last(), query) {
                let f = search_filter(d, query);
                assert(f.push(s.last())[f.len() as int] == s.last());
                if f.contains(e) {
                    let i = choose|i: int| 0 <= i < f.len() && f[i] == e;
                    assert(f.push(s.last())[i] == e);
                }
                if f.push(s.last()).contains(e) && e != s.last() {
                    let i = choose|i: int| 0 <= i < f.len() + 1 && f.push(s.last())[i] == e;
                    assert(f[i] == e);
                }
            }
        }
    }
}

/// Search keeps exactly the index entries whose name, description or one of whose
/// aliases contains the query, all compared in ASCII lowercase: an entry found only
/// by an alias (`java` with alias `jdk`, queried as `JDK`) is a hit too.
pub proof fn law_search_keeps_matching_entries(available: Seq<RegistryEntryView>, query: Seq<char>)
    ensures
        forall|e: RegistryEntryView|
            #[trigger] search_filter(available, query).contains(e) <==> available.contains(e) && (
            contains_seq(lower_seq(e.name), lower_seq(query)) || (e.description matches Some(d)
                && contains_seq(lower_seq(d), lower_seq(query))) || exists|k: int|
                0 <= k < e.aliases.len() && contains_seq(lower_seq(#[trigger] e.aliases[k]), lower_seq(query))),
{
    lemma_search_filter_members(available, query);
    assert forall|e: RegistryEntryView|
        #[trigger] search_filter(available, query).contains(e) <==> available.contains(e) && (
        contains_seq(lower_seq(e.name), lower_seq(query)) || (e.description matches Some(d)
            && contains_seq(lower_seq(d), lower_seq(query))) || exists|k: int|
            0 <= k < e.aliases.len() && contains_seq(lower_seq(#[trigger] e.aliases[k]), lower_seq(query))) by {
        let q = lower_seq(query);
        if q.len() == 0 {
            assert(lower_seq(e.name).subrange(0, 0) =~= q);
            assert(occurs_at(lower_seq(e.name), q, 0));
        }
    }
}

} // verus!
