//! The decisions of the application layer: where plugin sources point, how added
//! entries are named, which scope a `use` writes to, what `exec` searches, and what
//! an uninstall leaves active.
use vstd::prelude::*;

use crate::core_model::{CoreError, CurrentTool, CurrentToolView, Scope, UninstallResult, UseScope};
use crate::model::{AvailableVersion, EnvKey, PluginBackendKind, PluginManifest};
use crate::order::{
    first_index, insert_unique_sorted, lemma_first_index, lemma_first_index_at, seq_le, sort_seq,
    sort_stable, strictly_sorted,
};
use crate::paths::{is_absolute, is_absolute_path, join_path, path_join};
use crate::registry::RegistryEntry;
use crate::shell::{
    apply_env_keys, apply_env_keys_spec, env_key_pairs, global_current_dir, install_dir,
    install_dir_spec, project_sdk_dir, EnvDelta,
};
use crate::text::{
    chars_of, clone_opt, clone_strings, contains_seq, copy_str, ends_with, has_char, is_prefix_of,
    is_suffix_of, join, join_seq, keep_non_empty, lines, lines_seq, non_empty_pieces, split_chars,
    split_seq, starts_with, str_eq, trim, trim_seq, CharClass,
};

verus! {

broadcast use vstd::seq_lib::group_seq_properties;

// ---------------------------------------------------------------------------
// Sources
// ---------------------------------------------------------------------------

/// Official vfox Lua plugin registry index.
pub const DEFAULT_VFOX_REGISTRY_SOURCE: &'static str =
    "https://version-fox.github.io/vfox-plugins/index.json";

/// A source is remote when it is an `http://` or `https://` URL.
pub open spec fn is_remote(source: Seq<char>) -> bool {
    is_prefix_of("http://"@, source) || is_prefix_of("https://"@, source)
}

/// Returns whether a source string points to a remote HTTP resource.
pub fn is_remote_source(source: &str) -> (r: bool)
    ensures
        r == is_remote(source@),
{
    starts_with(source, "http://") || starts_with(source, "https://")
}

/// Returns whether a registry source is remote.
pub fn is_remote_registry_source(source: &str) -> (r: bool)
    ensures
        r == is_remote(source@),
{
    starts_with(source, "http://") || starts_with(source, "https://")
}

/// A local source path resolved against the working directory.
pub fn normalize_source_path(cwd: &str, source: &str) -> (r: String)
    ensures
        r@ == path_join(cwd@, source@),
{
    if is_absolute(source) {
        copy_str(source)
    } else {
        join_path(cwd, source)
    }
}

/// An entry of a vfox registry index.
#[derive(Debug, Clone, PartialEq, Eq)]
pub struct VfoxRegistryEntry {
    pub name: String,
    pub description: Option<String>,
    pub download_url: Option<String>,
    pub aliases: Vec<String>,
}

/// The registry entry a vfox index entry stands for: a Lua plugin downloaded from its
/// URL; entries without a download URL stand for none.
pub open spec fn vfox_entry_matches(v: VfoxRegistryEntry, e: RegistryEntry) -> bool {
    &&& v.download_url is Some
    &&& e.name@ == v.name@
    &&& e.source@ == v.download_url->0@
    &&& e.backend == PluginBackendKind::Lua
    &&& e.description.deep_view() == v.description.deep_view()
    &&& e.aliases.deep_view() == v.aliases.deep_view()
}

/// The vfox entries that have a download URL.
pub open spec fn with_download_url(s: Seq<VfoxRegistryEntry>) -> Seq<VfoxRegistryEntry> {
    s.filter(|v: VfoxRegistryEntry| v.download_url is Some)
}

/// Turns a vfox registry index into registry entries, dropping the entries without a
/// download URL and keeping the order.
pub fn registry_entries_from_vfox(entries: &Vec<VfoxRegistryEntry>) -> (r: Vec<RegistryEntry>)
    ensures
        r@.len() == with_download_url(entries@).len(),
        forall|k: int|
            0 <= k < r@.len() ==> vfox_entry_matches(with_download_url(entries@)[k], #[trigger] r@[k]),
{
    let ghost s = entries@;
    let ghost keep = |v: VfoxRegistryEntry| v.download_url is Some;
    let mut r: Vec<RegistryEntry> = Vec::new();
    let mut i: usize = 0;
    while i < entries.len()
        invariant
            i <= s.len(),
            s == entries@,
            keep == (|v: VfoxRegistryEntry| v.download_url is Some),
            r@.len() == s.take(i as int).filter(keep).len(),
            forall|k: int|
                0 <= k < r@.len() ==> vfox_entry_matches(s.take(i as int).filter(keep)[k], #[trigger] r@[k]),
        decreases s.len() - i,
    {
        proof {
            s.take(i as int).lemma_filter_push(s[i as int], keep);
            assert(s.take(i + 1) =~= s.take(i as int).push(s[i as int]));
        }
        let v = &entries[i];
        match &v.download_url {
            Some(url) => {
                let e = RegistryEntry {
                    name: v.name.clone(),
                    source: url.clone(),
                    backend: PluginBackendKind::Lua,
                    description: clone_opt(&v.description),
                    aliases: clone_strings(&v.aliases),
                };
                r.push(e);
            },
            None => {},
        }
        i += 1;
    }
    assert(s.take(i as int) =~= s);
    r
}

/// Registry sources that are relative paths are taken relative to the directory of
/// the local index that lists them.
pub open spec fn rebased(source: Seq<char>, base_dir: Seq<char>) -> Seq<char> {
    if is_absolute_path(source) {
        source
    } else {
        path_join(base_dir, source)
    }
}

/// Rebases the relative sources of entries read from a local index at `base_dir`.
pub fn rebase_relative_sources(entries: Vec<RegistryEntry>, base_dir: &str) -> (r: Vec<
    RegistryEntry,
>)
    ensures
        r@.len() == entries@.len(),
        forall|k: int|
            0 <= k < r@.len() ==> {
                &&& (#[trigger] r@[k]).source@ == rebased(entries@[k].source@, base_dir@)
                &&& r@[k].name@ == entries@[k].name@
                &&& r@[k].backend == entries@[k].backend
                &&& r@[k].description == entries@[k].description
                &&& r@[k].aliases == entries@[k].aliases
            },
{
    let ghost s = entries@;
    let mut rest = entries;
    let n = rest.len();
    let mut r: Vec<RegistryEntry> = Vec::new();
    let mut i: usize = 0;
    while rest.len() > 0
        invariant
            n == s.len(),
            i + rest@.len() == s.len(),
            rest@ == s.skip(i as int),
            r@.len() == i,
            forall|k: int|
                0 <= k < i ==> {
                    &&& (#[trigger] r@[k]).source@ == rebased(s[k].source@, base_dir@)
                    &&& r@[k].name@ == s[k].name@
                    &&& r@[k].backend == s[k].backend
                    &&& r@[k].description == s[k].description
                    &&& r@[k].aliases == s[k].aliases
                },
        decreases rest@.len(),
    {
        let mut e = rest.remove(0);
        assert(e == s[i as int]);
        assert(rest@ =~= s.skip(i + 1));
        if !is_absolute(e.source.as_str()) {
            e.source = join_path(base_dir, e.source.as_str());
        }
        r.push(e);
        i += 1;
    }
    r
}

// ---------------------------------------------------------------------------
// Adding plugins
// ---------------------------------------------------------------------------

/// An alias is kept trimmed, and only when it is not blank.
pub open spec fn push_alias_spec(aliases: Seq<Seq<char>>, alias: Option<Seq<char>>) -> Seq<
    Seq<char>,
> {
    match alias {
        Some(a) => if trim_seq(a).len() > 0 {
            aliases.push(trim_seq(a))
        } else {
            aliases
        },
        None => aliases,
    }
}

/// Appends a trimmed, non-blank alias.
pub fn push_alias(aliases: &mut Vec<String>, alias: Option<&str>)
    ensures
        final(aliases).deep_view() == push_alias_spec(
            old(aliases).deep_view(),
            match alias {
                Some(a) => Some(a@),
                None => None,
            },
        ),
{
    match alias {
        Some(a) => {
            let t = trim(a);
            if !t.as_str().is_empty() {
                let ghost before = aliases.deep_view();
                aliases.push(t);
                assert(aliases.deep_view() =~= before.push(trim_seq(a@)));
            }
        },
        None => {},
    }
}

pub open spec fn opt_view(o: Option<&str>) -> Option<Seq<char>> {
    match o {
        Some(s) => Some(s@),
        None => None,
    }
}

/// Drops every occurrence of `x`.
pub open spec fn without(s: Seq<Seq<char>>, x: Seq<char>) -> Seq<Seq<char>> {
    s.filter(|y: Seq<char>| y != x)
}

fn remove_all(v: Vec<String>, x: &str) -> (r: Vec<String>)
    ensures
        r.deep_view() == without(v.deep_view(), x@),
{
    let ghost s = v.deep_view();
    let ghost keep = |y: Seq<char>| y != x@;
    let mut r: Vec<String> = Vec::new();
    let mut i: usize = 0;
    while i < v.len()
        invariant
            i <= s.len(),
            s == v.deep_view(),
            keep == (|y: Seq<char>| y != x@),
            r.deep_view() == s.take(i as int).filter(keep),
        decreases s.len() - i,
    {
        proof {
            s.take(i as int).lemma_filter_push(s[i as int], keep);
            assert(s.take(i + 1) =~= s.take(i as int).push(s[i as int]));
        }
        assert(s[i as int] == v@[i as int]@);
        if !str_eq(v[i].as_str(), x) {
            let ghost before = r.deep_view();
            r.push(v[i].clone());
            assert(r.deep_view() =~= before.push(s[i as int]));
        }
        i += 1;
    }
    assert(s.take(i as int) =~= s);
    r
}

/// The entry a plugin added from an explicit source starts as, before the plugin is
/// loaded: named by the name, else the alias, else `plugin`; a local source is
/// resolved against the working directory.
pub fn seed_entry(
    name: Option<&str>,
    alias: Option<&str>,
    source: &str,
    backend: PluginBackendKind,
    cwd: &str,
) -> (e: RegistryEntry)
    ensures
        e.name@ == (match name {
            Some(n) => n@,
            None => match alias {
                Some(a) => a@,
                None => "plugin"@,
            },
        }),
        e.source@ == (if is_remote(source@) {
            source@
        } else {
            path_join(cwd@, source@)
        }),
        e.backend == backend,
        e.description is None,
        e.aliases@.len() == 0,
{
    let requested = match name {
        Some(n) => n,
        None => match alias {
            Some(a) => a,
            None => "plugin",
        },
    };
    let src = if is_remote_source(source) {
        copy_str(source)
    } else {
        normalize_source_path(cwd, source)
    };
    RegistryEntry {
        name: copy_str(requested),
        source: src,
        backend,
        description: None,
        aliases: Vec::new(),
    }
}

/// The name of a plugin added from an explicit source: the alias, else the requested
/// name, else the plugin's own name.
pub open spec fn source_add_name(name: Option<Seq<char>>, alias: Option<Seq<char>>, manifest_name: Seq<
    char,
>) -> Seq<char> {
    match alias {
        Some(a) => a,
        None => match name {
            Some(n) => n,
            None => manifest_name,
        },
    }
}

/// The aliases of a plugin added from an explicit source: the plugin's aliases, the
/// requested name and the plugin's name (trimmed, non-blank), without the final name.
pub open spec fn source_add_aliases(
    name: Option<Seq<char>>,
    manifest_name: Seq<char>,
    manifest_aliases: Seq<Seq<char>>,
    final_name: Seq<char>,
) -> Seq<Seq<char>> {
    without(push_alias_spec(push_alias_spec(manifest_aliases, name), Some(manifest_name)), final_name)
}

/// The registry entry of a plugin added from an explicit source, once the plugin
/// loaded from `source` reported its manifest.
pub fn entry_from_source(
    name: Option<&str>,
    alias: Option<&str>,
    source: &str,
    backend: PluginBackendKind,
    manifest: &PluginManifest,
) -> (e: RegistryEntry)
    ensures
        e.name@ == source_add_name(opt_view(name), opt_view(alias), manifest.name@),
        e.source@ == source@,
        e.backend == backend,
        e.description.deep_view() == manifest.description.deep_view(),
        e.aliases.deep_view() == source_add_aliases(
            opt_view(name),
            manifest.name@,
            manifest.aliases.deep_view(),
            e.name@,
        ),
{
    let final_name = match alias {
        Some(a) => copy_str(a),
        None => match name {
            Some(n) => copy_str(n),
            None => manifest.name.clone(),
        },
    };
    let mut aliases = clone_strings(&manifest.aliases);
    push_alias(&mut aliases, name);
    push_alias(&mut aliases, Some(manifest.name.as_str()));
    let aliases = remove_all(aliases, final_name.as_str());
    RegistryEntry {
        name: final_name,
        source: copy_str(source),
        backend,
        description: clone_opt(&manifest.description),
        aliases,
    }
}

/// The aliases of a plugin added by registry name: the entry's aliases, the requested
/// name, the plugin's name and the plugin's aliases, sorted without repeats and
/// without the final name.
pub open spec fn registry_add_alias_set(
    name: Seq<char>,
    entry_aliases: Seq<Seq<char>>,
    manifest_name: Seq<char>,
    manifest_aliases: Seq<Seq<char>>,
    final_name: Seq<char>,
) -> Set<Seq<char>> {
    (push_alias_spec(push_alias_spec(entry_aliases, Some(name)), Some(manifest_name))
        + manifest_aliases).to_set().remove(final_name)
}

/// A plugin added by registry name needs the name.
pub fn require_add_name(name: Option<&str>) -> (r: Result<String, CoreError>)
    ensures
        match name {
            Some(n) => r matches Ok(s) && s@ == n@,
            None => r matches Err(CoreError::Unsupported(m)) && m@
                == "add requires a plugin name unless --source is provided"@,
        },
{
    match name {
        Some(n) => Ok(copy_str(n)),
        None => Err(
            CoreError::Unsupported(
                copy_str("add requires a plugin name unless --source is provided"),
            ),
        ),
    }
}

/// A registry manifest found for a Lua plugin redirects its source to the download
/// URL, and supplies the description when it has one.
pub fn apply_registry_manifest(
    entry: &mut RegistryEntry,
    download_url: &str,
    description: Option<String>,
)
    ensures
        final(entry).source@ == download_url@,
        final(entry).description.deep_view() == (match description {
            Some(d) => Some(d@),
            None => old(entry).description.deep_view(),
        }),
        final(entry).name == old(entry).name,
        final(entry).backend == old(entry).backend,
        final(entry).aliases == old(entry).aliases,
{
    entry.source = copy_str(download_url);
    match description {
        Some(d) => {
            entry.description = Some(d);
        },
        None => {},
    }
}

/// The registry entry of a plugin added by registry name, once the plugin loaded from
/// `source` reported its manifest.
pub fn entry_from_registry(
    name: &str,
    alias: Option<&str>,
    entry: &RegistryEntry,
    source: &str,
    manifest: &PluginManifest,
) -> (e: RegistryEntry)
    ensures
        e.name@ == (match alias {
            Some(a) => a@,
            None => name@,
        }),
        e.source@ == source@,
        e.backend == entry.backend,
        e.description.deep_view() == (match manifest.description {
            Some(d) => Some(d@),
            None => entry.description.deep_view(),
        }),
        strictly_sorted(e.aliases.deep_view()),
        e.aliases.deep_view().to_set() == registry_add_alias_set(
            name@,
            entry.aliases.deep_view(),
            manifest.name@,
            manifest.aliases.deep_view(),
            e.name@,
        ),
{
    let final_name = match alias {
        Some(a) => copy_str(a),
        None => copy_str(name),
    };
    let mut all = clone_strings(&entry.aliases);
    push_alias(&mut all, Some(name));
    push_alias(&mut all, Some(manifest.name.as_str()));
    let ghost pushed = all.deep_view();
    let mut k: usize = 0;
    while k < manifest.aliases.len()
        invariant
            k <= manifest.aliases@.len(),
            all.deep_view() == pushed + manifest.aliases.deep_view().take(k as int),
        decreases manifest.aliases@.len() - k,
    {
        let ghost before = all.deep_view();
        let x = manifest.aliases[k].clone();
        assert(x@ == manifest.aliases.deep_view()[k as int]);
        all.push(x);
        assert(all.deep_view() =~= before.push(manifest.aliases.deep_view()[k as int]));
        assert(manifest.aliases.deep_view().take(k + 1) =~= manifest.aliases.deep_view().take(
            k as int,
        ).push(manifest.aliases.deep_view()[k as int]));
        assert(all.deep_view() =~= pushed + manifest.aliases.deep_view().take(k + 1));
        k += 1;
    }
    assert(manifest.aliases.deep_view().take(k as int) =~= manifest.aliases.deep_view());
    let ghost full = all.deep_view();
    let mut aliases: Vec<String> = Vec::new();
    let mut i: usize = 0;
    assert(aliases.deep_view().to_set() =~= full.take(0).to_set().remove(final_name@));
    while i < all.len()
        invariant
            i <= full.len(),
            full == all.deep_view(),
            strictly_sorted(aliases.deep_view()),
            aliases.deep_view().to_set() == full.take(i as int).to_set().remove(final_name@),
        decreases full.len() - i,
    {
        assert(full[i as int] == all@[i as int]@);
        proof {
            assert(full.take(i + 1) =~= full.take(i as int).push(full[i as int]));
            full.take(i as int).lemma_push_to_set_commute(full[i as int]);
        }
        if str_eq(all[i].as_str(), final_name.as_str()) {
            assert(full.take(i + 1).to_set().remove(final_name@) =~= full.take(i as int).to_set().remove(
                final_name@,
            ));
        } else {
            let ghost before = aliases.deep_view().to_set();
            insert_unique_sorted(&mut aliases, all[i].clone());
            assert(full.take(i + 1).to_set().remove(final_name@) =~= before.insert(full[i as int]));
        }
        i += 1;
    }
    assert(full.take(i as int) =~= full);
    let description = match &manifest.description {
        Some(d) => Some(d.clone()),
        None => clone_opt(&entry.description),
    };
    RegistryEntry { name: final_name, source: copy_str(source), backend: entry.backend, description, aliases }
}

// ---------------------------------------------------------------------------
// Using versions
// ---------------------------------------------------------------------------

/// The scope a `use` writes to: without shell hooks (no session id) the session
/// scope is refused, except on Windows where it falls back to the global scope.
pub fn verify_hook_env(has_session_id: bool, scope: UseScope, windows: bool) -> (r: Result<
    UseScope,
    CoreError,
>)
    ensures
        has_session_id ==> r == Ok::<UseScope, CoreError>(scope),
        !has_session_id && scope != UseScope::Session ==> r == Ok::<UseScope, CoreError>(scope),
        !has_session_id && scope == UseScope::Session && windows ==> r == Ok::<UseScope, CoreError>(
            UseScope::Global,
        ),
        !has_session_id && scope == UseScope::Session && !windows ==> (r matches Err(
            CoreError::Unsupported(m),
        ) && m@ == hook_support_message()),
{
    if has_session_id {
        return Ok(scope);
    }
    match scope {
        UseScope::Global | UseScope::Project => Ok(scope),
        UseScope::Session => {
            if windows {
                Ok(UseScope::Global)
            } else {
                Err(
                    CoreError::Unsupported(
                        copy_str(
                            "vs requires hook support. Please ensure vs is properly initialized with `eval \"$(vs activate <shell>)\"`",
                        ),
                    ),
                )
            }
        },
    }
}

pub open spec fn hook_support_message() -> Seq<char> {
    "vs requires hook support. Please ensure vs is properly initialized with `eval \"$(vs activate <shell>)\"`"@
}

/// The version a `use` asks for: the given one, except that `latest` stands for the
/// first version the plugin makes available.
pub fn resolve_requested_use_version(
    plugin_name: &str,
    version: &str,
    available: &Vec<AvailableVersion>,
) -> (r: Result<String, CoreError>)
    ensures
        version@ != "latest"@ ==> (r matches Ok(s) && s@ == version@),
        version@ == "latest"@ && available@.len() > 0 ==> (r matches Ok(s) && s@
            == available@[0].version@),
        version@ == "latest"@ && available@.len() == 0 ==> (r matches Err(
            CoreError::Unsupported(m),
        ) && m@ == "plugin "@ + plugin_name@ + " does not expose any available versions"@),
{
    if !str_eq(version, "latest") {
        return Ok(copy_str(version));
    }
    if available.len() > 0 {
        Ok(available[0].version.clone())
    } else {
        let mut m = copy_str("plugin ");
        m.append(plugin_name);
        m.append(" does not expose any available versions");
        Err(CoreError::Unsupported(m))
    }
}

/// The error a `use` of a version that is not installed gives.
pub fn not_installed_error(plugin_name: &str, version: &str) -> (e: CoreError)
    ensures
        e matches CoreError::Unsupported(m) && m@ == plugin_name@ + "@"@ + version@
            + " is not installed. Please run `vs install "@ + plugin_name@ + "@"@ + version@
            + "` first"@,
{
    let mut m = copy_str(plugin_name);
    m.append("@");
    m.append(version);
    m.append(" is not installed. Please run `vs install ");
    m.append(plugin_name);
    m.append("@");
    m.append(version);
    m.append("` first");
    CoreError::Unsupported(m)
}

/// What a project `.gitignore` needs appended so that `.vs/` is ignored: nothing when
/// a line already reads `.vs/` or `.vs` (trimmed); otherwise `.vs/` on a line of its
/// own.
pub open spec fn gitignore_addition_spec(content: Seq<char>) -> Option<Seq<char>> {
    if exists|k: int|
        0 <= k < lines_seq(content).len() && (trim_seq(#[trigger] lines_seq(content)[k]) == ".vs/"@
            || trim_seq(lines_seq(content)[k]) == ".vs"@) {
        None
    } else if content.len() == 0 || content.last() == '\n' {
        Some(".vs/\n"@)
    } else {
        Some("\n.vs/\n"@)
    }
}

/// The text to append to a project `.gitignore`, if any.
pub fn gitignore_addition(content: &str) -> (r: Option<&'static str>)
    ensures
        match gitignore_addition_spec(content@) {
            Some(t) => r matches Some(s) && s@ == t,
            None => r is None,
        },
{
    let ls = lines(content);
    let mut k: usize = 0;
    while k < ls.len()
        invariant
            k <= ls@.len(),
            ls.deep_view() == lines_seq(content@),
            forall|j: int|
                0 <= j < k ==> !(trim_seq(#[trigger] lines_seq(content@)[j]) == ".vs/"@ || trim_seq(
                    lines_seq(content@)[j],
                ) == ".vs"@),
        decreases ls@.len() - k,
    {
        let t = trim(ls[k].as_str());
        assert(ls.deep_view()[k as int] == ls@[k as int]@);
        if str_eq(t.as_str(), ".vs/") || str_eq(t.as_str(), ".vs") {
            return None;
        }
        k += 1;
    }
    let v = chars_of(content);
    if v.len() == 0 || v[v.len() - 1] == '\n' {
        Some(".vs/\n")
    } else {
        Some("\n.vs/\n")
    }
}

/// The directory a scope links an active version through, if it has one.
pub open spec fn linked_dir_spec(current: CurrentTool, runtime_root: Seq<char>, cwd: Seq<char>) -> Option<
    Seq<char>,
> {
    match current.scope {
        Scope::Project => Some(
            path_join(path_join(path_join(cwd, ".vs"@), "sdks"@), current.plugin@),
        ),
        Scope::Global => Some(
            path_join(path_join(path_join(runtime_root, "cache"@), current.plugin@), "current"@),
        ),
        _ => None,
    }
}

/// The link directory of the scope of an active tool, if the scope has one.
pub fn linked_runtime_dir(current: &CurrentTool, runtime_root: &str, cwd: &str) -> (r: Option<String>)
    ensures
        r.deep_view() == linked_dir_spec(*current, runtime_root@, cwd@),
{
    match current.scope {
        Scope::Project => Some(project_sdk_dir(cwd, current.plugin.as_str())),
        Scope::Global => Some(global_current_dir(runtime_root, current.plugin.as_str())),
        _ => None,
    }
}

/// Where an active tool is run from: its scope's link when that exists, else its
/// install directory.
pub fn effective_runtime_dir(
    current: &CurrentTool,
    runtime_root: &str,
    cwd: &str,
    link_exists: bool,
) -> (r: String)
    ensures
        r@ == (match linked_dir_spec(*current, runtime_root@, cwd@) {
            Some(l) => if link_exists {
                l
            } else {
                install_dir_spec(runtime_root@, current.plugin@, current.version@)
            },
            None => install_dir_spec(runtime_root@, current.plugin@, current.version@),
        }),
{
    match linked_runtime_dir(current, runtime_root, cwd) {
        Some(l) => if link_exists {
            l
        } else {
            install_dir(runtime_root, current.plugin.as_str(), current.version.as_str())
        },
        None => install_dir(runtime_root, current.plugin.as_str(), current.version.as_str()),
    }
}

/// Active tools are listed by plugin name.
pub open spec fn plugin_le() -> spec_fn(CurrentToolView, CurrentToolView) -> bool {
    |a: CurrentToolView, b: CurrentToolView| seq_le(a.plugin, b.plugin)
}

fn current_tool_le(a: &CurrentTool, b: &CurrentTool) -> (r: bool)
    ensures
        r == plugin_le()(a.deep_view(), b.deep_view()),
{
    let av = chars_of(a.plugin.as_str());
    let bv = chars_of(b.plugin.as_str());
    crate::order::chars_le(&av, &bv)
}

/// Sorts active tools by plugin name (a stable sort).
pub fn sort_current_tools(tools: Vec<CurrentTool>) -> (r: Vec<CurrentTool>)
    ensures
        r.deep_view() == sort_seq(tools.deep_view(), plugin_le()),
{
    sort_stable(tools, current_tool_le, Ghost(plugin_le()))
}

// ---------------------------------------------------------------------------
// Running commands
// ---------------------------------------------------------------------------

/// How a command is found: a path is run as given; a bare name is looked for in the
/// runtime's directories, then in `PATH`.
#[derive(Debug, Clone, PartialEq, Eq)]
pub enum CommandLookup {
    /// Run this path.
    Direct(String),
    /// Run the first of these candidates that is an executable file.
    Search(Vec<String>),
}

/// Finds where to look for a command (Unix rules).
pub fn command_lookup(command: &str, preferred_paths: &Vec<String>, path_entries: &Vec<String>) -> (r:
    CommandLookup)
    ensures
        is_absolute_path(command@) || command@.contains('/') ==> (r matches CommandLookup::Direct(p)
            && p@ == command@),
        !(is_absolute_path(command@) || command@.contains('/')) ==> (r matches CommandLookup::Search(
            c,
        ) && c.deep_view() == (preferred_paths.deep_view() + path_entries.deep_view()).map_values(
            |d: Seq<char>| path_join(d, command@),
        )),
{
    let cv = chars_of(command);
    if is_absolute(command) || has_char(&cv, '/') {
        return CommandLookup::Direct(copy_str(command));
    }
    let ghost dirs = preferred_paths.deep_view() + path_entries.deep_view();
    let ghost f = |d: Seq<char>| path_join(d, command@);
    let mut c: Vec<String> = Vec::new();
    let mut i: usize = 0;
    while i < preferred_paths.len()
        invariant
            i <= preferred_paths@.len(),
            dirs == preferred_paths.deep_view() + path_entries.deep_view(),
            f == (|d: Seq<char>| path_join(d, command@)),
            c.deep_view() == dirs.take(i as int).map_values(f),
        decreases preferred_paths@.len() - i,
    {
        let ghost before = c.deep_view();
        let p = join_path(preferred_paths[i].as_str(), command);
        assert(dirs[i as int] == preferred_paths@[i as int]@);
        assert(p@ == f(dirs[i as int]));
        c.push(p);
        assert(c.deep_view() =~= before.push(f(dirs[i as int])));
        assert(dirs.take(i + 1) =~= dirs.take(i as int).push(dirs[i as int]));
        assert(dirs.take(i + 1).map_values(f) =~= dirs.take(i as int).map_values(f).push(
            f(dirs[i as int]),
        ));
        i += 1;
    }
    let n = preferred_paths.len();
    let mut j: usize = 0;
    while j < path_entries.len()
        invariant
            j <= path_entries@.len(),
            n == preferred_paths@.len(),
            dirs == preferred_paths.deep_view() + path_entries.deep_view(),
            f == (|d: Seq<char>| path_join(d, command@)),
            c.deep_view() == dirs.take(n + j).map_values(f),
        decreases path_entries@.len() - j,
    {
        let ghost before = c.deep_view();
        let p = join_path(path_entries[j].as_str(), command);
        assert(dirs[n + j] == path_entries@[j as int]@);
        assert(p@ == f(dirs[n + j]));
        c.push(p);
        assert(c.deep_view() =~= before.push(f(dirs[n + j])));
        assert(dirs.take(n + j + 1) =~= dirs.take(n + j).push(dirs[n + j]));
        assert(dirs.take(n + j + 1).map_values(f) =~= dirs.take(n + j).map_values(f).push(
            f(dirs[n + j]),
        ));
        j += 1;
    }
    assert(dirs.take(n + j) =~= dirs);
    CommandLookup::Search(c)
}

/// Joins a name to a directory the Windows way: after a directory that ends with a
/// separator directly, else behind a backslash.
pub open spec fn windows_join(dir: Seq<char>, name: Seq<char>) -> Seq<char> {
    if dir.len() == 0 {
        name
    } else if dir.last() == '\\' || dir.last() == '/' {
        dir + name
    } else {
        dir + seq!['\\'] + name
    }
}

fn windows_join_exec(dir: &str, name: &str) -> (r: String)
    ensures
        r@ == windows_join(dir@, name@),
{
    let dv = chars_of(dir);
    if dv.len() == 0 {
        return copy_str(name);
    }
    let last = dv[dv.len() - 1];
    let mut r = copy_str(dir);
    if !(last == '\\' || last == '/') {
        r.append("\\");
        proof {
            reveal_strlit("\\");
        }
    }
    r.append(name);
    r
}

/// Whether a bare command names a file extension of its own (a dot after its first
/// character), so that Windows runs it as given.
pub open spec fn has_extension(command: Seq<char>) -> bool {
    command != ".."@ && exists|i: int| 0 < i < command.len() && command[i] == '.'
}

/// The extensions Windows tries for a bare command: the non-empty entries of
/// `PATHEXT`, or `.COM`, `.EXE`, `.BAT`, `.CMD` when it is unset.
pub open spec fn pathext_spec(pathext: Option<Seq<char>>) -> Seq<Seq<char>> {
    match pathext {
        Some(v) => non_empty_pieces(split_seq(v, CharClass::Exactly(';'))),
        None => seq![".COM"@, ".EXE"@, ".BAT"@, ".CMD"@],
    }
}

/// Each directory joined with each name, directory by directory.
pub open spec fn windows_candidates(dirs: Seq<Seq<char>>, names: Seq<Seq<char>>) -> Seq<Seq<char>>
    decreases dirs.len(),
{
    if dirs.len() == 0 {
        Seq::empty()
    } else {
        windows_candidates(dirs.drop_last(), names) + names.map_values(
            |n: Seq<char>| windows_join(dirs.last(), n),
        )
    }
}

/// The file names Windows tries for a bare command.
pub open spec fn windows_names(command: Seq<char>, pathext: Option<Seq<char>>) -> Seq<Seq<char>> {
    if has_extension(command) {
        seq![command]
    } else {
        pathext_spec(pathext).map_values(|e: Seq<char>| command + e)
    }
}

fn has_extension_exec(command: &str) -> (r: bool)
    ensures
        r == has_extension(command@),
{
    if str_eq(command, "..") {
        return false;
    }
    let v = chars_of(command);
    let mut i: usize = 1;
    while i < v.len()
        invariant
            1 <= i,
            v@ == command@,
            command@ != ".."@,
            forall|j: int| 0 < j < i && j < v@.len() ==> v@[j] != '.',
        decreases v@.len() - i,
    {
        if v[i] == '.' {
            assert(0 < i < command@.len() && command@[i as int] == '.');
            return true;
        }
        i += 1;
    }
    false
}

/// Finds where to look for a command by Windows rules: a command holding `\` or `/`
/// is run as given; a bare one is looked for in the runtime's directories, then in
/// `PATH`, as itself when it has an extension, else with each of the extensions of
/// `PATHEXT` (`pathext` is that variable, if set).
pub fn command_lookup_windows(
    command: &str,
    preferred_paths: &Vec<String>,
    path_entries: &Vec<String>,
    pathext: Option<&str>,
) -> (r: CommandLookup)
    ensures
        command@.contains('\\') || command@.contains('/') ==> (r matches CommandLookup::Direct(p)
            && p@ == command@),
        !(command@.contains('\\') || command@.contains('/')) ==> (r matches CommandLookup::Search(c)
            && c.deep_view() == windows_candidates(
            preferred_paths.deep_view() + path_entries.deep_view(),
            windows_names(command@, match pathext {
                Some(v) => Some(v@),
                None => None,
            }),
        )),
{
    let cv = chars_of(command);
    if has_char(&cv, '\\') || has_char(&cv, '/') {
        return CommandLookup::Direct(copy_str(command));
    }
    let ghost pe = match pathext {
        Some(v) => Some(v@),
        None => None,
    };
    let names: Vec<String> = if has_extension_exec(command) {
        let mut n: Vec<String> = Vec::new();
        n.push(copy_str(command));
        assert(n.deep_view() =~= seq![command@]);
        n
    } else {
        let exts: Vec<String> = match pathext {
            Some(v) => {
                let pv = chars_of(v);
                keep_non_empty(split_chars(&pv, CharClass::Exactly(';')))
            },
            None => {
                let mut d: Vec<String> = Vec::new();
                d.push(copy_str(".COM"));
                d.push(copy_str(".EXE"));
                d.push(copy_str(".BAT"));
                d.push(copy_str(".CMD"));
                assert(d.deep_view() =~= seq![".COM"@, ".EXE"@, ".BAT"@, ".CMD"@]);
                d
            },
        };
        assert(exts.deep_view() == pathext_spec(pe));
        let ghost g = |e: Seq<char>| command@ + e;
        let mut n: Vec<String> = Vec::new();
        let mut k: usize = 0;
        while k < exts.len()
            invariant
                k <= exts@.len(),
                g == (|e: Seq<char>| command@ + e),
                n.deep_view() == exts.deep_view().take(k as int).map_values(g),
            decreases exts@.len() - k,
        {
            let mut name = copy_str(command);
            name.append(exts[k].as_str());
            let ghost before = n.deep_view();
            n.push(name);
            assert(exts.deep_view()[k as int] == exts@[k as int]@);
            assert(n.deep_view() =~= before.push(g(exts.deep_view()[k as int])));
            assert(exts.deep_view().take(k + 1) =~= exts.deep_view().take(k as int).push(
                exts.deep_view()[k as int],
            ));
            assert(n.deep_view() =~= exts.deep_view().take(k + 1).map_values(g));
            k += 1;
        }
        assert(exts.deep_view().take(k as int) =~= exts.deep_view());
        n
    };
    assert(names.deep_view() == windows_names(command@, pe));
    let mut dirs: Vec<String> = Vec::new();
    let mut a: usize = 0;
    while a < preferred_paths.len()
        invariant
            a <= preferred_paths@.len(),
            dirs.deep_view() == preferred_paths.deep_view().take(a as int),
        decreases preferred_paths@.len() - a,
    {
        dirs.push(preferred_paths[a].clone());
        assert(preferred_paths.deep_view().take(a + 1) =~= preferred_paths.deep_view().take(a as int).push(
            preferred_paths.deep_view()[a as int],
        ));
        assert(dirs.deep_view() =~= preferred_paths.deep_view().take(a + 1));
        a += 1;
    }
    let mut b: usize = 0;
    assert(preferred_paths.deep_view().take(a as int) =~= preferred_paths.deep_view());
    while b < path_entries.len()
        invariant
            b <= path_entries@.len(),
            dirs.deep_view() == preferred_paths.deep_view() + path_entries.deep_view().take(b as int),
        decreases path_entries@.len() - b,
    {
        let ghost bd = dirs.deep_view();
        dirs.push(path_entries[b].clone());
        assert(dirs.deep_view() =~= bd.push(path_entries.deep_view()[b as int]));
        assert(path_entries.deep_view().take(b + 1) =~= path_entries.deep_view().take(b as int).push(
            path_entries.deep_view()[b as int],
        ));
        assert(dirs.deep_view() =~= preferred_paths.deep_view() + path_entries.deep_view().take(b + 1));
        b += 1;
    }
    assert(path_entries.deep_view().take(b as int) =~= path_entries.deep_view());
    let ghost ds = dirs.deep_view();
    let ghost ns = names.deep_view();
    let mut c: Vec<String> = Vec::new();
    let mut i: usize = 0;
    assert(ds.take(0) =~= Seq::<Seq<char>>::empty());
    while i < dirs.len()
        invariant
            i <= ds.len(),
            ds == dirs.deep_view(),
            ns == names.deep_view(),
            c.deep_view() == windows_candidates(ds.take(i as int), ns),
        decreases ds.len() - i,
    {
        let ghost before = c.deep_view();
        let ghost h = |n: Seq<char>| windows_join(ds[i as int], n);
        let mut j: usize = 0;
        while j < names.len()
            invariant
                j <= ns.len(),
                i < ds.len(),
                ds == dirs.deep_view(),
                ns == names.deep_view(),
                h == (|n: Seq<char>| windows_join(ds[i as int], n)),
                c.deep_view() == before + ns.take(j as int).map_values(h),
            decreases ns.len() - j,
        {
            let p = windows_join_exec(dirs[i].as_str(), names[j].as_str());
            assert(ds[i as int] == dirs@[i as int]@);
            assert(ns[j as int] == names@[j as int]@);
            let ghost bc = c.deep_view();
            c.push(p);
            assert(ns.take(j + 1) =~= ns.take(j as int).push(ns[j as int]));
            assert(c.deep_view() =~= bc.push(h(ns[j as int])));
            assert(c.deep_view() =~= before + ns.take(j + 1).map_values(h));
            j += 1;
        }
        assert(ns.take(j as int) =~= ns);
        assert(ds.take(i + 1).drop_last() =~= ds.take(i as int));
        assert(ds.take(i + 1).last() == ds[i as int]);
        i += 1;
    }
    assert(ds.take(i as int) =~= ds);
    CommandLookup::Search(c)
}

/// Holds when the flag is set.
pub open spec fn is_set() -> spec_fn(bool) -> bool {
    |b: bool| b
}

/// The command a search runs: the first candidate that is an executable file, where
/// `executable` says, candidate by candidate, which ones are.
pub fn first_executable(candidates: &Vec<String>, executable: &Vec<bool>) -> (r: Option<String>)
    requires
        candidates@.len() == executable@.len(),
    ensures
        match first_index(executable@, is_set()) {
            Some(i) => r matches Some(c) && c@ == candidates@[i]@,
            None => r is None,
        },
{
    proof {
        lemma_first_index(executable@, is_set());
    }
    let mut i: usize = 0;
    while i < executable.len()
        invariant
            i <= executable@.len(),
            candidates@.len() == executable@.len(),
            forall|j: int| 0 <= j < i ==> !is_set()(#[trigger] executable@[j]),
        decreases executable@.len() - i,
    {
        if executable[i] {
            proof {
                lemma_first_index_at(executable@, is_set(), i as int);
            }
            return Some(candidates[i].clone());
        }
        i += 1;
    }
    None
}

/// Applies a plugin's environment keys to an `exec` environment: `PATH` values become
/// PATH entries, the others variables.
pub fn apply_exec_env_keys(delta: &mut EnvDelta, env_keys: Vec<EnvKey>)
    ensures
        (final(delta).vars.deep_view(), final(delta).path_entries.deep_view()) == apply_env_keys_spec(
            old(delta).vars.deep_view(),
            old(delta).path_entries.deep_view(),
            env_key_pairs(env_keys@),
        ),
{
    apply_env_keys(delta, env_keys);
}

// ---------------------------------------------------------------------------
// PATH
// ---------------------------------------------------------------------------

/// The PATH a hook or `exec` exports: the delta's entries, then the entries of the base
/// PATH (`__VS_ORIG_PATH`, else `PATH`), joined with `:`; an entry holding `:` cannot
/// be joined.
pub open spec fn composed_path(entries: Seq<Seq<char>>, base: Option<Seq<char>>) -> Result<
    Seq<char>,
    Seq<char>,
> {
    let all = path_pieces(entries, base);
    if exists|k: int| 0 <= k < all.len() && (#[trigger] all[k]).contains(':') {
        Err("failed to join PATH entries: path segment contains separator `:`"@)
    } else {
        Ok(join_seq(all, ":"@))
    }
}

/// The delta's entries followed by the pieces of the base PATH.
pub open spec fn path_pieces(entries: Seq<Seq<char>>, base: Option<Seq<char>>) -> Seq<Seq<char>> {
    entries + match base {
        Some(b) => split_seq(b, CharClass::Exactly(':')),
        None => Seq::empty(),
    }
}

/// Composes the PATH value from the delta's entries and the base PATH.
pub fn path_with_delta(entries: &Vec<String>, base_path: Option<&str>) -> (r: Result<String, CoreError>)
    ensures
        match composed_path(
            entries.deep_view(),
            match base_path {
                Some(b) => Some(b@),
                None => None,
            },
        ) {
            Ok(p) => r matches Ok(s) && s@ == p,
            Err(m) => r matches Err(CoreError::Unsupported(e)) && e@ == m,
        },
{
    let mut all = clone_strings(entries);
    let ghost base_parts = match base_path {
        Some(b) => split_seq(b@, CharClass::Exactly(':')),
        None => Seq::<Seq<char>>::empty(),
    };
    match base_path {
        Some(b) => {
            let bv = chars_of(b);
            let parts = split_chars(&bv, CharClass::Exactly(':'));
            let ghost before = all.deep_view();
            let mut k: usize = 0;
            while k < parts.len()
                invariant
                    k <= parts@.len(),
                    all.deep_view() == before + parts.deep_view().take(k as int),
                decreases parts@.len() - k,
            {
                let ghost b2 = all.deep_view();
                all.push(parts[k].clone());
                assert(parts.deep_view()[k as int] == parts@[k as int]@);
                assert(all.deep_view() =~= b2.push(parts.deep_view()[k as int]));
                assert(parts.deep_view().take(k + 1) =~= parts.deep_view().take(k as int).push(
                    parts.deep_view()[k as int],
                ));
                assert(all.deep_view() =~= before + parts.deep_view().take(k + 1));
                k += 1;
            }
            assert(parts.deep_view().take(k as int) =~= parts.deep_view());
        },
        None => {
            assert(all.deep_view() =~= entries.deep_view() + base_parts);
        },
    }
    let ghost whole = all.deep_view();
    assert(whole == entries.deep_view() + base_parts);
    let mut j: usize = 0;
    while j < all.len()
        invariant
            j <= whole.len(),
            whole == all.deep_view(),
            whole == entries.deep_view() + base_parts,
            base_parts == (match base_path {
                Some(b) => split_seq(b@, CharClass::Exactly(':')),
                None => Seq::<Seq<char>>::empty(),
            }),
            forall|k: int| 0 <= k < j ==> !(#[trigger] whole[k]).contains(':'),
        decreases whole.len() - j,
    {
        let cv = chars_of(all[j].as_str());
        assert(whole[j as int] == all@[j as int]@);
        if has_char(&cv, ':') {
            proof {
                let bopt: Option<Seq<char>> = match base_path {
                    Some(b) => Some(b@),
                    None => None,
                };
                let all2 = path_pieces(entries.deep_view(), bopt);
                assert(all2 =~= whole);
                assert(all2[j as int].contains(':'));
                assert(composed_path(entries.deep_view(), bopt) is Err);
            }
            return Err(
                CoreError::Unsupported(
                    copy_str("failed to join PATH entries: path segment contains separator `:`"),
                ),
            );
        }
        j += 1;
    }
    Ok(join(&all, ":"))
}

// ---------------------------------------------------------------------------
// Errors of `exec`
// ---------------------------------------------------------------------------

/// A command that is found nowhere.
pub fn command_not_found(command: &str, plugin: &str) -> (e: CoreError)
    ensures
        e matches CoreError::CommandExecution { command: c, message } && c@ == command@
            && message@ == "command not found in "@ + plugin@ + " environment"@,
{
    let mut m = copy_str("command not found in ");
    m.append(plugin);
    m.append(" environment");
    CoreError::CommandExecution { command: copy_str(command), message: m }
}

/// `exec` without a version when none is configured.
pub fn no_version_configured(plugin: &str) -> (e: CoreError)
    ensures
        e matches CoreError::Unsupported(m) && m@ == "no version configured for "@ + plugin@
            + ". Please use `vs use` first"@,
{
    let mut m = copy_str("no version configured for ");
    m.append(plugin);
    m.append(". Please use `vs use` first");
    CoreError::Unsupported(m)
}

/// An installed runtime whose receipt cannot be read.
pub fn runtime_not_loaded(plugin: &str, version: &str) -> (e: CoreError)
    ensures
        e matches CoreError::Unsupported(m) && m@ == "failed to load installed runtime for "@
            + plugin@ + "@"@ + version@,
{
    let mut m = copy_str("failed to load installed runtime for ");
    m.append(plugin);
    m.append("@");
    m.append(version);
    CoreError::Unsupported(m)
}

// ---------------------------------------------------------------------------
// Installing and migrating
// ---------------------------------------------------------------------------

/// The version an install targets: the requested one, else the first version the
/// plugin makes available.
pub fn select_install_version(
    plugin_name: &str,
    version: Option<&str>,
    available: &Vec<AvailableVersion>,
) -> (r: Result<String, CoreError>)
    ensures
        match version {
            Some(v) => r matches Ok(s) && s@ == v@,
            None => if available@.len() > 0 {
                r matches Ok(s) && s@ == available@[0].version@
            } else {
                r matches Err(CoreError::Unsupported(m)) && m@ == "plugin "@ + plugin_name@
                    + " does not expose installable versions"@
            },
        },
{
    match version {
        Some(v) => Ok(copy_str(v)),
        None => if available.len() > 0 {
            Ok(available[0].version.clone())
        } else {
            let mut m = copy_str("plugin ");
            m.append(plugin_name);
            m.append(" does not expose installable versions");
            Err(CoreError::Unsupported(m))
        },
    }
}

/// The home a migration copies from: the given source resolved against the working
/// directory, else the first candidate home.
pub fn migration_source(cwd: &str, source: Option<&str>, candidates: &Vec<String>) -> (r: Result<
    String,
    CoreError,
>)
    ensures
        match source {
            Some(s) => r matches Ok(h) && h@ == path_join(cwd@, s@),
            None => if candidates@.len() > 0 {
                r matches Ok(h) && h@ == candidates@[0]@
            } else {
                r == Err::<String, CoreError>(CoreError::MissingMigrationSource)
            },
        },
{
    match source {
        Some(s) => Ok(normalize_source_path(cwd, s)),
        None => if candidates.len() > 0 {
            Ok(candidates[0].clone())
        } else {
            Err(CoreError::MissingMigrationSource)
        },
    }
}

/// The entries of a home that a migration copies, in order.
pub fn migration_roots() -> (r: Vec<&'static str>)
    ensures
        r@.len() == 5,
        r@[0]@ == "config.yaml"@,
        r@[1]@ == "global"@,
        r@[2]@ == "registry"@,
        r@[3]@ == "plugins"@,
        r@[4]@ == "cache"@,
{
    let mut r: Vec<&'static str> = Vec::new();
    r.push("config.yaml");
    r.push("global");
    r.push("registry");
    r.push("plugins");
    r.push("cache");
    r
}

// ---------------------------------------------------------------------------
// Uninstalling
// ---------------------------------------------------------------------------

/// What an uninstall reports: nothing removed; or removed, switching to the first
/// remaining version when the removed one was active and others remain.
pub fn uninstall_result(removed: bool, remaining: &Vec<String>, was_current: bool) -> (r:
    UninstallResult)
    ensures
        r.removed == removed,
        (!removed || remaining@.len() == 0 || !was_current) ==> r.auto_switched is None,
        (removed && remaining@.len() > 0 && was_current) ==> r.auto_switched.deep_view() == Some(
            remaining@[0]@,
        ),
{
    if !removed {
        return UninstallResult { removed: false, auto_switched: None };
    }
    if remaining.len() == 0 {
        return UninstallResult { removed: true, auto_switched: None };
    }
    if was_current {
        return UninstallResult { removed: true, auto_switched: Some(remaining[0].clone()) };
    }
    UninstallResult { removed: true, auto_switched: None }
}

} // verus!
