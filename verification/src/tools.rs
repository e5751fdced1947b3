//! Which plugin backends this build carries, and how tool versions are configured:
//! the assignments of a tool-versions file, which file a configured version comes
//! from, and what activating a version writes.
use vstd::prelude::*;

use crate::app_rules::{
    is_remote, is_remote_registry_source, rebase_relative_sources, rebased, DEFAULT_VFOX_REGISTRY_SOURCE,
};
use crate::core_model::{CoreError, CurrentTool, InstalledVersion, Scope, UseScope};
use crate::model::{InstalledRuntime, PluginBackendKind};
use crate::paths::path_join;
use crate::shell::{global_current_dir, project_sdk_dir};
use crate::versions::{fuzzy_match_version, fuzzy_matches};
use crate::registry::{RegistryEntry, RegistryEntryView};
use crate::release::BUILD_RELEASE_VARIANT;
use crate::legacy::lookup_last;
use crate::lua::opt_str;
use crate::order::{
    chars_le, insert_unique_sorted, lemma_seq_le_antisym, lemma_seq_le_refl, lemma_seq_le_total, lemma_seq_le_trans, seq_le,
    seq_lt, strictly_sorted,
};
use crate::text::{chars_of, copy_str, str_eq};
use vstd::pervasive::VecAdditionalExecFns;

verus! {

broadcast use vstd::seq_lib::group_seq_properties;

// ---------------------------------------------------------------------------
// Backends
// ---------------------------------------------------------------------------

/// Whether a build variant carries the Lua backend.
pub open spec fn variant_has_lua(variant: Seq<char>) -> bool {
    variant == "full"@ || variant == "lua"@
}

/// Whether a build variant carries the WASI backend.
pub open spec fn variant_has_wasi(variant: Seq<char>) -> bool {
    variant == "full"@ || variant == "wasi"@
}

/// Whether this build carries a backend.
pub open spec fn backend_enabled(backend: PluginBackendKind) -> bool {
    match backend {
        PluginBackendKind::Lua => variant_has_lua(BUILD_RELEASE_VARIANT@),
        PluginBackendKind::Wasi => variant_has_wasi(BUILD_RELEASE_VARIANT@),
    }
}

/// The name of a backend, which is also the name of the build feature that carries it.
pub open spec fn backend_label(backend: PluginBackendKind) -> Seq<char> {
    match backend {
        PluginBackendKind::Lua => "lua"@,
        PluginBackendKind::Wasi => "wasi"@,
    }
}

fn has_lua() -> (r: bool)
    ensures
        r == variant_has_lua(BUILD_RELEASE_VARIANT@),
{
    str_eq(BUILD_RELEASE_VARIANT, "full") || str_eq(BUILD_RELEASE_VARIANT, "lua")
}

fn has_wasi() -> (r: bool)
    ensures
        r == variant_has_wasi(BUILD_RELEASE_VARIANT@),
{
    str_eq(BUILD_RELEASE_VARIANT, "full") || str_eq(BUILD_RELEASE_VARIANT, "wasi")
}

/// Whether this build carries `backend`.
pub fn is_backend_enabled(backend: PluginBackendKind) -> (r: bool)
    ensures
        r == backend_enabled(backend),
{
    match backend {
        PluginBackendKind::Lua => has_lua(),
        PluginBackendKind::Wasi => has_wasi(),
    }
}

/// Checks that this build can load plugins of `backend`.
pub fn ensure_backend_supported(backend: PluginBackendKind) -> (r: Result<(), CoreError>)
    ensures
        backend_enabled(backend) ==> r is Ok,
        !backend_enabled(backend) ==> (r matches Err(CoreError::UnsupportedBackend { backend: b, feature: f })
            && b@ == backend_label(backend) && f@ == backend_label(backend)),
{
    if is_backend_enabled(backend) {
        Ok(())
    } else {
        let label = match backend {
            PluginBackendKind::Lua => "lua",
            PluginBackendKind::Wasi => "wasi",
        };
        Err(CoreError::UnsupportedBackend { backend: copy_str(label), feature: copy_str(label) })
    }
}

/// The backend a plugin added without one uses: Lua when this build carries it, else
/// WASI; a build with neither has none.
pub fn default_backend() -> (r: Result<PluginBackendKind, CoreError>)
    ensures
        variant_has_lua(BUILD_RELEASE_VARIANT@) ==> r == Ok::<PluginBackendKind, CoreError>(
            PluginBackendKind::Lua,
        ),
        !variant_has_lua(BUILD_RELEASE_VARIANT@) && variant_has_wasi(BUILD_RELEASE_VARIANT@) ==> r
            == Ok::<PluginBackendKind, CoreError>(PluginBackendKind::Wasi),
        !variant_has_lua(BUILD_RELEASE_VARIANT@) && !variant_has_wasi(BUILD_RELEASE_VARIANT@) ==> (r matches Err(
            CoreError::Unsupported(m),
        ) && m@ == "no plugin backend is enabled in this build"@),
{
    if has_lua() {
        Ok(PluginBackendKind::Lua)
    } else if has_wasi() {
        Ok(PluginBackendKind::Wasi)
    } else {
        Err(CoreError::Unsupported(copy_str("no plugin backend is enabled in this build")))
    }
}

/// The registry a build with the Lua backend reads when none is configured: the
/// official vfox index.
pub fn default_registry_source() -> (r: Option<&'static str>)
    ensures
        variant_has_lua(BUILD_RELEASE_VARIANT@) ==> r == Some(DEFAULT_VFOX_REGISTRY_SOURCE),
        !variant_has_lua(BUILD_RELEASE_VARIANT@) ==> r is None,
{
    if has_lua() {
        Some(DEFAULT_VFOX_REGISTRY_SOURCE)
    } else {
        None
    }
}

/// The entries of a registry index whose backend this build carries.
pub open spec fn supported_spec(s: Seq<RegistryEntryView>) -> Seq<RegistryEntryView> {
    s.filter(|e: RegistryEntryView| backend_enabled(e.backend))
}

/// Keeps the entries of a registry index whose backend this build carries, in order.
pub fn supported_entries(entries: &Vec<RegistryEntry>) -> (r: Vec<RegistryEntry>)
    ensures
        r.deep_view() == supported_spec(entries.deep_view()),
{
    let ghost s = entries.deep_view();
    let ghost keep = |e: RegistryEntryView| backend_enabled(e.backend);
    let mut r: Vec<RegistryEntry> = Vec::new();
    let mut i: usize = 0;
    while i < entries.len()
        invariant
            i <= s.len(),
            s == entries.deep_view(),
            keep == (|e: RegistryEntryView| backend_enabled(e.backend)),
            r.deep_view() == s.take(i as int).filter(keep),
        decreases s.len() - i,
    {
        proof {
            s.take(i as int).lemma_filter_push(s[i as int], keep);
            assert(s.take(i + 1) =~= s.take(i as int).push(s[i as int]));
        }
        assert(s[i as int] == entries@[i as int].deep_view());
        if is_backend_enabled(entries[i].backend) {
            let ghost before = r.deep_view();
            r.push(entries[i].duplicate());
            assert(r.deep_view() =~= before.push(s[i as int]));
        }
        i += 1;
    }
    assert(s.take(i as int) =~= s);
    r
}

// ---------------------------------------------------------------------------
// Activating a version
// ---------------------------------------------------------------------------

/// A step of activating an installed version.
#[derive(Debug, Clone, PartialEq, Eq)]
pub enum UseAction {
    /// Record `plugin = version` in the tool-versions file `file`.
    Assign { file: String, plugin: String, version: String },
    /// Make `link` point at the installed runtime `target`.
    Link { target: String, link: String },
    /// Make sure the project's `.gitignore` ignores its `.vs` directory.
    IgnoreVsDir { project: String },
    /// Remove the assignment of `plugin` from the tool-versions file `file`.
    Unassign { file: String, plugin: String },
    /// Remove the link (or directory) `link`.
    Unlink { link: String },
}

/// Whether `a` records `plugin = version` in `file`.
pub open spec fn is_assign(a: UseAction, file: Seq<char>, plugin: Seq<char>, version: Seq<char>) -> bool {
    a matches UseAction::Assign { file: f, plugin: p, version: v } && f@ == file && p@ == plugin
        && v@ == version
}

/// Whether `a` links `link` to `target`.
pub open spec fn is_link(a: UseAction, target: Seq<char>, link: Seq<char>) -> bool {
    a matches UseAction::Link { target: t, link: l } && t@ == target && l@ == link
}

/// Whether `a` makes the project at `project` ignore `.vs`.
pub open spec fn is_ignore(a: UseAction, project: Seq<char>) -> bool {
    a matches UseAction::IgnoreVsDir { project: p } && p@ == project
}

/// Whether `a` removes the assignment of `plugin` from `file`.
pub open spec fn is_unassign(a: UseAction, file: Seq<char>, plugin: Seq<char>) -> bool {
    a matches UseAction::Unassign { file: f, plugin: p } && f@ == file && p@ == plugin
}

/// Whether `a` removes `link`.
pub open spec fn is_unlink(a: UseAction, link: Seq<char>) -> bool {
    a matches UseAction::Unlink { link: l } && l@ == link
}

/// What deactivating `plugin` in `scope` does: the global scope drops its assignment
/// from the global file and removes the global `current` link; the project scope
/// drops it from the project file and removes the project's SDK link; the session
/// scope drops it from the session file, which only a session with an id has.
pub fn unuse_tool_actions(
    scope: UseScope,
    plugin: &str,
    home: &str,
    cwd: &str,
    global_file: &str,
    project_file: &str,
    session_file: Option<&str>,
) -> (r: Result<Vec<UseAction>, CoreError>)
    ensures
        scope == UseScope::Session && session_file is None ==> r == Err::<Vec<UseAction>, CoreError>(
            CoreError::MissingSessionId,
        ),
        !(scope == UseScope::Session && session_file is None) ==> (r matches Ok(acts) && match scope {
            UseScope::Global => acts@.len() == 2 && is_unassign(acts@[0], global_file@, plugin@)
                && is_unlink(acts@[1], path_join(path_join(path_join(home@, "cache"@), plugin@), "current"@)),
            UseScope::Project => acts@.len() == 2 && is_unassign(acts@[0], project_file@, plugin@)
                && is_unlink(acts@[1], path_join(path_join(path_join(cwd@, ".vs"@), "sdks"@), plugin@)),
            UseScope::Session => acts@.len() == 1 && is_unassign(acts@[0], session_file.unwrap()@, plugin@),
        }),
{
    let mut acts: Vec<UseAction> = Vec::new();
    match scope {
        UseScope::Global => {
            acts.push(UseAction::Unassign { file: copy_str(global_file), plugin: copy_str(plugin) });
            acts.push(UseAction::Unlink { link: global_current_dir(home, plugin) });
        },
        UseScope::Project => {
            acts.push(UseAction::Unassign { file: copy_str(project_file), plugin: copy_str(plugin) });
            acts.push(UseAction::Unlink { link: project_sdk_dir(cwd, plugin) });
        },
        UseScope::Session => match session_file {
            Some(f) => {
                acts.push(UseAction::Unassign { file: copy_str(f), plugin: copy_str(plugin) });
            },
            None => {
                return Err(CoreError::MissingSessionId);
            },
        },
    }
    Ok(acts)
}

/// The version a `use` activates: the one the plugin's `PreUse` hook chose, else the
/// requested version matched against the installed ones.
pub fn use_resolved_version(
    hook_version: Option<String>,
    requested: &str,
    exact_installed: bool,
    installed: &Vec<String>,
) -> (r: String)
    ensures
        hook_version matches Some(h) ==> r@ == h@,
        hook_version is None ==> fuzzy_matches(r@, requested@, exact_installed, installed.deep_view()),
{
    match hook_version {
        Some(h) => h,
        None => fuzzy_match_version(requested, exact_installed, installed),
    }
}

/// What activating the installed `runtime` of `plugin` in `scope` does, and the
/// version it reports. The global scope records the version in the global file and
/// links the global `current` directory; the project scope records it in the
/// project file, links the project's SDK directory unless `unlink`, and makes the
/// project ignore `.vs`; the session scope records it in the session file, which
/// only a session with an id has.
pub fn use_tool_actions(
    scope: UseScope,
    unlink: bool,
    plugin: &str,
    runtime: &InstalledRuntime,
    home: &str,
    cwd: &str,
    global_file: &str,
    project_file: &str,
    session_file: Option<&str>,
) -> (r: Result<(InstalledVersion, Vec<UseAction>), CoreError>)
    ensures
        scope == UseScope::Session && session_file is None ==> r == Err::<
            (InstalledVersion, Vec<UseAction>),
            CoreError,
        >(CoreError::MissingSessionId),
        !(scope == UseScope::Session && session_file is None) ==> (r matches Ok((iv, acts)) && {
            &&& iv.plugin@ == plugin@
            &&& iv.version@ == runtime.version@
            &&& iv.install_dir@ == runtime.root_dir@
            &&& match scope {
                UseScope::Global => acts@.len() == 2 && is_assign(
                    acts@[0],
                    global_file@,
                    plugin@,
                    runtime.version@,
                ) && is_link(
                    acts@[1],
                    runtime.root_dir@,
                    path_join(path_join(path_join(home@, "cache"@), plugin@), "current"@),
                ),
                UseScope::Project => if unlink {
                    acts@.len() == 2 && is_assign(acts@[0], project_file@, plugin@, runtime.version@)
                        && is_ignore(acts@[1], cwd@)
                } else {
                    acts@.len() == 3 && is_assign(acts@[0], project_file@, plugin@, runtime.version@)
                        && is_link(
                        acts@[1],
                        runtime.root_dir@,
                        path_join(path_join(path_join(cwd@, ".vs"@), "sdks"@), plugin@),
                    ) && is_ignore(acts@[2], cwd@)
                },
                UseScope::Session => acts@.len() == 1 && is_assign(
                    acts@[0],
                    session_file.unwrap()@,
                    plugin@,
                    runtime.version@,
                ),
            }
        }),
{
    let installed = InstalledVersion {
        plugin: copy_str(plugin),
        version: runtime.version.clone(),
        install_dir: runtime.root_dir.clone(),
    };
    let mut acts: Vec<UseAction> = Vec::new();
    match scope {
        UseScope::Global => {
            acts.push(
                UseAction::Assign {
                    file: copy_str(global_file),
                    plugin: copy_str(plugin),
                    version: runtime.version.clone(),
                },
            );
            acts.push(
                UseAction::Link {
                    target: runtime.root_dir.clone(),
                    link: global_current_dir(home, plugin),
                },
            );
        },
        UseScope::Project => {
            acts.push(
                UseAction::Assign {
                    file: copy_str(project_file),
                    plugin: copy_str(plugin),
                    version: runtime.version.clone(),
                },
            );
            if !unlink {
                acts.push(
                    UseAction::Link {
                        target: runtime.root_dir.clone(),
                        link: project_sdk_dir(cwd, plugin),
                    },
                );
            }
            acts.push(UseAction::IgnoreVsDir { project: copy_str(cwd) });
        },
        UseScope::Session => {
            match session_file {
                Some(f) => {
                    acts.push(
                        UseAction::Assign {
                            file: copy_str(f),
                            plugin: copy_str(plugin),
                            version: runtime.version.clone(),
                        },
                    );
                },
                None => {
                    return Err(CoreError::MissingSessionId);
                },
            }
        },
    }
    Ok((installed, acts))
}

// ---------------------------------------------------------------------------
// Tool-versions files
// ---------------------------------------------------------------------------

/// The tools of a tool-versions file's assignments, in order.
pub open spec fn tool_keys(s: Seq<(Seq<char>, Seq<char>)>) -> Seq<Seq<char>> {
    s.map_values(|e: (Seq<char>, Seq<char>)| e.0)
}

/// The assignments of a tool-versions file: one per tool, ordered by tool (as a
/// `BTreeMap` of them is).
pub open spec fn is_tool_map(s: Seq<(Seq<char>, Seq<char>)>) -> bool {
    strictly_sorted(tool_keys(s))
}

/// Whether `s` assigns `version` to `tool`.
pub open spec fn has_assignment(s: Seq<(Seq<char>, Seq<char>)>, tool: Seq<char>, version: Seq<char>) -> bool {
    exists|i: int| 0 <= i < s.len() && #[trigger] s[i] == (tool, version)
}

/// `after` is `before` with `plugin` assigned `version`, or with its assignment
/// removed when `version` is `None`; every other assignment is kept.
pub open spec fn assigned(
    before: Seq<(Seq<char>, Seq<char>)>,
    after: Seq<(Seq<char>, Seq<char>)>,
    plugin: Seq<char>,
    version: Option<Seq<char>>,
) -> bool {
    &&& is_tool_map(after)
    &&& forall|k: Seq<char>, v: Seq<char>|
        #[trigger] has_assignment(after, k, v) <==> (if k == plugin {
            version == Some(v)
        } else {
            has_assignment(before, k, v)
        })
}

proof fn lemma_keys_index(s: Seq<(Seq<char>, Seq<char>)>, i: int)
    requires
        0 <= i < s.len(),
    ensures
        tool_keys(s)[i] == s[i].0,
        tool_keys(s).len() == s.len(),
{
}

/// In a tool map a tool has at most one assignment.
proof fn lemma_unique_key(s: Seq<(Seq<char>, Seq<char>)>, i: int, j: int)
    requires
        is_tool_map(s),
        0 <= i < s.len(),
        0 <= j < s.len(),
        s[i].0 == s[j].0,
    ensures
        i == j,
{
    lemma_keys_index(s, i);
    lemma_keys_index(s, j);
    if i < j {
        assert(seq_lt(tool_keys(s)[i], tool_keys(s)[j]));
    } else if j < i {
        assert(seq_lt(tool_keys(s)[j], tool_keys(s)[i]));
    }
}

/// Where `plugin` stands in a tool map: every tool before `p` is less than it and
/// the tool at `p`, if any, is not less; so only the tool at `p` can be `plugin`.
proof fn lemma_key_position(s: Seq<(Seq<char>, Seq<char>)>, plugin: Seq<char>, p: int)
    requires
        is_tool_map(s),
        0 <= p <= s.len(),
        forall|k: int| 0 <= k < p ==> #[trigger] seq_lt(s[k].0, plugin),
        p < s.len() ==> seq_le(plugin, s[p].0),
    ensures
        forall|i: int| 0 <= i < s.len() && #[trigger] s[i].0 == plugin ==> i == p,
        p < s.len() && s[p].0 != plugin ==> seq_lt(plugin, s[p].0),
        forall|i: int| p < i < s.len() ==> #[trigger] seq_lt(plugin, s[i].0),
{
    assert forall|i: int| p < i < s.len() implies #[trigger] seq_lt(plugin, s[i].0) by {
        lemma_keys_index(s, p);
        lemma_keys_index(s, i);
        assert(seq_lt(tool_keys(s)[p], tool_keys(s)[i]));
        lemma_seq_le_trans(plugin, s[p].0, s[i].0);
        if plugin == s[i].0 {
            lemma_seq_le_antisym(s[p].0, s[i].0);
        }
    }
    assert forall|i: int| 0 <= i < s.len() && #[trigger] s[i].0 == plugin implies i == p by {
        if i < p {
            assert(seq_lt(s[i].0, plugin));
        } else if i > p {
            assert(seq_lt(plugin, s[i].0));
        }
    }
}

proof fn lemma_assign_update(s: Seq<(Seq<char>, Seq<char>)>, p: int, plugin: Seq<char>, v0: Seq<char>)
    requires
        is_tool_map(s),
        0 <= p < s.len(),
        s[p].0 == plugin,
    ensures
        assigned(s, s.update(p, (plugin, v0)), plugin, Some(v0)),
{
    let t = s.update(p, (plugin, v0));
    assert(tool_keys(t) =~= tool_keys(s)) by {
        assert forall|i: int| 0 <= i < s.len() implies tool_keys(t)[i] == tool_keys(s)[i] by {
            lemma_keys_index(s, i);
            lemma_keys_index(t, i);
        }
    }
    assert forall|k: Seq<char>, v: Seq<char>|
        #[trigger] has_assignment(t, k, v) <==> (if k == plugin {
            Some(v0) == Some(v)
        } else {
            has_assignment(s, k, v)
        }) by {
        if has_assignment(t, k, v) {
            let i = choose|i: int| 0 <= i < t.len() && #[trigger] t[i] == (k, v);
            if i != p {
                assert(s[i] == (k, v));
                if k == plugin {
                    lemma_unique_key(s, i, p);
                }
            }
        }
        if k == plugin && v == v0 {
            assert(t[p] == (k, v));
        }
        if k != plugin && has_assignment(s, k, v) {
            let i = choose|i: int| 0 <= i < s.len() && #[trigger] s[i] == (k, v);
            assert(i != p);
            assert(t[i] == (k, v));
        }
    }
}

proof fn lemma_assign_remove(s: Seq<(Seq<char>, Seq<char>)>, p: int, plugin: Seq<char>)
    requires
        is_tool_map(s),
        0 <= p < s.len(),
        s[p].0 == plugin,
    ensures
        assigned(s, s.remove(p), plugin, None),
{
    let t = s.remove(p);
    assert forall|i: int, j: int| 0 <= i < j < t.len() implies #[trigger] seq_lt(
        tool_keys(t)[i],
        tool_keys(t)[j],
    ) by {
        lemma_keys_index(t, i);
        lemma_keys_index(t, j);
        let a = if i < p { i } else { i + 1 };
        let b = if j < p { j } else { j + 1 };
        lemma_keys_index(s, a);
        lemma_keys_index(s, b);
        assert(t[i] == s[a] && t[j] == s[b]);
        assert(seq_lt(tool_keys(s)[a], tool_keys(s)[b]));
    }
    assert forall|k: Seq<char>, v: Seq<char>|
        #[trigger] has_assignment(t, k, v) <==> (if k == plugin {
            None::<Seq<char>> == Some(v)
        } else {
            has_assignment(s, k, v)
        }) by {
        if has_assignment(t, k, v) {
            let i = choose|i: int| 0 <= i < t.len() && #[trigger] t[i] == (k, v);
            let a = if i < p { i } else { i + 1 };
            assert(s[a] == (k, v));
            if k == plugin {
                lemma_unique_key(s, a, p);
            }
        }
        if k != plugin && has_assignment(s, k, v) {
            let a = choose|a: int| 0 <= a < s.len() && #[trigger] s[a] == (k, v);
            assert(a != p);
            let i = if a < p { a } else { a - 1 };
            assert(t[i] == (k, v));
        }
    }
}

proof fn lemma_assign_insert(s: Seq<(Seq<char>, Seq<char>)>, p: int, plugin: Seq<char>, v0: Seq<char>)
    requires
        is_tool_map(s),
        0 <= p <= s.len(),
        forall|k: int| 0 <= k < p ==> #[trigger] seq_lt(s[k].0, plugin),
        forall|i: int| p <= i < s.len() ==> #[trigger] seq_lt(plugin, s[i].0),
    ensures
        assigned(s, s.insert(p, (plugin, v0)), plugin, Some(v0)),
{
    let t = s.insert(p, (plugin, v0));
    assert forall|i: int, j: int| 0 <= i < j < t.len() implies #[trigger] seq_lt(
        tool_keys(t)[i],
        tool_keys(t)[j],
    ) by {
        lemma_keys_index(t, i);
        lemma_keys_index(t, j);
        if i < p && j < p {
            lemma_keys_index(s, i);
            lemma_keys_index(s, j);
            assert(seq_lt(tool_keys(s)[i], tool_keys(s)[j]));
        } else if i < p && j == p {
            assert(seq_lt(s[i].0, plugin));
        } else if i < p {
            assert(t[j] == s[j - 1]);
            assert(seq_lt(s[i].0, plugin));
            assert(seq_lt(plugin, s[j - 1].0));
            lemma_seq_le_trans(s[i].0, plugin, s[j - 1].0);
            if s[i].0 == s[j - 1].0 {
                lemma_seq_le_antisym(s[i].0, plugin);
            }
        } else if i == p {
            assert(t[j] == s[j - 1]);
            assert(seq_lt(plugin, s[j - 1].0));
        } else {
            lemma_keys_index(s, i - 1);
            lemma_keys_index(s, j - 1);
            assert(t[i] == s[i - 1] && t[j] == s[j - 1]);
            assert(seq_lt(tool_keys(s)[i - 1], tool_keys(s)[j - 1]));
        }
    }
    assert forall|k: Seq<char>, v: Seq<char>|
        #[trigger] has_assignment(t, k, v) <==> (if k == plugin {
            Some(v0) == Some(v)
        } else {
            has_assignment(s, k, v)
        }) by {
        if has_assignment(t, k, v) {
            let i = choose|i: int| 0 <= i < t.len() && #[trigger] t[i] == (k, v);
            if i < p {
                assert(s[i] == (k, v));
                assert(seq_lt(s[i].0, plugin));
            } else if i > p {
                assert(s[i - 1] == (k, v));
                assert(seq_lt(plugin, s[i - 1].0));
            }
        }
        if k == plugin && v == v0 {
            assert(t[p] == (k, v));
        }
        if k != plugin && has_assignment(s, k, v) {
            let a = choose|a: int| 0 <= a < s.len() && #[trigger] s[a] == (k, v);
            if a < p {
                assert(t[a] == (k, v));
            } else {
                assert(t[a + 1] == (k, v));
            }
        }
    }
}

proof fn lemma_assign_absent(s: Seq<(Seq<char>, Seq<char>)>, plugin: Seq<char>)
    requires
        is_tool_map(s),
        forall|i: int| 0 <= i < s.len() ==> #[trigger] s[i].0 != plugin,
    ensures
        assigned(s, s, plugin, None),
{
    assert forall|k: Seq<char>, v: Seq<char>|
        #[trigger] has_assignment(s, k, v) <==> (if k == plugin {
            None::<Seq<char>> == Some(v)
        } else {
            has_assignment(s, k, v)
        }) by {
        if has_assignment(s, k, v) && k == plugin {
            let i = choose|i: int| 0 <= i < s.len() && #[trigger] s[i] == (k, v);
            assert(s[i].0 != plugin);
        }
    }
}

/// Assigns `version` to `plugin` in the assignments of a tool-versions file, or
/// removes its assignment when `version` is `None`.
pub fn assign_tool(tools: &mut Vec<(String, String)>, plugin: &str, version: Option<&str>)
    requires
        is_tool_map(old(tools).deep_view()),
    ensures
        assigned(old(tools).deep_view(), final(tools).deep_view(), plugin@, opt_str(version)),
{
    let ghost s = tools.deep_view();
    let pv = chars_of(plugin);
    let mut p: usize = 0;
    while p < tools.len()
        invariant
            p <= s.len(),
            s == tools.deep_view(),
            pv@ == plugin@,
            forall|k: int| 0 <= k < p ==> #[trigger] seq_lt(s[k].0, plugin@),
        ensures
            p <= s.len(),
            s == tools.deep_view(),
            forall|k: int| 0 <= k < p ==> #[trigger] seq_lt(s[k].0, plugin@),
            p < s.len() ==> seq_le(plugin@, s[p as int].0),
        decreases s.len() - p,
    {
        let kv = chars_of(tools[p].0.as_str());
        assert(kv@ == s[p as int].0);
        if chars_le(&pv, &kv) {
            break ;
        }
        proof {
            lemma_seq_le_total(plugin@, s[p as int].0);
            lemma_seq_le_refl(plugin@);
        }
        p += 1;
    }
    proof {
        lemma_key_position(s, plugin@, p as int);
    }
    let found = p < tools.len() && str_eq(tools[p].0.as_str(), plugin);
    if found {
        assert(s[p as int].0 == plugin@);
        match version {
            Some(v) => {
                let entry = (copy_str(plugin), copy_str(v));
                tools.set(p, entry);
                proof {
                    lemma_assign_update(s, p as int, plugin@, v@);
                    assert(tools.deep_view() =~= s.update(p as int, (plugin@, v@)));
                }
            },
            None => {
                tools.remove(p);
                proof {
                    lemma_assign_remove(s, p as int, plugin@);
                    assert(tools.deep_view() =~= s.remove(p as int));
                }
            },
        }
    } else {
        proof {
            if p < s.len() {
                assert(s[p as int].0 != plugin@);
            }
            assert forall|i: int| p <= i < s.len() implies #[trigger] seq_lt(plugin@, s[i].0) by {
                if i == p {
                    assert(s[p as int].0 != plugin@);
                }
            }
        }
        match version {
            Some(v) => {
                let entry = (copy_str(plugin), copy_str(v));
                tools.insert(p, entry);
                proof {
                    lemma_assign_insert(s, p as int, plugin@, v@);
                    assert(tools.deep_view() =~= s.insert(p as int, (plugin@, v@)));
                }
            },
            None => {
                proof {
                    assert forall|i: int| 0 <= i < s.len() implies #[trigger] s[i].0 != plugin@ by {
                        if i == p {
                            assert(s[p as int].0 != plugin@);
                        }
                    }
                    lemma_assign_absent(s, plugin@);
                }
            },
        }
    }
}

/// In a tool map, reading a tool (the last assignment of it wins) gives `v` exactly
/// when the map assigns `v` to it.
proof fn lemma_lookup_is_assignment(s: Seq<(Seq<char>, Seq<char>)>, k: Seq<char>)
    requires
        is_tool_map(s),
    ensures
        forall|v: Seq<char>| lookup_last(s, k) == Some(v) <==> #[trigger] has_assignment(s, k, v),
    decreases s.len(),
{
    if s.len() > 0 {
        let d = s.drop_last();
        assert forall|i: int, j: int| 0 <= i < j < d.len() implies #[trigger] seq_lt(
            tool_keys(d)[i],
            tool_keys(d)[j],
        ) by {
            lemma_keys_index(d, i);
            lemma_keys_index(d, j);
            lemma_keys_index(s, i);
            lemma_keys_index(s, j);
            assert(seq_lt(tool_keys(s)[i], tool_keys(s)[j]));
        }
        lemma_lookup_is_assignment(d, k);
        let n = s.len() - 1;
        assert forall|v: Seq<char>| lookup_last(s, k) == Some(v) <==> #[trigger] has_assignment(s, k, v) by {
            if s.last().0 == k {
                if has_assignment(s, k, v) {
                    let i = choose|i: int| 0 <= i < s.len() && #[trigger] s[i] == (k, v);
                    lemma_unique_key(s, i, n);
                }
                if lookup_last(s, k) == Some(v) {
                    assert(s[n] == (k, v));
                }
            } else {
                if has_assignment(s, k, v) {
                    let i = choose|i: int| 0 <= i < s.len() && #[trigger] s[i] == (k, v);
                    assert(i != n);
                    assert(d[i] == (k, v));
                }
                if has_assignment(d, k, v) {
                    let i = choose|i: int| 0 <= i < d.len() && #[trigger] d[i] == (k, v);
                    assert(s[i] == (k, v));
                }
            }
        }
    }
}

/// A tool-versions file reads back what was last written to it: once a version is
/// assigned to a tool, reading the tool gives that version (nothing once its
/// assignment is removed), and every other tool reads as it did before.
pub proof fn law_assignment_reads_back(
    before: Seq<(Seq<char>, Seq<char>)>,
    after: Seq<(Seq<char>, Seq<char>)>,
    plugin: Seq<char>,
    version: Option<Seq<char>>,
)
    requires
        is_tool_map(before),
        assigned(before, after, plugin, version),
    ensures
        lookup_last(after, plugin) == version,
        forall|k: Seq<char>| k != plugin ==> #[trigger] lookup_last(after, k) == lookup_last(before, k),
{
    lemma_lookup_is_assignment(after, plugin);
    match lookup_last(after, plugin) {
        Some(x) => {
            assert(has_assignment(after, plugin, x));
        },
        None => {
            if let Some(v) = version {
                assert(has_assignment(after, plugin, v));
            }
        },
    }
    assert forall|k: Seq<char>| k != plugin implies #[trigger] lookup_last(after, k) == lookup_last(
        before,
        k,
    ) by {
        lemma_lookup_is_assignment(after, k);
        lemma_lookup_is_assignment(before, k);
        match lookup_last(after, k) {
            Some(x) => {
                assert(has_assignment(after, k, x));
                assert(has_assignment(before, k, x));
            },
            None => {
                if let Some(y) = lookup_last(before, k) {
                    assert(has_assignment(before, k, y));
                    assert(has_assignment(after, k, y));
                }
            },
        }
    }
}

// ---------------------------------------------------------------------------
// Configured versions
// ---------------------------------------------------------------------------

/// Where a tool's configured version comes from: the project (its tool-versions
/// file, else a legacy version file), else the session file, else the global file.
/// Each candidate is the version found there and the file it was found in.
pub fn configured_tool(
    plugin: &str,
    project: Option<(String, String)>,
    session: Option<(String, String)>,
    global: Option<(String, String)>,
) -> (r: Option<CurrentTool>)
    ensures
        match project {
            Some((v, f)) => r matches Some(t) && t.plugin@ == plugin@ && t.version@ == v@ && t.scope
                == Scope::Project && t.source@ == f@,
            None => match session {
                Some((v, f)) => r matches Some(t) && t.plugin@ == plugin@ && t.version@ == v@
                    && t.scope == Scope::Session && t.source@ == f@,
                None => match global {
                    Some((v, f)) => r matches Some(t) && t.plugin@ == plugin@ && t.version@ == v@
                        && t.scope == Scope::Global && t.source@ == f@,
                    None => r is None,
                },
            },
        },
{
    match project {
        Some((v, f)) => Some(CurrentTool { plugin: copy_str(plugin), version: v, scope: Scope::Project, source: f }),
        None => match session {
            Some((v, f)) => Some(
                CurrentTool { plugin: copy_str(plugin), version: v, scope: Scope::Session, source: f },
            ),
            None => match global {
                Some((v, f)) => Some(
                    CurrentTool { plugin: copy_str(plugin), version: v, scope: Scope::Global, source: f },
                ),
                None => None,
            },
        },
    }
}

/// Adds the strings of `v` to a strictly increasing list of strings.
pub fn extend_sorted_set(r: &mut Vec<String>, v: &Vec<String>)
    requires
        strictly_sorted(old(r).deep_view()),
    ensures
        strictly_sorted(final(r).deep_view()),
        final(r).deep_view().to_set() == old(r).deep_view().to_set() + v.deep_view().to_set(),
{
    let ghost s = v.deep_view();
    let ghost start = r.deep_view().to_set();
    let mut i: usize = 0;
    assert(s.take(0).to_set() =~= Set::<Seq<char>>::empty());
    assert(start + Set::<Seq<char>>::empty() =~= start);
    while i < v.len()
        invariant
            i <= s.len(),
            s == v.deep_view(),
            strictly_sorted(r.deep_view()),
            r.deep_view().to_set() == start + s.take(i as int).to_set(),
        decreases s.len() - i,
    {
        assert(s[i as int] == v@[i as int]@);
        insert_unique_sorted(r, v[i].clone());
        proof {
            assert(s.take(i + 1) =~= s.take(i as int).push(s[i as int]));
            s.take(i as int).lemma_push_to_set_commute(s[i as int]);
            assert((start + s.take(i as int).to_set()).insert(s[i as int]) =~= start + s.take(
                i as int,
            ).to_set().insert(s[i as int]));
        }
        i += 1;
    }
    assert(s.take(i as int) =~= s);
}

/// The tools the shell environment considers, in increasing order without repeats:
/// those of the project file, the session file and the global file, and, when
/// legacy version files are read, the tools named there, the added plugins and the
/// installed ones.
pub fn known_tool_names(
    project: &Vec<String>,
    legacy_enabled: bool,
    legacy: &Vec<String>,
    added: &Vec<String>,
    installed: &Vec<String>,
    session: &Vec<String>,
    global: &Vec<String>,
) -> (r: Vec<String>)
    ensures
        strictly_sorted(r.deep_view()),
        r.deep_view().to_set() == project.deep_view().to_set() + (if legacy_enabled {
            legacy.deep_view().to_set() + added.deep_view().to_set() + installed.deep_view().to_set()
        } else {
            Set::empty()
        }) + session.deep_view().to_set() + global.deep_view().to_set(),
{
    let mut r: Vec<String> = Vec::new();
    assert(r.deep_view().to_set() =~= Set::<Seq<char>>::empty());
    extend_sorted_set(&mut r, project);
    let ghost after_project = r.deep_view().to_set();
    assert(after_project =~= project.deep_view().to_set());
    if legacy_enabled {
        extend_sorted_set(&mut r, legacy);
        extend_sorted_set(&mut r, added);
        extend_sorted_set(&mut r, installed);
        assert(r.deep_view().to_set() =~= after_project + (legacy.deep_view().to_set()
            + added.deep_view().to_set() + installed.deep_view().to_set()));
    } else {
        assert(r.deep_view().to_set() =~= after_project + Set::<Seq<char>>::empty());
    }
    extend_sorted_set(&mut r, session);
    extend_sorted_set(&mut r, global);
    r
}

// ---------------------------------------------------------------------------
// The registry index
// ---------------------------------------------------------------------------

/// The registry address in effect: the configured one, or, when none is configured,
/// the default registry of this build (none without the Lua backend).
pub fn effective_registry_address(configured: &str) -> (r: String)
    ensures
        configured@.len() > 0 ==> r@ == configured@,
        configured@.len() == 0 && variant_has_lua(BUILD_RELEASE_VARIANT@) ==> r@
            == DEFAULT_VFOX_REGISTRY_SOURCE@,
        configured@.len() == 0 && !variant_has_lua(BUILD_RELEASE_VARIANT@) ==> r@.len() == 0,
{
    if configured.unicode_len() > 0 {
        return copy_str(configured);
    }
    match default_registry_source() {
        Some(d) => copy_str(d),
        None => copy_str(configured),
    }
}

/// Refreshing the index needs a configured registry address.
pub fn require_registry_address(address: &str) -> (r: Result<(), CoreError>)
    ensures
        address@.len() > 0 ==> r is Ok,
        address@.len() == 0 ==> (r matches Err(CoreError::Unsupported(m)) && m@
            == "registry.address is not configured"@),
{
    if address.unicode_len() > 0 {
        Ok(())
    } else {
        Err(CoreError::Unsupported(copy_str("registry.address is not configured")))
    }
}

/// What a refresh of the index that a lookup triggers comes to: a failed refresh is
/// forgiven when an earlier index is cached, and reported when none is.
pub fn refresh_with_fallback(update: Result<usize, CoreError>, cached_is_empty: bool) -> (r: Result<
    (),
    CoreError,
>)
    ensures
        update is Ok ==> r is Ok,
        update matches Err(e) ==> (if cached_is_empty {
            r == Err::<(), CoreError>(e)
        } else {
            r is Ok
        }),
{
    match update {
        Ok(_) => Ok(()),
        Err(e) => if cached_is_empty {
            Err(e)
        } else {
            Ok(())
        },
    }
}

/// The entries of an index as a refresh stores them: read from a local index, their
/// relative sources are rebased on the index's directory `base_dir`.
pub open spec fn rebased_entries(s: Seq<RegistryEntryView>, remote: bool, base_dir: Seq<char>) -> Seq<
    RegistryEntryView,
> {
    if remote {
        s
    } else {
        s.map_values(
            |e: RegistryEntryView|
                RegistryEntryView {
                    name: e.name,
                    source: rebased(e.source, base_dir),
                    backend: e.backend,
                    description: e.description,
                    aliases: e.aliases,
                },
        )
    }
}

/// The entries a refresh of the index stores, given what the index at
/// `registry_source` lists: from a local index, relative sources rebased on its
/// directory `base_dir`; then only the entries whose backend this build carries, in
/// order. The refresh reports how many it stored.
pub fn index_entries_for_update(registry_source: &str, base_dir: &str, entries: Vec<RegistryEntry>) -> (r:
    Vec<RegistryEntry>)
    ensures
        r.deep_view() == supported_spec(
            rebased_entries(entries.deep_view(), is_remote(registry_source@), base_dir@),
        ),
{
    let ghost s = entries.deep_view();
    let remote = is_remote_registry_source(registry_source);
    let listed = if remote {
        entries
    } else {
        let ghost before = entries@;
        let rebased_list = rebase_relative_sources(entries, base_dir);
        proof {
            assert(rebased_list.deep_view() =~= rebased_entries(s, false, base_dir@)) by {
                assert forall|k: int| 0 <= k < s.len() implies #[trigger] rebased_list.deep_view()[k]
                    == rebased_entries(s, false, base_dir@)[k] by {
                    assert(s[k] == before[k].deep_view());
                    assert(rebased_list.deep_view()[k] == rebased_list@[k].deep_view());
                }
            }
        }
        rebased_list
    };
    supported_entries(&listed)
}

} // verus!
