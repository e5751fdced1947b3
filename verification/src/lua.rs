//! The data that Lua (vfox-compatible) plugins exchange with the host, and the rules
//! that turn hook results into manifests, versions and install plans.
use vstd::prelude::*;

use crate::installer::ArchiveKind;
use crate::model::{
    AvailableAddition, AvailableVersion, Checksum, InstallArtifact, InstallPlan, InstallSource,
    InstalledArtifact, InstalledRuntime, PluginBackendKind, PluginError, PluginManifest,
};
use crate::paths::{is_absolute, join_path, path_join};
use crate::text::{
    clone_opt, clone_strings, copy_str, ends_with, is_prefix_of, is_suffix_of, starts_with,
    str_eq, trim, trim_seq,
};

verus! {

broadcast use vstd::seq_lib::group_seq_properties;

/// The vfox runtime version this host is compatible with.
pub const VFOX_COMPAT_RUNTIME_VERSION: &'static str = "1.0.6";

/// Metadata extracted from a Lua plugin's top-level table.
#[derive(Debug, Clone, PartialEq, Eq)]
pub struct MetadataFile {
    pub name: String,
    pub version: Option<String>,
    pub description: Option<String>,
    pub aliases: Vec<String>,
    pub homepage: Option<String>,
    pub license: Option<String>,
    pub update_url: Option<String>,
    pub manifest_url: Option<String>,
    pub min_runtime_version: Option<String>,
    pub notes: Vec<String>,
    pub legacy_filenames: Vec<String>,
}

/// Context passed to the `Available` hook.
#[derive(Debug, Clone, PartialEq, Eq)]
pub struct AvailableHookCtx {
    pub args: Vec<String>,
    pub runtime_version: String,
}

/// One version candidate returned by the `Available` hook.
#[derive(Debug, Clone, PartialEq, Eq)]
pub struct AvailableHookResultItem {
    pub version: String,
    pub note: Option<String>,
    pub addition: Vec<AvailableAdditionItem>,
}

/// Additional artifact metadata nested under an available version.
#[derive(Debug, Clone, PartialEq, Eq)]
pub struct AvailableAdditionItem {
    pub name: String,
    pub version: Option<String>,
    pub note: Option<String>,
}

/// Context passed to the `PreInstall` hook for a requested version.
#[derive(Debug, Clone, PartialEq, Eq)]
pub struct PreInstallHookCtx {
    pub version: String,
    pub runtime_version: String,
}

/// Install metadata returned by the `PreInstall` hook.
#[derive(Debug, Clone, PartialEq, Eq)]
pub struct PreInstallHookResult {
    pub name: Option<String>,
    pub version: Option<String>,
    pub url: Option<String>,
    pub headers: Vec<(String, String)>,
    pub note: Option<String>,
    pub sha256: Option<String>,
    pub sha512: Option<String>,
    pub sha1: Option<String>,
    pub md5: Option<String>,
    pub addition: Vec<PreInstallAdditionItem>,
}

/// Additional install artifact returned by the `PreInstall` hook.
#[derive(Debug, Clone, PartialEq, Eq)]
pub struct PreInstallAdditionItem {
    pub name: String,
    pub version: Option<String>,
    pub url: Option<String>,
    pub headers: Vec<(String, String)>,
    pub note: Option<String>,
    pub sha256: Option<String>,
    pub sha512: Option<String>,
    pub sha1: Option<String>,
    pub md5: Option<String>,
}

/// Serializable view of an installed package exposed back to Lua hooks.
#[derive(Debug, Clone, PartialEq, Eq)]
pub struct InstalledPackageItem {
    pub path: String,
    pub version: String,
    pub name: String,
    pub note: Option<String>,
}

/// Context passed to the `EnvKeys` hook.
#[derive(Debug, Clone, PartialEq, Eq)]
pub struct EnvKeysHookCtx {
    pub main: InstalledPackageItem,
    pub path: String,
    pub sdk_info: Vec<(String, InstalledPackageItem)>,
    pub runtime_version: String,
}

/// A single environment variable emitted by the `EnvKeys` hook.
#[derive(Debug, Clone, PartialEq, Eq)]
pub struct EnvKeysHookResultItem {
    pub key: String,
    pub value: String,
}

/// Context passed to the optional `PostInstall` hook.
#[derive(Debug, Clone, PartialEq, Eq)]
pub struct PostInstallHookCtx {
    pub root_path: String,
    pub sdk_info: Vec<(String, InstalledPackageItem)>,
    pub runtime_version: String,
}

/// Context passed to the optional `PreUse` hook.
#[derive(Debug, Clone, PartialEq, Eq)]
pub struct PreUseHookCtx {
    pub cwd: String,
    pub scope: String,
    pub version: String,
    pub previous_version: Option<String>,
    pub installed_sdks: Vec<(String, InstalledPackageItem)>,
    pub runtime_version: String,
}

/// Result returned by the optional `PreUse` hook.
#[derive(Debug, Clone, PartialEq, Eq)]
pub struct PreUseHookResult {
    pub version: String,
}

// ---------------------------------------------------------------------------
// Manifests and versions
// ---------------------------------------------------------------------------

/// Converts Lua plugin metadata into a plugin manifest for the plugin in `source`.
pub fn build_manifest(metadata: MetadataFile, source: &str) -> (m: PluginManifest)
    ensures
        m.name == metadata.name,
        m.backend == PluginBackendKind::Lua,
        m.source@ == source@,
        m.description == metadata.description,
        m.aliases == metadata.aliases,
        m.version == metadata.version,
        m.homepage == metadata.homepage,
        m.license == metadata.license,
        m.update_url == metadata.update_url,
        m.manifest_url == metadata.manifest_url,
        m.min_runtime_version == metadata.min_runtime_version,
        m.notes == metadata.notes,
        m.legacy_filenames == metadata.legacy_filenames,
{
    PluginManifest {
        name: metadata.name,
        backend: PluginBackendKind::Lua,
        source: copy_str(source),
        description: metadata.description,
        aliases: metadata.aliases,
        version: metadata.version,
        homepage: metadata.homepage,
        license: metadata.license,
        update_url: metadata.update_url,
        manifest_url: metadata.manifest_url,
        min_runtime_version: metadata.min_runtime_version,
        notes: metadata.notes,
        legacy_filenames: metadata.legacy_filenames,
    }
}

/// The version an `Available` hook item describes; an addition without a version
/// gets the empty version.
pub fn available_version_from_hook(item: AvailableHookResultItem) -> (v: AvailableVersion)
    ensures
        v.version == item.version,
        v.note == item.note,
        v.additions@.len() == item.addition@.len(),
        forall|k: int|
            0 <= k < v.additions@.len() ==> {
                &&& (#[trigger] v.additions@[k]).name == item.addition@[k].name
                &&& v.additions@[k].version@ == (match item.addition@[k].version {
                    Some(x) => x@,
                    None => Seq::<char>::empty(),
                })
                &&& v.additions@[k].note == item.addition@[k].note
            },
{
    let ghost items = item.addition@;
    let mut additions: Vec<AvailableAddition> = Vec::new();
    let mut rest = item.addition;
    let n = rest.len();
    let mut i: usize = 0;
    while rest.len() > 0
        invariant
            n == items.len(),
            i + rest@.len() == items.len(),
            rest@ == items.skip(i as int),
            additions@.len() == i,
            forall|k: int|
                0 <= k < i ==> {
                    &&& (#[trigger] additions@[k]).name == items[k].name
                    &&& additions@[k].version@ == (match items[k].version {
                        Some(x) => x@,
                        None => Seq::<char>::empty(),
                    })
                    &&& additions@[k].note == items[k].note
                },
        decreases rest@.len(),
    {
        let a = rest.remove(0);
        assert(a == items[i as int]);
        assert(rest@ =~= items.skip(i + 1));
        let version = match a.version {
            Some(x) => x,
            None => String::new(),
        };
        additions.push(AvailableAddition { name: a.name, version, note: a.note });
        i += 1;
    }
    AvailableVersion { version: item.version, note: item.note, additions }
}

fn package_item(a: &InstalledArtifact) -> (p: InstalledPackageItem)
    ensures
        p.path@ == a.path@,
        p.version@ == a.version@,
        p.name@ == a.name@,
        p.note.deep_view() == a.note.deep_view(),
{
    InstalledPackageItem {
        path: a.path.clone(),
        version: a.version.clone(),
        name: a.name.clone(),
        note: clone_opt(&a.note),
    }
}

/// `p` is the package record of `a`, keyed by its name.
pub open spec fn keyed_package(entry: (String, InstalledPackageItem), a: InstalledArtifact) -> bool {
    &&& entry.0@ == a.name@
    &&& entry.1.path@ == a.path@
    &&& entry.1.version@ == a.version@
    &&& entry.1.name@ == a.name@
    &&& entry.1.note.deep_view() == a.note.deep_view()
}

/// The path, version, name and note of a package record.
pub open spec fn item_view(p: InstalledPackageItem) -> (Seq<char>, Seq<char>, Seq<char>, Option<Seq<char>>) {
    (p.path@, p.version@, p.name@, p.note.deep_view())
}

/// The path, version, name and note of an installed artifact.
pub open spec fn artifact_view(a: InstalledArtifact) -> (Seq<char>, Seq<char>, Seq<char>, Option<Seq<char>>) {
    (a.path@, a.version@, a.name@, a.note.deep_view())
}

/// The map that keyed packages fill in order: one entry per key, a later package of a
/// key replacing an earlier one.
pub open spec fn packages_by_name(r: Seq<(String, InstalledPackageItem)>) -> Map<
    Seq<char>,
    (Seq<char>, Seq<char>, Seq<char>, Option<Seq<char>>),
>
    decreases r.len(),
{
    if r.len() == 0 {
        Map::empty()
    } else {
        packages_by_name(r.drop_last()).insert(r.last().0@, item_view(r.last().1))
    }
}

/// Installed artifacts by name: one entry per name, the last artifact of a name
/// winning.
pub open spec fn artifacts_by_name(s: Seq<InstalledArtifact>) -> Map<
    Seq<char>,
    (Seq<char>, Seq<char>, Seq<char>, Option<Seq<char>>),
>
    decreases s.len(),
{
    if s.len() == 0 {
        Map::empty()
    } else {
        artifacts_by_name(s.drop_last()).insert(s.last().name@, artifact_view(s.last()))
    }
}

/// The packages of an installed runtime keyed by artifact name, main artifact first
/// then the additions; as a map, one entry per name, an addition replacing the main
/// artifact or an earlier addition of its name.
pub fn build_installed_package_map(runtime: &InstalledRuntime) -> (r: Vec<
    (String, InstalledPackageItem),
>)
    ensures
        packages_by_name(r@) == artifacts_by_name(seq![runtime.main] + runtime.additions@),
        r@.len() == 1 + runtime.additions@.len(),
        keyed_package(r@[0], runtime.main),
        forall|k: int|
            0 <= k < runtime.additions@.len() ==> keyed_package(
                #[trigger] r@[k + 1],
                runtime.additions@[k],
            ),
{
    let ghost all = seq![runtime.main] + runtime.additions@;
    let mut r: Vec<(String, InstalledPackageItem)> = Vec::new();
    r.push((runtime.main.name.clone(), package_item(&runtime.main)));
    proof {
        assert(r@.drop_last() =~= Seq::<(String, InstalledPackageItem)>::empty());
        assert(all.take(1).drop_last() =~= Seq::<InstalledArtifact>::empty());
        assert(all.take(1).last() == runtime.main);
        assert(packages_by_name(r@.drop_last()) == Map::<Seq<char>, (Seq<char>, Seq<char>, Seq<char>, Option<Seq<char>>)>::empty());
        assert(artifacts_by_name(all.take(1).drop_last()) == Map::<Seq<char>, (Seq<char>, Seq<char>, Seq<char>, Option<Seq<char>>)>::empty());
        assert(packages_by_name(r@) == artifacts_by_name(all.take(1)));
    }
    let mut i: usize = 0;
    while i < runtime.additions.len()
        invariant
            i <= runtime.additions@.len(),
            all == seq![runtime.main] + runtime.additions@,
            r@.len() == 1 + i,
            keyed_package(r@[0], runtime.main),
            forall|k: int| 0 <= k < i ==> keyed_package(#[trigger] r@[k + 1], runtime.additions@[k]),
            packages_by_name(r@) == artifacts_by_name(all.take(i + 1)),
        decreases runtime.additions@.len() - i,
    {
        let a = &runtime.additions[i];
        let ghost before = r@;
        r.push((a.name.clone(), package_item(a)));
        proof {
            assert(r@.drop_last() =~= before);
            assert(all.take(i + 2).drop_last() =~= all.take(i + 1));
            assert(all.take(i + 2).last() == runtime.additions@[i as int]);
        }
        i += 1;
    }
    assert(all.take(i + 1) =~= all);
    r
}

/// The installed runtimes a `PreUse` hook sees, keyed by version.
pub fn installed_sdks_by_version(installed: &Vec<InstalledRuntime>) -> (r: Vec<
    (String, InstalledPackageItem),
>)
    ensures
        r@.len() == installed@.len(),
        forall|k: int|
            0 <= k < r@.len() ==> (#[trigger] r@[k]).0@ == installed@[k].version@ && keyed_package(
                (installed@[k].main.name, r@[k].1),
                installed@[k].main,
            ),
{
    let mut r: Vec<(String, InstalledPackageItem)> = Vec::new();
    let mut i: usize = 0;
    while i < installed.len()
        invariant
            i <= installed@.len(),
            r@.len() == i,
            forall|k: int|
                0 <= k < i ==> (#[trigger] r@[k]).0@ == installed@[k].version@ && keyed_package(
                    (installed@[k].main.name, r@[k].1),
                    installed@[k].main,
                ),
        decreases installed@.len() - i,
    {
        r.push((installed[i].version.clone(), package_item(&installed[i].main)));
        i += 1;
    }
    r
}

// ---------------------------------------------------------------------------
// Install plans
// ---------------------------------------------------------------------------

/// The checksum a hook result asks for: SHA-256 first, then MD5, SHA-1 and SHA-512.
pub open spec fn checksum_choice(
    sha256: Option<Seq<char>>,
    sha512: Option<Seq<char>>,
    sha1: Option<Seq<char>>,
    md5: Option<Seq<char>>,
) -> Option<(Seq<char>, Seq<char>)> {
    match sha256 {
        Some(v) => Some(("sha256"@, v)),
        None => match md5 {
            Some(v) => Some(("md5"@, v)),
            None => match sha1 {
                Some(v) => Some(("sha1"@, v)),
                None => match sha512 {
                    Some(v) => Some(("sha512"@, v)),
                    None => None,
                },
            },
        },
    }
}

pub open spec fn opt_str(o: Option<&str>) -> Option<Seq<char>> {
    match o {
        Some(s) => Some(s@),
        None => None,
    }
}

pub open spec fn checksum_view(c: Option<Checksum>) -> Option<(Seq<char>, Seq<char>)> {
    match c {
        Some(x) => Some((x.algorithm@, x.value@)),
        None => None,
    }
}

fn checksum_of(algorithm: &str, value: &str) -> (c: Option<Checksum>)
    ensures
        checksum_view(c) == Some((algorithm@, value@)),
{
    Some(Checksum { algorithm: copy_str(algorithm), value: copy_str(value) })
}

/// Picks the checksum an artifact is verified with.
pub fn build_checksum(
    sha256: Option<&str>,
    sha512: Option<&str>,
    sha1: Option<&str>,
    md5: Option<&str>,
) -> (r: Option<Checksum>)
    ensures
        checksum_view(r) == checksum_choice(opt_str(sha256), opt_str(sha512), opt_str(sha1), opt_str(md5)),
{
    match sha256 {
        Some(v) => checksum_of("sha256", v),
        None => match md5 {
            Some(v) => checksum_of("md5", v),
            None => match sha1 {
                Some(v) => checksum_of("sha1", v),
                None => match sha512 {
                    Some(v) => checksum_of("sha512", v),
                    None => None,
                },
            },
        },
    }
}

fn opt_as_str(o: &Option<String>) -> (r: Option<&str>)
    ensures
        opt_str(r) == o.deep_view(),
{
    match o {
        Some(s) => Some(s.as_str()),
        None => None,
    }
}

/// Where a local install source lies: an absolute path as given, a relative one under
/// the plugin's directory.
pub fn local_install_path(source: &str, plugin_root: &str) -> (p: String)
    ensures
        p@ == path_join(plugin_root@, source@),
{
    if is_absolute(source) {
        copy_str(source)
    } else {
        join_path(plugin_root, source)
    }
}

/// What an install source the hook names means: an HTTP(S) URL is downloaded with the
/// given headers; a local path (see `local_install_path`) is copied when it is a
/// directory, and unpacked as a file otherwise.
pub open spec fn install_source_spec(
    source: Seq<char>,
    headers: Seq<(Seq<char>, Seq<char>)>,
    plugin_root: Seq<char>,
    path_is_dir: bool,
) -> crate::model::InstallSourceView {
    if is_prefix_of("http://"@, source) || is_prefix_of("https://"@, source) {
        crate::model::InstallSourceView::Url { url: source, headers }
    } else if path_is_dir {
        crate::model::InstallSourceView::Directory { path: path_join(plugin_root, source) }
    } else {
        crate::model::InstallSourceView::File { path: path_join(plugin_root, source) }
    }
}

/// A source given as an `http://` or an `https://` URL is downloaded, with the given
/// headers, and only such a source is; any other source is a path under the
/// plugin's directory (unless absolute), copied when it is a directory and taken as
/// a file otherwise.
pub proof fn law_url_sources_are_downloads(
    source: Seq<char>,
    headers: Seq<(Seq<char>, Seq<char>)>,
    plugin_root: Seq<char>,
    path_is_dir: bool,
)
    ensures
        (is_prefix_of("http://"@, source) || is_prefix_of("https://"@, source))
            <==> install_source_spec(source, headers, plugin_root, path_is_dir) is Url,
        (is_prefix_of("http://"@, source) || is_prefix_of("https://"@, source)) ==> install_source_spec(
            source,
            headers,
            plugin_root,
            path_is_dir,
        ) == (crate::model::InstallSourceView::Url { url: source, headers }),
        !(is_prefix_of("http://"@, source) || is_prefix_of("https://"@, source)) ==> install_source_spec(
            source,
            headers,
            plugin_root,
            path_is_dir,
        ) == (if path_is_dir {
            crate::model::InstallSourceView::Directory { path: path_join(plugin_root, source) }
        } else {
            crate::model::InstallSourceView::File { path: path_join(plugin_root, source) }
        }),
{
}

fn clone_pairs(v: &Vec<(String, String)>) -> (r: Vec<(String, String)>)
    ensures
        r.deep_view() == v.deep_view(),
{
    let mut r: Vec<(String, String)> = Vec::new();
    let mut i: usize = 0;
    while i < v.len()
        invariant
            i <= v@.len(),
            r.deep_view() == v.deep_view().take(i as int),
        decreases v@.len() - i,
    {
        let ghost before = r.deep_view();
        r.push((v[i].0.clone(), v[i].1.clone()));
        assert(r.deep_view() =~= before.push((v@[i as int].0@, v@[i as int].1@)));
        assert(v.deep_view()[i as int] == (v@[i as int].0@, v@[i as int].1@));
        assert(v.deep_view().take(i + 1) =~= v.deep_view().take(i as int).push(v.deep_view()[i as int]));
        assert(r.deep_view() =~= v.deep_view().take(i + 1));
        i += 1;
    }
    assert(v.deep_view().take(i as int) =~= v.deep_view());
    r
}

/// Turns an install source named by a hook into an install source; `path_is_dir`
/// says whether the local path (`local_install_path`) is a directory.
pub fn parse_install_source(
    source: &str,
    headers: &Vec<(String, String)>,
    plugin_root: &str,
    path_is_dir: bool,
) -> (r: InstallSource)
    ensures
        r.deep_view() == install_source_spec(source@, headers.deep_view(), plugin_root@, path_is_dir),
{
    if starts_with(source, "http://") || starts_with(source, "https://") {
        return InstallSource::Url { url: copy_str(source), headers: clone_pairs(headers) };
    }
    let path = local_install_path(source, plugin_root);
    if path_is_dir {
        InstallSource::Directory { path }
    } else {
        InstallSource::File { path }
    }
}

/// The artifact an addition of a `PreInstall` result describes: it must name a source;
/// its version defaults to the resolved version of the install.
pub fn build_addition_artifact(
    resolved_version: &str,
    addition: &PreInstallAdditionItem,
    plugin_root: &str,
    path_is_dir: bool,
) -> (r: Result<InstallArtifact, PluginError>)
    ensures
        match addition.url {
            Some(u) => r matches Ok(a) && {
                &&& a.name@ == addition.name@
                &&& a.version@ == (match addition.version {
                    Some(v) => v@,
                    None => resolved_version@,
                })
                &&& a.source.deep_view() == install_source_spec(
                    u@,
                    addition.headers.deep_view(),
                    plugin_root@,
                    path_is_dir,
                )
                &&& a.note.deep_view() == addition.note.deep_view()
                &&& checksum_view(a.checksum) == checksum_choice(
                    addition.sha256.deep_view(),
                    addition.sha512.deep_view(),
                    addition.sha1.deep_view(),
                    addition.md5.deep_view(),
                )
            },
            None => r matches Err(PluginError::Backend(m)) && m@ == "additional artifact "@
                + addition.name@ + " does not provide a source"@,
        },
{
    let source = match &addition.url {
        Some(u) => parse_install_source(u.as_str(), &addition.headers, plugin_root, path_is_dir),
        None => {
            let mut m = copy_str("additional artifact ");
            m.append(addition.name.as_str());
            m.append(" does not provide a source");
            return Err(PluginError::Backend(m));
        },
    };
    let version = match &addition.version {
        Some(v) => v.clone(),
        None => copy_str(resolved_version),
    };
    Ok(
        InstallArtifact {
            name: addition.name.clone(),
            version,
            source,
            note: clone_opt(&addition.note),
            checksum: build_checksum(
                opt_as_str(&addition.sha256),
                opt_as_str(&addition.sha512),
                opt_as_str(&addition.sha1),
                opt_as_str(&addition.md5),
            ),
        },
    )
}

/// The install plan a `PreInstall` result describes for `version` of the plugin with
/// `manifest`: the result may rename the main artifact and resolve the version; it
/// must name a source; `main_is_dir` and `addition_is_dir` say which local sources are
/// directories.
pub fn install_plan_from_hook(
    manifest: &PluginManifest,
    version: &str,
    result: &PreInstallHookResult,
    main_is_dir: bool,
    addition_is_dir: &Vec<bool>,
) -> (r: Result<InstallPlan, PluginError>)
    requires
        addition_is_dir@.len() == result.addition@.len(),
    ensures
        result.url is None ==> (r matches Err(PluginError::VersionNotFound { plugin, version: v })
            && plugin@ == manifest.name@ && v@ == version@),
        result.url is Some && (forall|k: int|
            0 <= k < result.addition@.len() ==> (#[trigger] result.addition@[k]).url is Some) ==> (
        r matches Ok(plan) && {
            let resolved = match result.version {
                Some(v) => v@,
                None => version@,
            };
            &&& plan.plugin@ == manifest.name@
            &&& plan.version@ == resolved
            &&& plan.main.name@ == (match result.name {
                Some(n) => n@,
                None => manifest.name@,
            })
            &&& plan.main.version@ == resolved
            &&& plan.main.source.deep_view() == install_source_spec(
                result.url->0@,
                result.headers.deep_view(),
                manifest.source@,
                main_is_dir,
            )
            &&& plan.main.note.deep_view() == result.note.deep_view()
            &&& checksum_view(plan.main.checksum) == checksum_choice(
                result.sha256.deep_view(),
                result.sha512.deep_view(),
                result.sha1.deep_view(),
                result.md5.deep_view(),
            )
            &&& plan.additions@.len() == result.addition@.len()
            &&& forall|k: int|
                0 <= k < plan.additions@.len() ==> {
                    let add = result.addition@[k];
                    &&& (#[trigger] plan.additions@[k]).name@ == add.name@
                    &&& plan.additions@[k].version@ == (match add.version {
                        Some(v) => v@,
                        None => resolved,
                    })
                    &&& plan.additions@[k].source.deep_view() == install_source_spec(
                        add.url->0@,
                        add.headers.deep_view(),
                        manifest.source@,
                        addition_is_dir@[k],
                    )
                }
            &&& plan.legacy_filenames.deep_view() == manifest.legacy_filenames.deep_view()
        }),
        result.url is Some && (exists|k: int|
            0 <= k < result.addition@.len() && (#[trigger] result.addition@[k]).url is None) ==> (r matches Err(
            PluginError::Backend(_),
        )),
{
    let resolved = match &result.version {
        Some(v) => v.clone(),
        None => copy_str(version),
    };
    let main_name = match &result.name {
        Some(n) => n.clone(),
        None => manifest.name.clone(),
    };
    let main_source = match &result.url {
        Some(u) => parse_install_source(
            u.as_str(),
            &result.headers,
            manifest.source.as_str(),
            main_is_dir,
        ),
        None => {
            return Err(
                PluginError::VersionNotFound {
                    plugin: manifest.name.clone(),
                    version: copy_str(version),
                },
            );
        },
    };
    let mut additions: Vec<InstallArtifact> = Vec::new();
    let mut k: usize = 0;
    while k < result.addition.len()
        invariant
            k <= result.addition@.len(),
            result.url is Some,
            addition_is_dir@.len() == result.addition@.len(),
            additions@.len() == k,
            forall|j: int| 0 <= j < k ==> (#[trigger] result.addition@[j]).url is Some,
            forall|j: int|
                0 <= j < k ==> {
                    let add = result.addition@[j];
                    &&& (#[trigger] additions@[j]).name@ == add.name@
                    &&& additions@[j].version@ == (match add.version {
                        Some(v) => v@,
                        None => resolved@,
                    })
                    &&& additions@[j].source.deep_view() == install_source_spec(
                        add.url->0@,
                        add.headers.deep_view(),
                        manifest.source@,
                        addition_is_dir@[j],
                    )
                },
        decreases result.addition@.len() - k,
    {
        match build_addition_artifact(
            resolved.as_str(),
            &result.addition[k],
            manifest.source.as_str(),
            addition_is_dir[k],
        ) {
            Ok(a) => additions.push(a),
            Err(e) => {
                return Err(e);
            },
        }
        k += 1;
    }
    Ok(
        InstallPlan {
            plugin: manifest.name.clone(),
            version: resolved.clone(),
            main: InstallArtifact {
                name: main_name,
                version: resolved,
                source: main_source,
                note: clone_opt(&result.note),
                checksum: build_checksum(
                    opt_as_str(&result.sha256),
                    opt_as_str(&result.sha512),
                    opt_as_str(&result.sha1),
                    opt_as_str(&result.md5),
                ),
            },
            additions,
            legacy_filenames: clone_strings(&manifest.legacy_filenames),
        },
    )
}

// ---------------------------------------------------------------------------
// Hooks and the plugin environment
// ---------------------------------------------------------------------------

/// The user agent plugin HTTP requests carry: the vfox runtime, then the plugin with
/// its version when known.
pub fn compute_user_agent(plugin_name: &str, plugin_version: Option<&str>) -> (r: String)
    ensures
        r@ == "vfox/"@ + VFOX_COMPAT_RUNTIME_VERSION@ + " vfox-"@ + plugin_name@ + (match plugin_version {
            Some(v) => "/"@ + v@,
            None => Seq::<char>::empty(),
        }),
{
    let mut r = copy_str("vfox/");
    r.append(VFOX_COMPAT_RUNTIME_VERSION);
    r.append(" vfox-");
    r.append(plugin_name);
    match plugin_version {
        Some(v) => {
            r.append("/");
            r.append(v);
        },
        None => {},
    }
    r
}

/// What a hook call gave back, before its first value is decoded: an error message in
/// the second value is a backend error; a missing first value means no result.
pub fn check_hook_values(first_is_nil: bool, second: Option<String>) -> (r: Result<(), PluginError>)
    ensures
        match second {
            Some(m) => r == Err::<(), PluginError>(PluginError::Backend(m)),
            None => if first_is_nil {
                r == Err::<(), PluginError>(PluginError::NoResultProvided)
            } else {
                r is Ok
            },
        },
{
    match second {
        Some(m) => Err(PluginError::Backend(m)),
        None => if first_is_nil {
            Err(PluginError::NoResultProvided)
        } else {
            Ok(())
        },
    }
}

/// The version a Lua plugin reads from one of its legacy files: what its
/// `ParseLegacyFile` hook returned when it has one, else the file content; trimmed,
/// and nothing when blank.
pub fn legacy_version_from(hook_version: Option<&str>, content: &str) -> (r: Option<String>)
    ensures
        r.deep_view() == {
            let t = match hook_version {
                Some(v) => trim_seq(v@),
                None => trim_seq(content@),
            };
            if t.len() > 0 {
                Some(t)
            } else {
                None
            }
        },
{
    let t = match hook_version {
        Some(v) => trim(v),
        None => trim(content),
    };
    if t.as_str().is_empty() {
        None
    } else {
        Some(t)
    }
}

/// The operating system name Lua plugins see.
pub fn runtime_os_type(os: &str) -> (r: String)
    ensures
        r@ == (if os@ == "macos"@ {
            "darwin"@
        } else {
            os@
        }),
{
    if str_eq(os, "macos") {
        copy_str("darwin")
    } else {
        copy_str(os)
    }
}

/// The architecture name Lua plugins see.
pub fn runtime_arch_type(arch: &str) -> (r: String)
    ensures
        r@ == (if arch@ == "x86_64"@ {
            "amd64"@
        } else if arch@ == "aarch64"@ {
            "arm64"@
        } else {
            arch@
        }),
{
    if str_eq(arch, "x86_64") {
        copy_str("amd64")
    } else if str_eq(arch, "aarch64") {
        copy_str("arm64")
    } else {
        copy_str(arch)
    }
}

/// The hook scripts a plugin without `main.lua` may have, in loading order.
pub fn hook_script_names() -> (r: Vec<&'static str>)
    ensures
        r@.len() == 7,
        r@[0]@ == "available"@,
        r@[1]@ == "pre_install"@,
        r@[2]@ == "env_keys"@,
        r@[3]@ == "post_install"@,
        r@[4]@ == "pre_use"@,
        r@[5]@ == "parse_legacy_file"@,
        r@[6]@ == "pre_uninstall"@,
{
    let mut r: Vec<&'static str> = Vec::new();
    r.push("available");
    r.push("pre_install");
    r.push("env_keys");
    r.push("post_install");
    r.push("pre_use");
    r.push("parse_legacy_file");
    r.push("pre_uninstall");
    r
}

/// The directory a Lua plugin's helper modules live in.
pub fn lua_library_dir(root: &str) -> (p: String)
    ensures
        p@ == path_join(root@, "lib"@),
{
    join_path(root, "lib")
}

/// The Lua module search path with the plugin's `hooks` and `lib` directories in front.
pub fn plugin_package_path(plugin_root: &str, current_path: &str) -> (r: String)
    ensures
        r@ == path_join(path_join(plugin_root@, "hooks"@), "?.lua"@) + ";"@ + path_join(
            path_join(plugin_root@, "lib"@),
            "?.lua"@,
        ) + ";"@ + current_path@,
{
    let hooks = join_path(plugin_root, "hooks");
    let mut r = join_path(hooks.as_str(), "?.lua");
    r.append(";");
    let lib = join_path(plugin_root, "lib");
    let lib_path = join_path(lib.as_str(), "?.lua");
    r.append(lib_path.as_str());
    r.append(";");
    r.append(current_path);
    r
}

/// How the `vfox.archiver` module unpacks a file, by its name; none for other names.
pub fn archiver_format(name: &str) -> (r: Option<ArchiveKind>)
    ensures
        r == (if is_suffix_of(".zip"@, name@) {
            Some(ArchiveKind::Zip)
        } else if is_suffix_of(".tar.gz"@, name@) || is_suffix_of(".tgz"@, name@) {
            Some(ArchiveKind::TarGz)
        } else if is_suffix_of(".tar.xz"@, name@) {
            Some(ArchiveKind::TarXz)
        } else if is_suffix_of(".tar"@, name@) {
            Some(ArchiveKind::Tar)
        } else {
            None
        }),
{
    if ends_with(name, ".zip") {
        Some(ArchiveKind::Zip)
    } else if ends_with(name, ".tar.gz") || ends_with(name, ".tgz") {
        Some(ArchiveKind::TarGz)
    } else if ends_with(name, ".tar.xz") {
        Some(ArchiveKind::TarXz)
    } else if ends_with(name, ".tar") {
        Some(ArchiveKind::Tar)
    } else {
        None
    }
}

/// Loads Lua-backed plugins, with the HTTP proxy their requests go through.
#[derive(Debug, Default, Clone)]
pub struct LuaBackend {
    proxy_url: Option<String>,
}

impl LuaBackend {
    pub closed spec fn proxy_spec(&self) -> Option<Seq<char>> {
        self.proxy_url.deep_view()
    }

    /// Creates a Lua backend with an explicit HTTP proxy.
    pub fn with_proxy(proxy_url: Option<String>) -> (b: LuaBackend)
        ensures
            b.proxy_spec() == proxy_url.deep_view(),
    {
        LuaBackend { proxy_url }
    }

    /// The proxy plugin requests go through.
    pub fn proxy_url(&self) -> (p: Option<&str>)
        ensures
            opt_str(p) == self.proxy_spec(),
    {
        opt_as_str(&self.proxy_url)
    }
}

} // verus!
