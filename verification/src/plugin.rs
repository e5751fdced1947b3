//! The plugin interface the application drives, and the native plugins described by
//! a `component.toml` descriptor.
use vstd::prelude::*;

use crate::model::{
    AvailableVersion, EnvKey, InstallArtifact, InstallPlan, InstallSource, InstalledRuntime,
    PluginBackendKind, PluginError, PluginManifest,
};
use crate::order::{first_index, lemma_first_index, lemma_first_index_at};
use crate::paths::{join_path, path_join};
use crate::text::{
    clone_opt, clone_strings, copy_str, replace_all, replace_str, str_eq, trim, trim_seq,
};

verus! {

broadcast use vstd::seq_lib::group_seq_properties;

/// Common runtime interface used by the application layer.
pub trait Plugin {
    /// Returns the immutable plugin manifest.
    fn manifest(&self) -> &PluginManifest;

    /// Lists versions that the plugin can install.
    fn available_versions(&self, args: &Vec<String>) -> Result<Vec<AvailableVersion>, PluginError>;

    /// Builds an install plan for the requested version.
    fn install_plan(&self, version: &str) -> Result<InstallPlan, PluginError>;

    /// Runs optional post-install logic after artifacts are materialized.
    fn post_install(&self, runtime: &InstalledRuntime) -> (r: Result<(), PluginError>)
        default_ensures
            r == Ok::<(), PluginError>(()),
    {
        Ok(())
    }

    /// Returns environment keys that should be exported for the installed version.
    fn env_keys(&self, runtime: &InstalledRuntime) -> Result<Vec<EnvKey>, PluginError>;

    /// Allows a plugin to map the requested version before activation.
    fn pre_use(
        &self,
        requested_version: &str,
        scope: &str,
        cwd: &str,
        previous_version: Option<&str>,
        installed: &Vec<InstalledRuntime>,
    ) -> (r: Result<Option<String>, PluginError>)
        default_ensures
            r == Ok::<Option<String>, PluginError>(None),
    {
        Ok(None)
    }

    /// Attempts to map a legacy file content to a version.
    fn parse_legacy_file(
        &self,
        file_name: &str,
        file_path: &str,
        content: &str,
        installed_versions: &Vec<String>,
        strategy: &str,
    ) -> Result<Option<String>, PluginError>;

    /// Runs optional pre-uninstall logic before a version is removed.
    fn pre_uninstall(&self, runtime: &InstalledRuntime) -> (r: Result<(), PluginError>)
        default_ensures
            r == Ok::<(), PluginError>(()),
    {
        Ok(())
    }
}

/// A version listed by a native plugin descriptor.
#[derive(Debug, Clone, PartialEq, Eq)]
pub struct WasiVersion {
    /// The version.
    pub version: String,
    /// The directory holding it, relative to the plugin source.
    pub source: String,
    /// Optional note.
    pub note: Option<String>,
}

/// An environment variable set by a native plugin; `{install_dir}` in its value
/// stands for the main artifact's directory.
#[derive(Debug, Clone, PartialEq, Eq)]
pub struct WasiEnv {
    pub key: String,
    pub value: String,
}

/// The contents of a native plugin's `component.toml`.
#[derive(Debug, Clone, PartialEq, Eq)]
pub struct WasiDescriptor {
    pub name: String,
    pub description: Option<String>,
    pub aliases: Vec<String>,
    pub legacy_filenames: Vec<String>,
    pub versions: Vec<WasiVersion>,
    pub env: Vec<WasiEnv>,
}

/// Manifest-backed runtime that models a native WASI plugin contract.
#[derive(Debug)]
pub struct WasiPlugin {
    manifest: PluginManifest,
    versions: Vec<WasiVersion>,
    env: Vec<WasiEnv>,
    legacy_filenames: Vec<String>,
}

impl WasiPlugin {
    pub closed spec fn manifest_spec(&self) -> PluginManifest {
        self.manifest
    }

    pub closed spec fn versions_spec(&self) -> Seq<WasiVersion> {
        self.versions@
    }

    pub closed spec fn env_spec(&self) -> Seq<WasiEnv> {
        self.env@
    }

    pub closed spec fn legacy_spec(&self) -> Seq<Seq<char>> {
        self.legacy_filenames.deep_view()
    }

    /// The plugin a descriptor read from the directory `source` describes.
    pub fn from_descriptor(source: &str, descriptor: WasiDescriptor) -> (p: WasiPlugin)
        ensures
            p.manifest_spec().name@ == descriptor.name@,
            p.manifest_spec().backend == PluginBackendKind::Wasi,
            p.manifest_spec().source@ == source@,
            p.manifest_spec().description == descriptor.description,
            p.manifest_spec().aliases == descriptor.aliases,
            p.manifest_spec().version is None,
            p.manifest_spec().homepage is None,
            p.manifest_spec().license is None,
            p.manifest_spec().update_url is None,
            p.manifest_spec().manifest_url is None,
            p.manifest_spec().min_runtime_version is None,
            p.manifest_spec().notes@.len() == 0,
            p.manifest_spec().legacy_filenames.deep_view() == descriptor.legacy_filenames.deep_view(),
            p.versions_spec() == descriptor.versions@,
            p.env_spec() == descriptor.env@,
            p.legacy_spec() == descriptor.legacy_filenames.deep_view(),
    {
        let legacy = clone_strings(&descriptor.legacy_filenames);
        WasiPlugin {
            manifest: PluginManifest {
                name: descriptor.name,
                backend: PluginBackendKind::Wasi,
                source: copy_str(source),
                description: descriptor.description,
                aliases: descriptor.aliases,
                version: None,
                homepage: None,
                license: None,
                update_url: None,
                manifest_url: None,
                min_runtime_version: None,
                notes: Vec::new(),
                legacy_filenames: legacy,
            },
            versions: descriptor.versions,
            env: descriptor.env,
            legacy_filenames: descriptor.legacy_filenames,
        }
    }
}

/// The version named `v`.
pub open spec fn version_named(v: Seq<char>) -> spec_fn(WasiVersion) -> bool {
    |x: WasiVersion| x.version@ == v
}

/// Whether a file name is one of the plugin's legacy files.
fn lists_name(names: &Vec<String>, name: &str) -> (r: bool)
    ensures
        r == names.deep_view().contains(name@),
{
    let mut i: usize = 0;
    while i < names.len()
        invariant
            i <= names@.len(),
            forall|j: int| 0 <= j < i ==> names.deep_view()[j] != name@,
        decreases names@.len() - i,
    {
        assert(names.deep_view()[i as int] == names@[i as int]@);
        if str_eq(names[i].as_str(), name) {
            return true;
        }
        i += 1;
    }
    false
}

impl Plugin for WasiPlugin {
    fn manifest(&self) -> (m: &PluginManifest)
        ensures
            *m == self.manifest_spec(),
    {
        &self.manifest
    }

    /// The descriptor's versions, in order, with their notes.
    fn available_versions(&self, args: &Vec<String>) -> (r: Result<Vec<AvailableVersion>, PluginError>)
        ensures
            r matches Ok(v) && v@.len() == self.versions_spec().len() && forall|k: int|
                0 <= k < v@.len() ==> {
                    &&& (#[trigger] v@[k]).version@ == self.versions_spec()[k].version@
                    &&& v@[k].note.deep_view() == self.versions_spec()[k].note.deep_view()
                    &&& v@[k].additions@.len() == 0
                },
    {
        let mut r: Vec<AvailableVersion> = Vec::new();
        let mut i: usize = 0;
        while i < self.versions.len()
            invariant
                i <= self.versions@.len(),
                r@.len() == i,
                forall|k: int|
                    0 <= k < i ==> {
                        &&& (#[trigger] r@[k]).version@ == self.versions@[k].version@
                        &&& r@[k].note.deep_view() == self.versions@[k].note.deep_view()
                        &&& r@[k].additions@.len() == 0
                    },
            decreases self.versions@.len() - i,
        {
            r.push(
                AvailableVersion {
                    version: self.versions[i].version.clone(),
                    note: clone_opt(&self.versions[i].note),
                    additions: Vec::new(),
                },
            );
            i += 1;
        }
        Ok(r)
    }

    /// The plan of the first listed version equal to `version`: its directory under the
    /// plugin source, copied as the main artifact.
    fn install_plan(&self, version: &str) -> (r: Result<InstallPlan, PluginError>)
        ensures
            match first_index(self.versions_spec(), version_named(version@)) {
                Some(i) => r matches Ok(plan) && {
                    let v = self.versions_spec()[i];
                    &&& plan.plugin@ == self.manifest_spec().name@
                    &&& plan.version@ == v.version@
                    &&& plan.main.name@ == self.manifest_spec().name@
                    &&& plan.main.version@ == v.version@
                    &&& plan.main.source.deep_view() == crate::model::InstallSourceView::Directory {
                        path: path_join(self.manifest_spec().source@, v.source@),
                    }
                    &&& plan.main.note.deep_view() == v.note.deep_view()
                    &&& plan.main.checksum is None
                    &&& plan.additions@.len() == 0
                    &&& plan.legacy_filenames.deep_view() == self.legacy_spec()
                },
                None => r matches Err(PluginError::VersionNotFound { plugin, version: v })
                    && plugin@ == self.manifest_spec().name@ && v@ == version@,
            },
    {
        let ghost p = version_named(version@);
        proof {
            lemma_first_index(self.versions@, p);
        }
        let mut i: usize = 0;
        while i < self.versions.len()
            invariant
                i <= self.versions@.len(),
                p == version_named(version@),
                forall|j: int| 0 <= j < i ==> !p(#[trigger] self.versions@[j]),
            decreases self.versions@.len() - i,
        {
            if str_eq(self.versions[i].version.as_str(), version) {
                proof {
                    lemma_first_index_at(self.versions@, p, i as int);
                }
                let v = &self.versions[i];
                let plan = InstallPlan {
                    plugin: self.manifest.name.clone(),
                    version: v.version.clone(),
                    main: InstallArtifact {
                        name: self.manifest.name.clone(),
                        version: v.version.clone(),
                        source: InstallSource::Directory {
                            path: join_path(self.manifest.source.as_str(), v.source.as_str()),
                        },
                        note: clone_opt(&v.note),
                        checksum: None,
                    },
                    additions: Vec::new(),
                    legacy_filenames: clone_strings(&self.legacy_filenames),
                };
                return Ok(plan);
            }
            i += 1;
        }
        Err(
            PluginError::VersionNotFound {
                plugin: self.manifest.name.clone(),
                version: copy_str(version),
            },
        )
    }

    /// The descriptor's environment, with `{install_dir}` replaced by the main
    /// artifact's path.
    fn env_keys(&self, runtime: &InstalledRuntime) -> (r: Result<Vec<EnvKey>, PluginError>)
        ensures
            r matches Ok(v) && v@.len() == self.env_spec().len() && forall|k: int|
                0 <= k < v@.len() ==> {
                    &&& (#[trigger] v@[k]).key@ == self.env_spec()[k].key@
                    &&& v@[k].value@ == replace_all(
                        self.env_spec()[k].value@,
                        "{install_dir}"@,
                        runtime.main.path@,
                    )
                },
    {
        let mut r: Vec<EnvKey> = Vec::new();
        let mut i: usize = 0;
        proof {
            reveal_strlit("{install_dir}");
        }
        while i < self.env.len()
            invariant
                i <= self.env@.len(),
                r@.len() == i,
                "{install_dir}"@.len() > 0,
                forall|k: int|
                    0 <= k < i ==> {
                        &&& (#[trigger] r@[k]).key@ == self.env@[k].key@
                        &&& r@[k].value@ == replace_all(
                            self.env@[k].value@,
                            "{install_dir}"@,
                            runtime.main.path@,
                        )
                    },
            decreases self.env@.len() - i,
        {
            let value = replace_str(
                self.env[i].value.as_str(),
                "{install_dir}",
                runtime.main.path.as_str(),
            );
            r.push(EnvKey { key: self.env[i].key.clone(), value });
            i += 1;
        }
        Ok(r)
    }

    /// The trimmed content of one of the plugin's legacy files, when not blank.
    fn parse_legacy_file(
        &self,
        file_name: &str,
        file_path: &str,
        content: &str,
        installed_versions: &Vec<String>,
        strategy: &str,
    ) -> (r: Result<Option<String>, PluginError>)
        ensures
            r matches Ok(o) && o.deep_view() == (if self.legacy_spec().contains(file_name@)
                && trim_seq(content@).len() > 0 {
                Some(trim_seq(content@))
            } else {
                None
            }),
    {
        if lists_name(&self.legacy_filenames, file_name) {
            let t = trim(content);
            if t.as_str().is_empty() {
                Ok(None)
            } else {
                Ok(Some(t))
            }
        } else {
            Ok(None)
        }
    }
}

/// Loads native plugins backed by a typed descriptor.
#[derive(Debug, Default, Clone, Copy)]
pub struct WasiBackend;

/// The descriptor file of a native plugin source.
pub open spec fn descriptor_path(source: Seq<char>) -> Seq<char> {
    path_join(source, "component.toml"@)
}

impl WasiBackend {
    /// Loads the native plugin in `source` from what reading and parsing its
    /// `component.toml` gave: the descriptor, or the message of the failure, which
    /// becomes an invalid-source error naming the descriptor file.
    pub fn load(&self, source: &str, descriptor: Result<WasiDescriptor, String>) -> (r: Result<
        WasiPlugin,
        PluginError,
    >)
        ensures
            match descriptor {
                Ok(d) => r matches Ok(p) && p.manifest_spec().name@ == d.name@
                    && p.manifest_spec().source@ == source@ && p.manifest_spec().backend
                    == PluginBackendKind::Wasi && p.versions_spec() == d.versions@ && p.env_spec()
                    == d.env@ && p.legacy_spec() == d.legacy_filenames.deep_view()
                    && p.manifest_spec().description == d.description && p.manifest_spec().aliases
                    == d.aliases,
                Err(m) => r matches Err(PluginError::InvalidSource { path, message }) && path@
                    == descriptor_path(source@) && message@ == m@,
            },
    {
        match descriptor {
            Ok(d) => Ok(WasiPlugin::from_descriptor(source, d)),
            Err(m) => Err(
                PluginError::InvalidSource { path: join_path(source, "component.toml"), message: m },
            ),
        }
    }
}

} // verus!
