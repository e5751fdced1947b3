//! Plugin-facing data: manifests, versions, install plans and installed runtimes.
use vstd::prelude::*;

use crate::text::copy_str;

verus! {

/// Supported plugin backend implementations.
#[derive(Debug, Clone, Copy, PartialEq, Eq, Structural)]
pub enum PluginBackendKind {
    /// Lua-compatible plugin backend.
    Lua,
    /// Native plugin backend modeled after a WASI component contract.
    Wasi,
}

/// Errors shared by plugin backends.
#[derive(Debug, Clone, PartialEq, Eq)]
pub enum PluginError {
    /// The plugin source could not be parsed.
    InvalidSource { path: String, message: String },
    /// The requested plugin version is not exposed by the plugin.
    VersionNotFound { plugin: String, version: String },
    /// The plugin did not provide a result for the requested hook.
    NoResultProvided,
    /// The backend hit an execution error.
    Backend(String),
}

/// The human readable message of a plugin error.
pub open spec fn plugin_error_text(e: PluginError) -> Seq<char> {
    match e {
        PluginError::InvalidSource { path, message } => "failed to parse plugin source at "@ + path@
            + ": "@ + message@,
        PluginError::VersionNotFound { plugin, version } => "plugin "@ + plugin@
            + " does not expose version "@ + version@,
        PluginError::NoResultProvided => "plugin did not provide a result"@,
        PluginError::Backend(text) => "plugin backend error: "@ + text@,
    }
}

impl PluginError {
    /// The human readable message of the error.
    pub fn message(&self) -> (m: String)
        ensures
            m@ == plugin_error_text(*self),
    {
        match self {
            PluginError::InvalidSource { path, message } => {
                let mut m = copy_str("failed to parse plugin source at ");
                m.append(path.as_str());
                m.append(": ");
                m.append(message.as_str());
                m
            },
            PluginError::VersionNotFound { plugin, version } => {
                let mut m = copy_str("plugin ");
                m.append(plugin.as_str());
                m.append(" does not expose version ");
                m.append(version.as_str());
                m
            },
            PluginError::NoResultProvided => copy_str("plugin did not provide a result"),
            PluginError::Backend(text) => {
                let mut m = copy_str("plugin backend error: ");
                m.append(text.as_str());
                m
            },
        }
    }
}

/// Registry metadata for a plugin.
#[derive(Debug, Clone, PartialEq, Eq)]
pub struct PluginManifest {
    /// Stable plugin identifier.
    pub name: String,
    /// Runtime backend used to execute hooks.
    pub backend: PluginBackendKind,
    /// Local source directory of the plugin.
    pub source: String,
    /// Optional human readable description.
    pub description: Option<String>,
    /// Alternative names accepted by the CLI.
    pub aliases: Vec<String>,
    /// Plugin version.
    pub version: Option<String>,
    /// Project homepage.
    pub homepage: Option<String>,
    /// License identifier.
    pub license: Option<String>,
    /// Where an updated plugin can be found.
    pub update_url: Option<String>,
    /// Where the plugin manifest can be fetched.
    pub manifest_url: Option<String>,
    /// Minimum runtime version the plugin needs.
    pub min_runtime_version: Option<String>,
    /// Free-form notes.
    pub notes: Vec<String>,
    /// Legacy version file names understood by the plugin.
    pub legacy_filenames: Vec<String>,
}

/// Additional artifact metadata nested under an available version.
#[derive(Debug, Clone, PartialEq, Eq)]
pub struct AvailableAddition {
    /// Artifact name.
    pub name: String,
    /// Artifact version.
    pub version: String,
    /// Optional note.
    pub note: Option<String>,
}

pub struct AvailableAdditionView {
    pub name: Seq<char>,
    pub version: Seq<char>,
    pub note: Option<Seq<char>>,
}

impl DeepView for AvailableAddition {
    type V = AvailableAdditionView;

    open spec fn deep_view(&self) -> AvailableAdditionView {
        AvailableAdditionView {
            name: self.name@,
            version: self.version@,
            note: self.note.deep_view(),
        }
    }
}

/// A version published by a plugin.
#[derive(Debug, Clone, PartialEq, Eq)]
pub struct AvailableVersion {
    /// Version string as understood by the plugin.
    pub version: String,
    /// Optional human-readable note.
    pub note: Option<String>,
    /// Additional artifacts shipped with the version.
    pub additions: Vec<AvailableAddition>,
}

pub struct AvailableVersionView {
    pub version: Seq<char>,
    pub note: Option<Seq<char>>,
    pub additions: Seq<AvailableAdditionView>,
}

impl DeepView for AvailableVersion {
    type V = AvailableVersionView;

    open spec fn deep_view(&self) -> AvailableVersionView {
        AvailableVersionView {
            version: self.version@,
            note: self.note.deep_view(),
            additions: self.additions.deep_view(),
        }
    }
}

/// A checksum that an artifact must match.
#[derive(Debug, Clone, PartialEq, Eq)]
pub struct Checksum {
    /// `sha256`, `sha512`, `sha1` or `md5`.
    pub algorithm: String,
    /// Expected hexadecimal digest.
    pub value: String,
}

pub struct ChecksumView {
    pub algorithm: Seq<char>,
    pub value: Seq<char>,
}

impl DeepView for Checksum {
    type V = ChecksumView;

    open spec fn deep_view(&self) -> ChecksumView {
        ChecksumView { algorithm: self.algorithm@, value: self.value@ }
    }
}

/// Where the bytes of an artifact come from.
#[derive(Debug, Clone, PartialEq, Eq)]
pub enum InstallSource {
    /// A local directory copied as is.
    Directory { path: String },
    /// A local file, unpacked when it is an archive.
    File { path: String },
    /// A remote file, downloaded with the given headers.
    Url { url: String, headers: Vec<(String, String)> },
}

pub enum InstallSourceView {
    Directory { path: Seq<char> },
    File { path: Seq<char> },
    Url { url: Seq<char>, headers: Seq<(Seq<char>, Seq<char>)> },
}

impl DeepView for InstallSource {
    type V = InstallSourceView;

    open spec fn deep_view(&self) -> InstallSourceView {
        match self {
            InstallSource::Directory { path } => InstallSourceView::Directory { path: path@ },
            InstallSource::File { path } => InstallSourceView::File { path: path@ },
            InstallSource::Url { url, headers } => InstallSourceView::Url {
                url: url@,
                headers: headers.deep_view(),
            },
        }
    }
}

/// One artifact of an install plan.
#[derive(Debug, Clone, PartialEq, Eq)]
pub struct InstallArtifact {
    /// Artifact name.
    pub name: String,
    /// Artifact version.
    pub version: String,
    /// Where the artifact comes from.
    pub source: InstallSource,
    /// Optional note.
    pub note: Option<String>,
    /// Optional checksum of the downloaded file.
    pub checksum: Option<Checksum>,
}

pub struct InstallArtifactView {
    pub name: Seq<char>,
    pub version: Seq<char>,
    pub source: InstallSourceView,
    pub note: Option<Seq<char>>,
    pub checksum: Option<ChecksumView>,
}

impl DeepView for InstallArtifact {
    type V = InstallArtifactView;

    open spec fn deep_view(&self) -> InstallArtifactView {
        InstallArtifactView {
            name: self.name@,
            version: self.version@,
            source: self.source.deep_view(),
            note: self.note.deep_view(),
            checksum: self.checksum.deep_view(),
        }
    }
}

/// What should be installed for a version.
#[derive(Debug, Clone, PartialEq, Eq)]
pub struct InstallPlan {
    /// Plugin name used for diagnostics.
    pub plugin: String,
    /// Version that will be installed.
    pub version: String,
    /// The main artifact.
    pub main: InstallArtifact,
    /// Additional artifacts.
    pub additions: Vec<InstallArtifact>,
    /// Legacy file names understood by the plugin.
    pub legacy_filenames: Vec<String>,
}

/// An artifact placed in an installed runtime.
#[derive(Debug, Clone, PartialEq, Eq)]
pub struct InstalledArtifact {
    /// Artifact name.
    pub name: String,
    /// Artifact version.
    pub version: String,
    /// Where the artifact was placed.
    pub path: String,
    /// Optional note.
    pub note: Option<String>,
}

pub struct InstalledArtifactView {
    pub name: Seq<char>,
    pub version: Seq<char>,
    pub path: Seq<char>,
    pub note: Option<Seq<char>>,
}

impl DeepView for InstalledArtifact {
    type V = InstalledArtifactView;

    open spec fn deep_view(&self) -> InstalledArtifactView {
        InstalledArtifactView {
            name: self.name@,
            version: self.version@,
            path: self.path@,
            note: self.note.deep_view(),
        }
    }
}

/// An installed runtime, as recorded in its install receipt.
#[derive(Debug, Clone, PartialEq, Eq)]
pub struct InstalledRuntime {
    /// Plugin identifier.
    pub plugin: String,
    /// Installed version.
    pub version: String,
    /// Root directory of the installed version.
    pub root_dir: String,
    /// The main artifact.
    pub main: InstalledArtifact,
    /// Additional artifacts.
    pub additions: Vec<InstalledArtifact>,
}

/// An environment key emitted by a plugin.
#[derive(Debug, Clone, PartialEq, Eq)]
pub struct EnvKey {
    /// Environment variable name.
    pub key: String,
    /// Environment variable value.
    pub value: String,
}

/// Metadata persisted after a successful install.
pub type InstallReceipt = InstalledRuntime;

} // verus!
