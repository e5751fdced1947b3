//! Records the application layer hands out: scopes, active tools, installed
//! versions, summaries, and the application error.
use vstd::prelude::*;

use crate::model::{plugin_error_text, AvailableVersion, PluginError, PluginManifest};
use crate::registry::{registry_error_text, RegistryEntry, RegistryError};
use crate::shell::{shell_error_text, ShellError};
use crate::text::copy_str;

verus! {

/// Scope to target when writing tool versions.
#[derive(Debug, Clone, Copy, PartialEq, Eq, Structural)]
pub enum UseScope {
    /// Persist the version globally.
    Global,
    /// Persist the version in the current project.
    Project,
    /// Persist the version for the active shell session.
    Session,
}

/// The label of a scope.
pub open spec fn use_scope_label(scope: UseScope) -> Seq<char> {
    match scope {
        UseScope::Global => "global"@,
        UseScope::Project => "project"@,
        UseScope::Session => "session"@,
    }
}

impl UseScope {
    /// Returns the stable lowercase scope label used by CLI output and plugin hooks.
    pub fn as_str(self) -> (s: &'static str)
        ensures
            s@ == use_scope_label(self),
    {
        match self {
            UseScope::Global => "global",
            UseScope::Project => "project",
            UseScope::Session => "session",
        }
    }
}

/// Where a configured tool version was found.
#[derive(Debug, Clone, Copy, PartialEq, Eq, Structural)]
pub enum Scope {
    /// The project configuration file or a legacy version file.
    Project,
    /// The session configuration file.
    Session,
    /// The global configuration file.
    Global,
    /// The system itself.
    System,
}

/// A currently resolved tool.
#[derive(Debug, Clone, PartialEq, Eq)]
pub struct CurrentTool {
    /// Tool identifier.
    pub plugin: String,
    /// Resolved version.
    pub version: String,
    /// Resolution scope.
    pub scope: Scope,
    /// Backing source file.
    pub source: String,
}

pub struct CurrentToolView {
    pub plugin: Seq<char>,
    pub version: Seq<char>,
    pub scope: Scope,
    pub source: Seq<char>,
}

impl DeepView for CurrentTool {
    type V = CurrentToolView;

    open spec fn deep_view(&self) -> CurrentToolView {
        CurrentToolView {
            plugin: self.plugin@,
            version: self.version@,
            scope: self.scope,
            source: self.source@,
        }
    }
}

/// A discovered installed version.
#[derive(Debug, Clone, PartialEq, Eq)]
pub struct InstalledVersion {
    /// Tool identifier.
    pub plugin: String,
    /// Installed version.
    pub version: String,
    /// Installation path.
    pub install_dir: String,
}

pub struct InstalledVersionView {
    pub plugin: Seq<char>,
    pub version: Seq<char>,
    pub install_dir: Seq<char>,
}

impl DeepView for InstalledVersion {
    type V = InstalledVersionView;

    open spec fn deep_view(&self) -> InstalledVersionView {
        InstalledVersionView {
            plugin: self.plugin@,
            version: self.version@,
            install_dir: self.install_dir@,
        }
    }
}

impl InstalledVersion {
    /// A copy of the record.
    pub fn duplicate(&self) -> (r: InstalledVersion)
        ensures
            r.deep_view() == self.deep_view(),
    {
        InstalledVersion {
            plugin: self.plugin.clone(),
            version: self.version.clone(),
            install_dir: self.install_dir.clone(),
        }
    }
}

/// Summary for `vs info`.
#[derive(Debug, Clone, PartialEq, Eq)]
pub struct PluginInfo {
    /// Registry entry used to resolve the plugin.
    pub entry: RegistryEntry,
    /// Static plugin manifest.
    pub manifest: PluginManifest,
    /// Available versions exposed by the backend.
    pub available_versions: Vec<AvailableVersion>,
    /// Installed versions already present in the local cache.
    pub installed_versions: Vec<String>,
}

/// Migration result for `vs migrate`.
#[derive(Debug, Clone, PartialEq, Eq)]
pub struct MigrateSummary {
    /// Source home that was migrated.
    pub source_home: String,
    /// Number of filesystem roots copied.
    pub copied_roots: usize,
}

/// Summary for a self-upgrade operation.
#[derive(Debug, Clone, PartialEq, Eq)]
pub struct SelfUpgradeSummary {
    /// Currently running version.
    pub current_version: String,
    /// Latest available version discovered from the release feed.
    pub latest_version: String,
    /// Whether the binary was replaced.
    pub updated: bool,
}

/// Version and build metadata of the running binary.
#[derive(Debug, Clone, PartialEq, Eq)]
pub struct VersionInfo {
    /// The running version, with a leading `v`.
    pub current_version: String,
    /// The target triple the binary was built for.
    pub build_target: String,
    /// The release variant label.
    pub build_variant: String,
    /// The extension of release archives for the target.
    pub archive_extension: String,
}

/// Outcome of an uninstall.
#[derive(Debug, Clone, PartialEq, Eq)]
pub struct UninstallResult {
    /// Whether a version was removed.
    pub removed: bool,
    /// The version that became active instead, if any.
    pub auto_switched: Option<String>,
}

/// Describes a native plugin contract in a strongly typed way.
#[derive(Debug, Clone, PartialEq, Eq)]
pub struct NativePluginContract {
    /// Static plugin metadata.
    pub manifest: PluginManifest,
    /// Versions the plugin can expose.
    pub versions: Vec<AvailableVersion>,
}

/// Errors returned by the application layer.
#[derive(Debug, Clone, PartialEq, Eq)]
pub enum CoreError {
    /// A filesystem operation failed, with its message.
    Io(String),
    /// An HTTP request failed, with its message.
    Http(String),
    /// An archive could not be extracted, with its message.
    Archive(String),
    /// A configuration error, with its message.
    Config(String),
    /// Registry error.
    Registry(RegistryError),
    /// Installer error, with its message.
    Installer(String),
    /// Shell error.
    Shell(ShellError),
    /// Plugin error.
    Plugin(PluginError),
    /// A required plugin is not registered.
    UnknownPlugin(String),
    /// A feature is unavailable in this build.
    Unsupported(String),
    /// The current command requires a session id.
    MissingSessionId,
    /// A requested tool version is not currently active.
    InactiveTool(String),
    /// A command could not parse a registry source file.
    RegistrySource { path: String, message: String },
    /// An external process failed to execute.
    CommandExecution { command: String, message: String },
    /// A migration source could not be found.
    MissingMigrationSource,
    /// The selected backend is not compiled into this build.
    UnsupportedBackend { backend: String, feature: String },
}

/// The human readable message of an application error.
pub open spec fn core_error_text(e: CoreError) -> Seq<char> {
    match e {
        CoreError::Io(t) => t@,
        CoreError::Http(t) => t@,
        CoreError::Archive(t) => t@,
        CoreError::Config(t) => t@,
        CoreError::Registry(r) => registry_error_text(r),
        CoreError::Installer(t) => t@,
        CoreError::Shell(r) => shell_error_text(r),
        CoreError::Plugin(r) => plugin_error_text(r),
        CoreError::UnknownPlugin(name) => "plugin "@ + name@
            + " is not known to the registry or local home"@,
        CoreError::Unsupported(t) => t@,
        CoreError::MissingSessionId => "session scope requires VS_SESSION_ID to be set"@,
        CoreError::InactiveTool(name) => "tool "@ + name@ + " is not currently active"@,
        CoreError::RegistrySource { path, message } => "failed to parse registry source at "@
            + path@ + ": "@ + message@,
        CoreError::CommandExecution { command, message } => "failed to execute command "@
            + command@ + ": "@ + message@,
        CoreError::MissingMigrationSource => "no migration source home is available"@,
        CoreError::UnsupportedBackend { backend, feature } => "plugin backend "@ + backend@
            + " is not enabled in this build; rebuild with the `"@ + feature@ + "` feature"@,
    }
}

impl CoreError {
    /// The human readable message of the error.
    pub fn message(&self) -> (m: String)
        ensures
            m@ == core_error_text(*self),
    {
        match self {
            CoreError::Io(t) => t.clone(),
            CoreError::Http(t) => t.clone(),
            CoreError::Archive(t) => t.clone(),
            CoreError::Config(t) => t.clone(),
            CoreError::Registry(e) => e.message(),
            CoreError::Installer(t) => t.clone(),
            CoreError::Shell(e) => e.message(),
            CoreError::Plugin(e) => e.message(),
            CoreError::UnknownPlugin(name) => {
                let mut m = copy_str("plugin ");
                m.append(name.as_str());
                m.append(" is not known to the registry or local home");
                m
            },
            CoreError::Unsupported(t) => t.clone(),
            CoreError::MissingSessionId => copy_str("session scope requires VS_SESSION_ID to be set"),
            CoreError::InactiveTool(name) => {
                let mut m = copy_str("tool ");
                m.append(name.as_str());
                m.append(" is not currently active");
                m
            },
            CoreError::RegistrySource { path, message } => {
                let mut m = copy_str("failed to parse registry source at ");
                m.append(path.as_str());
                m.append(": ");
                m.append(message.as_str());
                m
            },
            CoreError::CommandExecution { command, message } => {
                let mut m = copy_str("failed to execute command ");
                m.append(command.as_str());
                m.append(": ");
                m.append(message.as_str());
                m
            },
            CoreError::MissingMigrationSource => copy_str("no migration source home is available"),
            CoreError::UnsupportedBackend { backend, feature } => {
                let mut m = copy_str("plugin backend ");
                m.append(backend.as_str());
                m.append(" is not enabled in this build; rebuild with the `");
                m.append(feature.as_str());
                m.append("` feature");
                m
            },
        }
    }
}

} // verus!
