use vs::app_rules::{
    command_not_found, migration_roots, migration_source, no_version_configured, path_with_delta,
    runtime_not_loaded, select_install_version,
    apply_exec_env_keys, apply_registry_manifest, command_lookup, command_lookup_windows,
    first_executable, effective_runtime_dir, entry_from_registry,
    entry_from_source, gitignore_addition, is_remote_registry_source, is_remote_source,
    linked_runtime_dir, normalize_source_path, not_installed_error, push_alias,
    rebase_relative_sources, require_add_name, resolve_requested_use_version, seed_entry,
    sort_current_tools, uninstall_result, verify_hook_env, CommandLookup,
    DEFAULT_VFOX_REGISTRY_SOURCE,
};
use vs::core_model::{CoreError, CurrentTool, Scope, UseScope};
use vs::order::sorted_set_of;
use vs::model::{AvailableVersion, EnvKey, PluginBackendKind, PluginManifest};
use vs::registry::RegistryEntry;
use vs::shell::EnvDelta;

fn strings(items: &[&str]) -> Vec<String> {
    items.iter().map(|s| s.to_string()).collect()
}

fn manifest(name: &str, aliases: &[&str], description: Option<&str>) -> PluginManifest {
    PluginManifest {
        name: String::from(name),
        backend: PluginBackendKind::Lua,
        source: String::from("/src"),
        description: description.map(String::from),
        aliases: strings(aliases),
        version: None,
        homepage: None,
        license: None,
        update_url: None,
        manifest_url: None,
        min_runtime_version: None,
        notes: Vec::new(),
        legacy_filenames: Vec::new(),
    }
}

fn tool(plugin: &str, scope: Scope) -> CurrentTool {
    CurrentTool {
        plugin: String::from(plugin),
        version: String::from("1.0"),
        scope,
        source: String::from("/cfg"),
    }
}

#[test]
fn is_remote_source_should_match_http_and_https() {
    assert!(is_remote_source("https://example.com/plugin.zip"));
    assert!(is_remote_source("http://example.com/plugin.zip"));
    assert!(!is_remote_source("/tmp/plugin"));
    assert!(!is_remote_source("../plugin"));
}

#[test]
fn default_registry_source_should_be_remote() {
    assert!(is_remote_registry_source(DEFAULT_VFOX_REGISTRY_SOURCE));
}

#[test]
fn project_scope_should_not_require_shell_hooks() {
    assert_eq!(verify_hook_env(false, UseScope::Project, false).ok(), Some(UseScope::Project));
    assert_eq!(verify_hook_env(false, UseScope::Global, false).ok(), Some(UseScope::Global));
}

#[test]
fn session_scope_should_require_shell_hooks_on_unix() {
    let error = match verify_hook_env(false, UseScope::Session, false) {
        Ok(scope) => panic!("session scope unexpectedly succeeded with scope {scope:?}"),
        Err(error) => error,
    };
    assert!(error.message().contains("vs requires hook support"));
}

#[test]
fn session_scope_should_fallback_to_global_without_shell_hooks_on_windows() {
    assert_eq!(verify_hook_env(false, UseScope::Session, true).ok(), Some(UseScope::Global));
    assert_eq!(verify_hook_env(true, UseScope::Session, false).ok(), Some(UseScope::Session));
}

#[test]
fn scope_labels() {
    assert_eq!(UseScope::Global.as_str(), "global");
    assert_eq!(UseScope::Project.as_str(), "project");
    assert_eq!(UseScope::Session.as_str(), "session");
}

#[test]
fn requested_versions_resolve_latest() {
    let available = vec![AvailableVersion { version: String::from("21.0.0"), note: None, additions: Vec::new() }];
    assert_eq!(resolve_requested_use_version("nodejs", "20", &available).ok(), Some(String::from("20")));
    assert_eq!(resolve_requested_use_version("nodejs", "latest", &available).ok(), Some(String::from("21.0.0")));
    match resolve_requested_use_version("nodejs", "latest", &Vec::new()) {
        Err(error) => assert_eq!(error.message(), "plugin nodejs does not expose any available versions"),
        Ok(_) => panic!("nothing available"),
    }
    assert_eq!(
        not_installed_error("nodejs", "20.11.1").message(),
        "nodejs@20.11.1 is not installed. Please run `vs install nodejs@20.11.1` first"
    );
}

#[test]
fn gitignore_gets_vs_once() {
    assert_eq!(gitignore_addition(""), Some(".vs/\n"));
    assert_eq!(gitignore_addition("target\n"), Some(".vs/\n"));
    assert_eq!(gitignore_addition("target"), Some("\n.vs/\n"));
    assert_eq!(gitignore_addition("target\n  .vs/  \n"), None);
    assert_eq!(gitignore_addition(".vs"), None);
}

#[test]
fn runtime_dirs_follow_scope_links() {
    let project = tool("nodejs", Scope::Project);
    assert_eq!(linked_runtime_dir(&project, "/rt", "/work"), Some(String::from("/work/.vs/sdks/nodejs")));
    assert_eq!(effective_runtime_dir(&project, "/rt", "/work", true), "/work/.vs/sdks/nodejs");
    assert_eq!(effective_runtime_dir(&project, "/rt", "/work", false), "/rt/cache/nodejs/versions/1.0");
    let global = tool("nodejs", Scope::Global);
    assert_eq!(effective_runtime_dir(&global, "/rt", "/work", true), "/rt/cache/nodejs/current");
    let session = tool("nodejs", Scope::Session);
    assert_eq!(linked_runtime_dir(&session, "/rt", "/work"), None);
    assert_eq!(effective_runtime_dir(&session, "/rt", "/work", true), "/rt/cache/nodejs/versions/1.0");
}

#[test]
fn current_tools_sort_by_plugin() {
    let sorted = sort_current_tools(vec![tool("zig", Scope::Global), tool("go", Scope::Project), tool("node", Scope::Session)]);
    let names: Vec<&str> = sorted.iter().map(|t| t.plugin.as_str()).collect();
    assert_eq!(names, vec!["go", "node", "zig"]);
}

#[test]
fn commands_are_run_directly_or_searched() {
    assert_eq!(command_lookup("/usr/bin/node", &Vec::new(), &Vec::new()), CommandLookup::Direct(String::from("/usr/bin/node")));
    assert_eq!(command_lookup("./node", &Vec::new(), &Vec::new()), CommandLookup::Direct(String::from("./node")));
    assert_eq!(
        command_lookup("node", &strings(&["/rt/bin"]), &strings(&["/usr/bin", "/bin/"])),
        CommandLookup::Search(strings(&["/rt/bin/node", "/usr/bin/node", "/bin/node"]))
    );
}

#[test]
fn exec_env_keys_split_path_entries() {
    let mut delta = EnvDelta::default();
    apply_exec_env_keys(
        &mut delta,
        vec![
            EnvKey { key: String::from("PATH"), value: String::from("/rt/bin") },
            EnvKey { key: String::from("HOME_X"), value: String::from("/rt") },
        ],
    );
    assert_eq!(delta.path_entries, strings(&["/rt/bin"]));
    assert_eq!(delta.vars, vec![(String::from("HOME_X"), String::from("/rt"))]);
}

#[test]
fn uninstall_results() {
    assert_eq!(uninstall_result(false, &strings(&["1"]), true).removed, false);
    assert_eq!(uninstall_result(true, &Vec::new(), true).auto_switched, None);
    assert_eq!(uninstall_result(true, &strings(&["1", "2"]), true).auto_switched, Some(String::from("1")));
    assert_eq!(uninstall_result(true, &strings(&["1", "2"]), false).auto_switched, None);
}

#[test]
fn sources_and_aliases_when_adding() {
    assert_eq!(normalize_source_path("/work", "plugins/x"), "/work/plugins/x");
    assert_eq!(normalize_source_path("/work", "/abs"), "/abs");
    let seed = seed_entry(None, Some("node"), "plugins/x", PluginBackendKind::Lua, "/work");
    assert_eq!(seed.name, "node");
    assert_eq!(seed.source, "/work/plugins/x");
    let seed = seed_entry(None, None, "https://x/p.zip", PluginBackendKind::Wasi, "/work");
    assert_eq!(seed.name, "plugin");
    assert_eq!(seed.source, "https://x/p.zip");

    let mut aliases = Vec::new();
    push_alias(&mut aliases, Some("  nd "));
    push_alias(&mut aliases, Some("   "));
    push_alias(&mut aliases, None);
    assert_eq!(aliases, strings(&["nd"]));

    let from_source = entry_from_source(Some("node"), None, "/src/x", PluginBackendKind::Lua, &manifest("nodejs", &["js"], Some("JS")));
    assert_eq!(from_source.name, "node");
    assert_eq!(from_source.aliases, strings(&["js", "nodejs"]));
    assert_eq!(from_source.description.as_deref(), Some("JS"));

    let registered = RegistryEntry {
        name: String::from("nodejs"),
        source: String::from("https://x/n.zip"),
        backend: PluginBackendKind::Lua,
        description: Some(String::from("index")),
        aliases: strings(&["node", "js"]),
    };
    let from_registry = entry_from_registry("nodejs", Some("nd"), &registered, "/sources/nodejs", &manifest("nodejs", &["node", "zz"], None));
    assert_eq!(from_registry.name, "nd");
    assert_eq!(from_registry.aliases, strings(&["js", "node", "nodejs", "zz"]));
    assert_eq!(from_registry.description.as_deref(), Some("index"));
    assert_eq!(from_registry.source, "/sources/nodejs");

    match require_add_name(None) {
        Err(CoreError::Unsupported(message)) => assert_eq!(message, "add requires a plugin name unless --source is provided"),
        _ => panic!("a name is required"),
    }
}

#[test]
fn relative_registry_sources_are_rebased() {
    let entries = vec![
        RegistryEntry { name: String::from("a"), source: String::from("plugins/a"), backend: PluginBackendKind::Lua, description: None, aliases: Vec::new() },
        RegistryEntry { name: String::from("b"), source: String::from("/abs/b"), backend: PluginBackendKind::Lua, description: None, aliases: Vec::new() },
    ];
    let rebased = rebase_relative_sources(entries, "/registry");
    assert_eq!(rebased[0].source, "/registry/plugins/a");
    assert_eq!(rebased[1].source, "/abs/b");
}

#[test]
fn path_composes_delta_then_base() {
    assert_eq!(
        path_with_delta(&strings(&["/rt/bin"]), Some("/usr/bin:/bin")).ok(),
        Some(String::from("/rt/bin:/usr/bin:/bin"))
    );
    assert_eq!(path_with_delta(&strings(&["/a", "/b"]), None).ok(), Some(String::from("/a:/b")));
    assert_eq!(path_with_delta(&strings(&["/a"]), Some("")).ok(), Some(String::from("/a:")));
    match path_with_delta(&strings(&["/a:b"]), None) {
        Err(error) => assert_eq!(error.message(), "failed to join PATH entries: path segment contains separator `:`"),
        Ok(_) => panic!("colon in an entry"),
    }
}

#[test]
fn exec_error_messages() {
    assert_eq!(command_not_found("node", "nodejs").message(), "failed to execute command node: command not found in nodejs environment");
    assert_eq!(no_version_configured("nodejs").message(), "no version configured for nodejs. Please use `vs use` first");
    assert_eq!(runtime_not_loaded("nodejs", "20").message(), "failed to load installed runtime for nodejs@20");
}

#[test]
fn names_collect_into_a_sorted_set() {
    assert_eq!(sorted_set_of(&strings(&["zig", "go", "zig", "deno"])), strings(&["deno", "go", "zig"]));
    assert!(sorted_set_of(&Vec::new()).is_empty());
}

#[test]
fn install_versions_and_migration_sources() {
    let available = vec![AvailableVersion { version: String::from("21.0.0"), note: None, additions: Vec::new() }];
    assert_eq!(select_install_version("nodejs", Some("20"), &available).ok(), Some(String::from("20")));
    assert_eq!(select_install_version("nodejs", None, &available).ok(), Some(String::from("21.0.0")));
    match select_install_version("nodejs", None, &Vec::new()) {
        Err(error) => assert_eq!(error.message(), "plugin nodejs does not expose installable versions"),
        Ok(_) => panic!("nothing to install"),
    }
    assert_eq!(migration_source("/work", Some("old"), &Vec::new()).ok(), Some(String::from("/work/old")));
    assert_eq!(migration_source("/work", None, &strings(&["/home/u/.version-fox"])).ok(), Some(String::from("/home/u/.version-fox")));
    assert_eq!(migration_source("/work", None, &Vec::new()).err(), Some(CoreError::MissingMigrationSource));
    assert_eq!(migration_roots(), vec!["config.yaml", "global", "registry", "plugins", "cache"]);
}

#[test]
fn registry_manifest_should_redirect_source_and_fill_description() {
    let mut entry = RegistryEntry {
        name: String::from("nodejs"),
        source: String::from("/local/nodejs"),
        backend: PluginBackendKind::Lua,
        description: Some(String::from("old")),
        aliases: strings(&["node"]),
    };
    apply_registry_manifest(&mut entry, "https://example.com/nodejs.zip", None);
    assert_eq!(entry.source, "https://example.com/nodejs.zip");
    assert_eq!(entry.description.as_deref(), Some("old"));
    apply_registry_manifest(&mut entry, "https://example.com/nodejs-2.zip", Some(String::from("Node.js")));
    assert_eq!(entry.source, "https://example.com/nodejs-2.zip");
    assert_eq!(entry.description.as_deref(), Some("Node.js"));
    assert_eq!(entry.name, "nodejs");
    assert_eq!(entry.aliases, strings(&["node"]));
}

#[test]
fn windows_lookup_should_try_pathext_extensions_in_each_directory() {
    let preferred = strings(&["C:\\sdk\\bin"]);
    let path = strings(&["C:\\Windows\\"]);
    assert_eq!(
        command_lookup_windows("node", &preferred, &path, Some(".EXE;;.CMD")),
        CommandLookup::Search(strings(&[
            "C:\\sdk\\bin\\node.EXE",
            "C:\\sdk\\bin\\node.CMD",
            "C:\\Windows\\node.EXE",
            "C:\\Windows\\node.CMD",
        ]))
    );
    assert_eq!(
        command_lookup_windows("node.exe", &preferred, &Vec::new(), None),
        CommandLookup::Search(strings(&["C:\\sdk\\bin\\node.exe"]))
    );
    assert_eq!(
        command_lookup_windows("npm", &Vec::new(), &path, None),
        CommandLookup::Search(strings(&[
            "C:\\Windows\\npm.COM",
            "C:\\Windows\\npm.EXE",
            "C:\\Windows\\npm.BAT",
            "C:\\Windows\\npm.CMD",
        ]))
    );
    assert_eq!(
        command_lookup_windows("bin\\node", &preferred, &path, None),
        CommandLookup::Direct(String::from("bin\\node"))
    );
}

#[test]
fn first_executable_should_pick_the_first_usable_candidate() {
    let candidates = strings(&["/a/node", "/b/node", "/c/node"]);
    assert_eq!(first_executable(&candidates, &vec![false, true, true]), Some(String::from("/b/node")));
    assert_eq!(first_executable(&candidates, &vec![false, false, false]), None);
}
