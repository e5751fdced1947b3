use vs::app_rules::DEFAULT_VFOX_REGISTRY_SOURCE;
use vs::core_model::{CoreError, Scope, UseScope};
use vs::legacy::tool_version_of;
use vs::model::{InstalledArtifact, InstalledRuntime, PluginBackendKind};
use vs::registry::RegistryEntry;
use vs::tools::{
    assign_tool, configured_tool, default_backend, default_registry_source,
    effective_registry_address, ensure_backend_supported, extend_sorted_set, index_entries_for_update,
    is_backend_enabled,
    known_tool_names, refresh_with_fallback, require_registry_address, supported_entries,
    unuse_tool_actions, use_resolved_version, use_tool_actions, UseAction,
};

fn strings(items: &[&str]) -> Vec<String> {
    items.iter().map(|s| s.to_string()).collect()
}

fn pair(k: &str, v: &str) -> (String, String) {
    (String::from(k), String::from(v))
}

fn runtime(version: &str) -> InstalledRuntime {
    InstalledRuntime {
        plugin: String::from("nodejs"),
        version: String::from(version),
        root_dir: format!("/home/.vs/cache/nodejs/versions/{version}"),
        main: InstalledArtifact {
            name: String::from("nodejs"),
            version: String::from(version),
            path: format!("/home/.vs/cache/nodejs/versions/{version}/nodejs-{version}"),
            note: None,
        },
        additions: Vec::new(),
    }
}

#[test]
fn full_build_should_carry_both_backends() {
    assert!(is_backend_enabled(PluginBackendKind::Lua));
    assert!(is_backend_enabled(PluginBackendKind::Wasi));
    assert_eq!(ensure_backend_supported(PluginBackendKind::Lua), Ok(()));
    assert_eq!(ensure_backend_supported(PluginBackendKind::Wasi), Ok(()));
    assert_eq!(default_backend(), Ok(PluginBackendKind::Lua));
    assert_eq!(default_registry_source(), Some(DEFAULT_VFOX_REGISTRY_SOURCE));
}

#[test]
fn supported_entries_should_keep_entries_of_carried_backends_in_order() {
    let entries = vec![
        RegistryEntry {
            name: String::from("nodejs"),
            source: String::from("/a"),
            backend: PluginBackendKind::Lua,
            description: None,
            aliases: Vec::new(),
        },
        RegistryEntry {
            name: String::from("deno"),
            source: String::from("/b"),
            backend: PluginBackendKind::Wasi,
            description: Some(String::from("Deno")),
            aliases: strings(&["dn"]),
        },
    ];
    assert_eq!(supported_entries(&entries), entries);
}

#[test]
fn assign_tool_should_keep_tools_sorted_and_read_back() {
    let mut tools = Vec::new();
    assign_tool(&mut tools, "python", Some("3.12.1"));
    assign_tool(&mut tools, "nodejs", Some("20.11.1"));
    assign_tool(&mut tools, "java", Some("21"));
    assert_eq!(
        tools,
        vec![pair("java", "21"), pair("nodejs", "20.11.1"), pair("python", "3.12.1")]
    );
    assign_tool(&mut tools, "nodejs", Some("22.1.0"));
    assert_eq!(tool_version_of(&tools, "nodejs"), Some(String::from("22.1.0")));
    assert_eq!(tool_version_of(&tools, "java"), Some(String::from("21")));
    assert_eq!(tools.len(), 3);
    assign_tool(&mut tools, "java", None);
    assert_eq!(tool_version_of(&tools, "java"), None);
    assert_eq!(tools, vec![pair("nodejs", "22.1.0"), pair("python", "3.12.1")]);
    assign_tool(&mut tools, "golang", None);
    assert_eq!(tools, vec![pair("nodejs", "22.1.0"), pair("python", "3.12.1")]);
}

#[test]
fn configured_tool_should_prefer_project_then_session_then_global() {
    let project = Some(pair("20.11.1", "/work/.vs.toml"));
    let session = Some(pair("18.19.0", "/home/.vs/sessions/1.toml"));
    let global = Some(pair("16.20.2", "/home/.vs/global.toml"));

    let tool = configured_tool("nodejs", project.clone(), session.clone(), global.clone())
        .expect("project version");
    assert_eq!(tool.version, "20.11.1");
    assert_eq!(tool.scope, Scope::Project);
    assert_eq!(tool.source, "/work/.vs.toml");

    let tool = configured_tool("nodejs", None, session, global.clone()).expect("session version");
    assert_eq!(tool.version, "18.19.0");
    assert_eq!(tool.scope, Scope::Session);

    let tool = configured_tool("nodejs", None, None, global).expect("global version");
    assert_eq!(tool.version, "16.20.2");
    assert_eq!(tool.scope, Scope::Global);
    assert_eq!(tool.plugin, "nodejs");

    assert_eq!(configured_tool("nodejs", None, None, None), None);
}

#[test]
fn known_tool_names_should_merge_sources_without_repeats() {
    let project = strings(&["nodejs", "python"]);
    let legacy = strings(&["java", "nodejs"]);
    let added = strings(&["deno"]);
    let installed = strings(&["golang", "deno"]);
    let session = strings(&["zig"]);
    let global = strings(&["python", "bun"]);
    assert_eq!(
        known_tool_names(&project, true, &legacy, &added, &installed, &session, &global),
        strings(&["bun", "deno", "golang", "java", "nodejs", "python", "zig"])
    );
    assert_eq!(
        known_tool_names(&project, false, &legacy, &added, &installed, &session, &global),
        strings(&["bun", "nodejs", "python", "zig"])
    );
}

#[test]
fn extend_sorted_set_should_add_missing_names() {
    let mut names = strings(&["b", "d"]);
    extend_sorted_set(&mut names, &strings(&["c", "a", "d", "c"]));
    assert_eq!(names, strings(&["a", "b", "c", "d"]));
}

#[test]
fn use_resolved_version_should_prefer_the_hook_then_match_installed() {
    let installed = strings(&["20.11.1", "20.9.0", "18.19.0"]);
    assert_eq!(
        use_resolved_version(Some(String::from("21.0.0")), "20", false, &installed),
        "21.0.0"
    );
    assert_eq!(use_resolved_version(None, "20", false, &installed), "20.11.1");
    assert_eq!(use_resolved_version(None, "20.9.0", true, &installed), "20.9.0");
    assert_eq!(use_resolved_version(None, "22", false, &installed), "22");
}

#[test]
fn use_tool_actions_should_write_global_file_and_link_current() {
    let rt = runtime("20.11.1");
    let (installed, actions) = use_tool_actions(
        UseScope::Global,
        false,
        "nodejs",
        &rt,
        "/home/.vs",
        "/work",
        "/home/.vs/global.toml",
        "/work/.vs.toml",
        None,
    )
    .expect("global use");
    assert_eq!(installed.plugin, "nodejs");
    assert_eq!(installed.version, "20.11.1");
    assert_eq!(installed.install_dir, "/home/.vs/cache/nodejs/versions/20.11.1");
    assert_eq!(
        actions,
        vec![
            UseAction::Assign {
                file: String::from("/home/.vs/global.toml"),
                plugin: String::from("nodejs"),
                version: String::from("20.11.1"),
            },
            UseAction::Link {
                target: String::from("/home/.vs/cache/nodejs/versions/20.11.1"),
                link: String::from("/home/.vs/cache/nodejs/current"),
            },
        ]
    );
}

#[test]
fn use_tool_actions_should_write_project_file_link_sdk_and_ignore_vs() {
    let rt = runtime("20.11.1");
    let (_, actions) = use_tool_actions(
        UseScope::Project,
        false,
        "nodejs",
        &rt,
        "/home/.vs",
        "/work",
        "/home/.vs/global.toml",
        "/work/.vs.toml",
        None,
    )
    .expect("project use");
    assert_eq!(
        actions,
        vec![
            UseAction::Assign {
                file: String::from("/work/.vs.toml"),
                plugin: String::from("nodejs"),
                version: String::from("20.11.1"),
            },
            UseAction::Link {
                target: String::from("/home/.vs/cache/nodejs/versions/20.11.1"),
                link: String::from("/work/.vs/sdks/nodejs"),
            },
            UseAction::IgnoreVsDir { project: String::from("/work") },
        ]
    );

    let (_, unlinked) = use_tool_actions(
        UseScope::Project,
        true,
        "nodejs",
        &rt,
        "/home/.vs",
        "/work",
        "/home/.vs/global.toml",
        "/work/.vs.toml",
        None,
    )
    .expect("project use without link");
    assert_eq!(unlinked.len(), 2);
    assert_eq!(unlinked[1], UseAction::IgnoreVsDir { project: String::from("/work") });
}

#[test]
fn use_tool_actions_should_need_a_session_file_for_session_scope() {
    let rt = runtime("18.19.0");
    let result = use_tool_actions(
        UseScope::Session,
        false,
        "nodejs",
        &rt,
        "/home/.vs",
        "/work",
        "/home/.vs/global.toml",
        "/work/.vs.toml",
        None,
    );
    assert_eq!(result, Err(CoreError::MissingSessionId));

    let (_, actions) = use_tool_actions(
        UseScope::Session,
        false,
        "nodejs",
        &rt,
        "/home/.vs",
        "/work",
        "/home/.vs/global.toml",
        "/work/.vs.toml",
        Some("/home/.vs/sessions/42.toml"),
    )
    .expect("session use");
    assert_eq!(
        actions,
        vec![UseAction::Assign {
            file: String::from("/home/.vs/sessions/42.toml"),
            plugin: String::from("nodejs"),
            version: String::from("18.19.0"),
        }]
    );
}

#[test]
fn registry_address_should_default_to_the_vfox_index() {
    assert_eq!(effective_registry_address(""), DEFAULT_VFOX_REGISTRY_SOURCE);
    assert_eq!(effective_registry_address("/srv/index.json"), "/srv/index.json");
    assert_eq!(require_registry_address("/srv/index.json"), Ok(()));
    assert_eq!(
        require_registry_address(""),
        Err(CoreError::Unsupported(String::from("registry.address is not configured")))
    );
}

#[test]
fn failed_refresh_should_fall_back_to_a_cached_index() {
    let failure = || Err(CoreError::Http(String::from("offline")));
    assert_eq!(refresh_with_fallback(Ok(3), true), Ok(()));
    assert_eq!(refresh_with_fallback(failure(), false), Ok(()));
    assert_eq!(
        refresh_with_fallback(failure(), true),
        Err(CoreError::Http(String::from("offline")))
    );
}

#[test]
fn unuse_tool_actions_should_drop_assignment_and_link_of_the_scope() {
    let global = unuse_tool_actions(
        UseScope::Global,
        "nodejs",
        "/home/.vs",
        "/work",
        "/home/.vs/global.toml",
        "/work/.vs.toml",
        None,
    )
    .expect("global unuse");
    assert_eq!(
        global,
        vec![
            UseAction::Unassign {
                file: String::from("/home/.vs/global.toml"),
                plugin: String::from("nodejs"),
            },
            UseAction::Unlink { link: String::from("/home/.vs/cache/nodejs/current") },
        ]
    );
    let project = unuse_tool_actions(
        UseScope::Project,
        "nodejs",
        "/home/.vs",
        "/work",
        "/home/.vs/global.toml",
        "/work/.vs.toml",
        None,
    )
    .expect("project unuse");
    assert_eq!(project[1], UseAction::Unlink { link: String::from("/work/.vs/sdks/nodejs") });
    assert_eq!(
        unuse_tool_actions(
            UseScope::Session,
            "nodejs",
            "/home/.vs",
            "/work",
            "/home/.vs/global.toml",
            "/work/.vs.toml",
            None,
        ),
        Err(CoreError::MissingSessionId)
    );
}

#[test]
fn index_update_should_rebase_local_sources_and_keep_carried_backends() {
    let entry = |name: &str, source: &str| RegistryEntry {
        name: String::from(name),
        source: String::from(source),
        backend: PluginBackendKind::Lua,
        description: None,
        aliases: Vec::new(),
    };
    let listed = vec![entry("nodejs", "plugins/nodejs"), entry("deno", "/abs/deno")];
    let stored = index_entries_for_update("/srv/registry/index.json", "/srv/registry", listed.clone());
    assert_eq!(stored[0].source, "/srv/registry/plugins/nodejs");
    assert_eq!(stored[1].source, "/abs/deno");
    let remote = index_entries_for_update("https://example.com/index.json", "", listed.clone());
    assert_eq!(remote, listed);
}
