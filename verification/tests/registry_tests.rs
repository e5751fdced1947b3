use vs::app_rules::{registry_entries_from_vfox, VfoxRegistryEntry};
use vs::model::PluginBackendKind;
use vs::registry::{RegistryEntry, RegistryError, RegistryService, RegistryStore, StoredList};

fn entry(name: &str, source: &str, aliases: &[&str], description: Option<&str>) -> RegistryEntry {
    RegistryEntry {
        name: String::from(name),
        source: String::from(source),
        backend: PluginBackendKind::Lua,
        description: description.map(String::from),
        aliases: aliases.iter().map(|a| a.to_string()).collect(),
    }
}

#[test]
fn resolve_should_prefer_added_plugins() {
    let available = vec![RegistryEntry {
        name: String::from("nodejs"),
        source: String::from("/index"),
        backend: PluginBackendKind::Lua,
        description: None,
        aliases: Vec::new(),
    }];

    let added = RegistryService::add_plugin(
        Vec::new(),
        RegistryEntry {
            name: String::from("nodejs"),
            source: String::from("/added"),
            backend: PluginBackendKind::Lua,
            description: None,
            aliases: Vec::new(),
        },
    );

    let resolved = RegistryService::resolve(&added, &available, "nodejs").expect("missing registry entry");
    assert_eq!(resolved.source, "/added");
}

#[test]
fn resolve_falls_back_to_the_index_and_matches_aliases() {
    let available = vec![entry("nodejs", "/index", &["node"], None)];
    let resolved = RegistryService::resolve(&Vec::new(), &available, "node").expect("alias resolves");
    assert_eq!(resolved.name, "nodejs");
    assert!(RegistryService::resolve(&Vec::new(), &available, "deno").is_none());
}

#[test]
fn add_replaces_the_entry_with_the_same_name_and_sorts() {
    let added = vec![entry("zig", "/z", &[], None), entry("go", "/old", &[], None)];
    let added = RegistryService::add_plugin(added, entry("go", "/new", &[], None));
    let added = RegistryService::add_plugin(added, entry("deno", "/d", &[], None));
    let names: Vec<&str> = added.iter().map(|e| e.name.as_str()).collect();
    assert_eq!(names, vec!["deno", "go", "zig"]);
    assert_eq!(added[1].source, "/new");
}

#[test]
fn remove_drops_every_entry_that_answers_and_reports_it() {
    let added = vec![entry("nodejs", "/a", &["node"], None), entry("go", "/g", &[], None)];
    let (left, removed) = RegistryService::remove_plugin(added.clone(), "node");
    assert!(removed);
    assert_eq!(left.len(), 1);
    assert_eq!(left[0].name, "go");
    let (same, removed) = RegistryService::remove_plugin(added, "ruby");
    assert!(!removed);
    assert_eq!(same.len(), 2);
}

#[test]
fn search_matches_name_description_and_aliases_ignoring_case() {
    let available = vec![
        entry("nodejs", "/n", &[], Some("JavaScript runtime")),
        entry("golang", "/g", &["GO"], None),
        entry("python", "/p", &[], None),
    ];
    let hits = RegistryService::search(available.clone(), "SCRIPT");
    assert_eq!(hits.len(), 1);
    assert_eq!(hits[0].name, "nodejs");
    let hits = RegistryService::search(available.clone(), "go");
    assert_eq!(hits.len(), 1);
    assert_eq!(hits[0].name, "golang");
    assert_eq!(RegistryService::search(available, "").len(), 3);
}

#[test]
fn entries_convert_to_manifests() {
    let e = entry("nodejs", "/n", &["node"], Some("JS"));
    let m = e.to_manifest();
    assert_eq!(m.name, "nodejs");
    assert_eq!(m.source, "/n");
    assert_eq!(m.aliases, vec![String::from("node")]);
    assert_eq!(m.description.as_deref(), Some("JS"));
    assert!(m.version.is_none());
    assert!(e.matches("node") && e.matches("nodejs") && !e.matches("no"));
}

#[test]
fn store_paths_and_loading() {
    let store = RegistryStore::new("/home/u/.vs");
    assert_eq!(store.available_path(), "/home/u/.vs/registry/index.json");
    assert_eq!(store.added_path(), "/home/u/.vs/plugins/entries.json");
    assert!(store.load_added(StoredList::Missing).expect("missing is empty").is_empty());
    match store.load_available(StoredList::Malformed(String::from("expected value"))) {
        Err(error) => {
            assert_eq!(
                error.message(),
                "failed to parse JSON file at /home/u/.vs/registry/index.json: expected value"
            );
            assert!(matches!(error, RegistryError::Json { .. }));
        }
        Ok(_) => panic!("malformed index should fail"),
    }
    match store.load_added(StoredList::Unreadable(String::from("denied"))) {
        Err(RegistryError::Io(message)) => assert_eq!(message, "denied"),
        _ => panic!("unreadable list should be an I/O error"),
    }
    let service = RegistryService::new("/h");
    let parsed = service
        .available_plugins(StoredList::Parsed(vec![entry("a", "/a", &[], None)]))
        .expect("parsed list loads");
    assert_eq!(parsed.len(), 1);
    assert!(service.added_plugins(StoredList::Missing).expect("missing").is_empty());
    assert_eq!(service.store().home(), "/h");
}

#[test]
fn parse_registry_entries_should_accept_vfox_index_shape() {
    let entries = registry_entries_from_vfox(&vec![VfoxRegistryEntry {
        name: String::from("nodejs"),
        description: Some(String::from("Node.js runtime")),
        download_url: Some(String::from("https://example.com/nodejs.zip")),
        aliases: Vec::new(),
    }]);
    assert_eq!(entries.len(), 1);
    assert_eq!(entries[0].name, "nodejs");
    assert_eq!(entries[0].source, "https://example.com/nodejs.zip");
}

#[test]
fn vfox_entries_without_download_url_are_dropped() {
    let entries = registry_entries_from_vfox(&vec![
        VfoxRegistryEntry {
            name: String::from("a"),
            description: None,
            download_url: None,
            aliases: Vec::new(),
        },
        VfoxRegistryEntry {
            name: String::from("b"),
            description: None,
            download_url: Some(String::from("https://x/b.zip")),
            aliases: vec![String::from("bee")],
        },
    ]);
    assert_eq!(entries.len(), 1);
    assert_eq!(entries[0].name, "b");
    assert_eq!(entries[0].backend, PluginBackendKind::Lua);
    assert_eq!(entries[0].aliases, vec![String::from("bee")]);
}
