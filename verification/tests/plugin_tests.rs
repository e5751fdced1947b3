use vs::lua::{
    archiver_format, available_version_from_hook, build_checksum, build_installed_package_map,
    build_manifest, check_hook_values, compute_user_agent, hook_script_names,
    install_plan_from_hook, installed_sdks_by_version, legacy_version_from, lua_library_dir,
    parse_install_source, plugin_package_path, runtime_arch_type, runtime_os_type,
    AvailableAdditionItem, AvailableHookResultItem, LuaBackend, MetadataFile,
    PreInstallAdditionItem, PreInstallHookResult,
};
use vs::installer::ArchiveKind;
use vs::model::{
    InstallSource, InstalledArtifact, InstalledRuntime, PluginBackendKind, PluginError,
};
use vs::plugin::{Plugin, WasiBackend, WasiDescriptor, WasiEnv, WasiVersion};

fn deno_descriptor() -> WasiDescriptor {
    WasiDescriptor {
        name: String::from("deno"),
        description: Some(String::from("Deno runtime")),
        aliases: vec![String::from("dn")],
        legacy_filenames: vec![String::from(".dvmrc")],
        versions: vec![
            WasiVersion {
                version: String::from("1.40.5"),
                source: String::from("versions/1.40.5"),
                note: Some(String::from("stable")),
            },
            WasiVersion {
                version: String::from("1.39.0"),
                source: String::from("versions/1.39.0"),
                note: None,
            },
        ],
        env: vec![
            WasiEnv { key: String::from("DENO_HOME"), value: String::from("{install_dir}") },
            WasiEnv { key: String::from("PATH"), value: String::from("{install_dir}/bin") },
        ],
    }
}

fn runtime() -> InstalledRuntime {
    InstalledRuntime {
        plugin: String::from("deno"),
        version: String::from("1.40.5"),
        root_dir: String::from("/cache/deno/versions/1.40.5"),
        main: InstalledArtifact {
            name: String::from("deno"),
            version: String::from("1.40.5"),
            path: String::from("/cache/deno/versions/1.40.5/deno-1.40.5"),
            note: None,
        },
        additions: vec![InstalledArtifact {
            name: String::from("std"),
            version: String::from("0.1"),
            path: String::from("/cache/deno/versions/1.40.5/add-std-0.1"),
            note: Some(String::from("library")),
        }],
    }
}

#[test]
fn wasi_plugin_should_load_fixture_versions() {
    let plugin = WasiBackend
        .load("/fixtures/plugins/deno-wasi", Ok(deno_descriptor()))
        .expect("descriptor loads");
    let versions = plugin.available_versions(&Vec::new()).expect("versions");
    assert_eq!(versions[0].version, "1.40.5");
}

#[test]
fn wasi_plugin_plans_env_and_legacy_files() {
    let plugin = WasiBackend.load("/plugins/deno", Ok(deno_descriptor())).expect("descriptor loads");
    assert_eq!(plugin.manifest().name, "deno");
    assert_eq!(plugin.manifest().backend, PluginBackendKind::Wasi);
    let plan = plugin.install_plan("1.39.0").expect("listed version");
    assert_eq!(plan.version, "1.39.0");
    assert_eq!(
        plan.main.source,
        InstallSource::Directory { path: String::from("/plugins/deno/versions/1.39.0") }
    );
    match plugin.install_plan("2.0.0") {
        Err(error) => assert_eq!(error.message(), "plugin deno does not expose version 2.0.0"),
        Ok(_) => panic!("unlisted version"),
    }
    let keys = plugin.env_keys(&runtime()).expect("env keys");
    assert_eq!(keys[0].value, "/cache/deno/versions/1.40.5/deno-1.40.5");
    assert_eq!(keys[1].value, "/cache/deno/versions/1.40.5/deno-1.40.5/bin");
    assert_eq!(
        plugin.parse_legacy_file(".dvmrc", "/p/.dvmrc", " 1.40.5\n", &Vec::new(), "specified").ok(),
        Some(Some(String::from("1.40.5")))
    );
    assert_eq!(
        plugin.parse_legacy_file(".nvmrc", "/p/.nvmrc", "20", &Vec::new(), "specified").ok(),
        Some(None)
    );
    assert_eq!(plugin.pre_use("1", "global", "/p", None, &Vec::new()).ok(), Some(None));
}

#[test]
fn wasi_load_errors_name_the_descriptor() {
    match WasiBackend.load("/plugins/deno", Err(String::from("missing field `plugin`"))) {
        Err(error) => {
            assert_eq!(
                error.message(),
                "failed to parse plugin source at /plugins/deno/component.toml: missing field `plugin`"
            );
            assert!(matches!(error, PluginError::InvalidSource { .. }));
        }
        Ok(_) => panic!("a bad descriptor cannot load"),
    }
}

#[test]
fn lua_manifest_and_versions() {
    let manifest = build_manifest(
        MetadataFile {
            name: String::from("nodejs"),
            version: Some(String::from("0.1.0")),
            description: None,
            aliases: Vec::new(),
            homepage: None,
            license: Some(String::from("MIT")),
            update_url: None,
            manifest_url: None,
            min_runtime_version: None,
            notes: Vec::new(),
            legacy_filenames: vec![String::from(".nvmrc")],
        },
        "/plugins/nodejs",
    );
    assert_eq!(manifest.backend, PluginBackendKind::Lua);
    assert_eq!(manifest.source, "/plugins/nodejs");
    assert_eq!(manifest.license.as_deref(), Some("MIT"));
    let version = available_version_from_hook(AvailableHookResultItem {
        version: String::from("20.11.1"),
        note: Some(String::from("lts")),
        addition: vec![AvailableAdditionItem { name: String::from("npm"), version: None, note: None }],
    });
    assert_eq!(version.version, "20.11.1");
    assert_eq!(version.additions[0].name, "npm");
    assert_eq!(version.additions[0].version, "");
}

#[test]
fn lua_checksums_prefer_sha256_then_md5_sha1_sha512() {
    let c = build_checksum(Some("a"), Some("b"), Some("c"), Some("d")).expect("checksum");
    assert_eq!((c.algorithm.as_str(), c.value.as_str()), ("sha256", "a"));
    let c = build_checksum(None, Some("b"), Some("c"), Some("d")).expect("checksum");
    assert_eq!((c.algorithm.as_str(), c.value.as_str()), ("md5", "d"));
    let c = build_checksum(None, Some("b"), Some("c"), None).expect("checksum");
    assert_eq!((c.algorithm.as_str(), c.value.as_str()), ("sha1", "c"));
    let c = build_checksum(None, Some("b"), None, None).expect("checksum");
    assert_eq!((c.algorithm.as_str(), c.value.as_str()), ("sha512", "b"));
    assert!(build_checksum(None, None, None, None).is_none());
}

fn addition(name: &str, url: Option<&str>) -> PreInstallAdditionItem {
    PreInstallAdditionItem {
        name: String::from(name),
        version: None,
        url: url.map(String::from),
        headers: Vec::new(),
        note: None,
        sha256: None,
        sha512: None,
        sha1: None,
        md5: Some(String::from("abc")),
    }
}

#[test]
fn lua_install_plans_from_pre_install_results() {
    let manifest = build_manifest(
        MetadataFile {
            name: String::from("nodejs"),
            version: None,
            description: None,
            aliases: Vec::new(),
            homepage: None,
            license: None,
            update_url: None,
            manifest_url: None,
            min_runtime_version: None,
            notes: Vec::new(),
            legacy_filenames: Vec::new(),
        },
        "/plugins/nodejs",
    );
    let result = PreInstallHookResult {
        name: None,
        version: Some(String::from("20.11.1")),
        url: Some(String::from("https://nodejs.org/dist/node.tar.gz")),
        headers: vec![(String::from("Accept"), String::from("*/*"))],
        note: None,
        sha256: Some(String::from("deadbeef")),
        sha512: None,
        sha1: None,
        md5: None,
        addition: vec![addition("npm", Some("packages/npm"))],
    };
    let plan = install_plan_from_hook(&manifest, "20", &result, false, &vec![true]).expect("plan");
    assert_eq!(plan.version, "20.11.1");
    assert_eq!(plan.main.name, "nodejs");
    assert_eq!(
        plan.main.source,
        InstallSource::Url {
            url: String::from("https://nodejs.org/dist/node.tar.gz"),
            headers: vec![(String::from("Accept"), String::from("*/*"))],
        }
    );
    assert_eq!(plan.main.checksum.as_ref().map(|c| c.algorithm.as_str()), Some("sha256"));
    assert_eq!(plan.additions[0].version, "20.11.1");
    assert_eq!(
        plan.additions[0].source,
        InstallSource::Directory { path: String::from("/plugins/nodejs/packages/npm") }
    );

    let no_url = PreInstallHookResult { url: None, ..result.clone() };
    match install_plan_from_hook(&manifest, "20", &no_url, false, &vec![true]) {
        Err(error) => assert_eq!(error.message(), "plugin nodejs does not expose version 20"),
        Ok(_) => panic!("a result without url has no plan"),
    }
    let bad_addition = PreInstallHookResult { addition: vec![addition("npm", None)], ..result };
    match install_plan_from_hook(&manifest, "20", &bad_addition, false, &vec![false]) {
        Err(error) => assert_eq!(
            error.message(),
            "plugin backend error: additional artifact npm does not provide a source"
        ),
        Ok(_) => panic!("an addition without url is refused"),
    }
}

#[test]
fn lua_install_sources() {
    assert_eq!(
        parse_install_source("/abs/file.zip", &Vec::new(), "/plugins/x", false),
        InstallSource::File { path: String::from("/abs/file.zip") }
    );
    assert_eq!(
        parse_install_source("dir", &Vec::new(), "/plugins/x", true),
        InstallSource::Directory { path: String::from("/plugins/x/dir") }
    );
}

#[test]
fn lua_package_maps_and_hook_checks() {
    let map = build_installed_package_map(&runtime());
    assert_eq!(map.len(), 2);
    assert_eq!(map[0].0, "deno");
    assert_eq!(map[1].0, "std");
    assert_eq!(map[1].1.note.as_deref(), Some("library"));
    let sdks = installed_sdks_by_version(&vec![runtime()]);
    assert_eq!(sdks[0].0, "1.40.5");
    assert_eq!(sdks[0].1.name, "deno");
    assert!(check_hook_values(false, None).is_ok());
    assert_eq!(check_hook_values(true, None).err(), Some(PluginError::NoResultProvided));
    assert_eq!(
        check_hook_values(false, Some(String::from("boom"))).err(),
        Some(PluginError::Backend(String::from("boom")))
    );
}

#[test]
fn lua_environment_helpers() {
    assert_eq!(compute_user_agent("nodejs", None), "vfox/1.0.6 vfox-nodejs");
    assert_eq!(compute_user_agent("nodejs", Some("0.1.0")), "vfox/1.0.6 vfox-nodejs/0.1.0");
    assert_eq!(legacy_version_from(None, " 20 \n"), Some(String::from("20")));
    assert_eq!(legacy_version_from(Some("  "), "20"), None);
    assert_eq!(legacy_version_from(Some(" 18 "), "20"), Some(String::from("18")));
    assert_eq!(runtime_os_type("macos"), "darwin");
    assert_eq!(runtime_os_type("linux"), "linux");
    assert_eq!(runtime_arch_type("x86_64"), "amd64");
    assert_eq!(runtime_arch_type("aarch64"), "arm64");
    assert_eq!(runtime_arch_type("riscv64"), "riscv64");
    assert_eq!(hook_script_names()[0], "available");
    assert_eq!(hook_script_names().len(), 7);
    assert_eq!(lua_library_dir("/plugins/nodejs"), "/plugins/nodejs/lib");
    assert_eq!(
        plugin_package_path("/p", "/usr/share/lua/?.lua"),
        "/p/hooks/?.lua;/p/lib/?.lua;/usr/share/lua/?.lua"
    );
    assert_eq!(archiver_format("a.tgz"), Some(ArchiveKind::TarGz));
    assert_eq!(archiver_format("a.zip"), Some(ArchiveKind::Zip));
    assert_eq!(archiver_format("a.7z"), None);
    let backend = LuaBackend::with_proxy(Some(String::from("http://proxy")));
    assert_eq!(backend.proxy_url(), Some("http://proxy"));
}
