use vs::release::{
    current_version, detect_linux_libc, executable_name, release_archive_extension,
    release_archive_name, release_feature_label, release_feature_label_for,
    release_target_triple, release_target_triple_for, select_release_asset,
    self_upgrade_summary, version_info, LinuxLibc, ReleaseAsset, ReleaseMetadata,
    BUILD_RELEASE_VARIANT, PACKAGE_VERSION,
};

fn host_target() -> String {
    match release_target_triple("linux", "x86_64", Some(LinuxLibc::Gnu), true) {
        Ok(target) => target,
        Err(error) => panic!("target triple should resolve: {}", error.message()),
    }
}

#[test]
fn select_release_asset_should_match_expected_archive_name() {
    let target = host_target();
    let archive_name = match release_archive_name("v1.2.3", &target) {
        Ok(name) => name,
        Err(error) => panic!("release archive name should resolve: {}", error.message()),
    };
    let release = ReleaseMetadata {
        tag_name: String::from("v1.2.3"),
        assets: vec![
            ReleaseAsset {
                name: String::from("vs-v1.2.3-other-target-full.tar.gz"),
                browser_download_url: String::from("https://example.com/other"),
            },
            ReleaseAsset {
                name: archive_name,
                browser_download_url: String::from("https://example.com/match"),
            },
        ],
    };

    let asset = match select_release_asset(&release, &target) {
        Ok(asset) => asset,
        Err(error) => panic!("release asset should match: {}", error.message()),
    };
    assert_eq!(asset.browser_download_url, "https://example.com/match");
}

#[test]
fn release_archive_name_should_include_feature_variant() {
    let archive_name = match release_archive_name("v1.2.3", &host_target()) {
        Ok(name) => name,
        Err(error) => panic!("release archive name should resolve: {}", error.message()),
    };
    let feature = match release_feature_label() {
        Ok(feature) => feature,
        Err(error) => panic!("feature label should resolve: {}", error.message()),
    };
    assert!(archive_name.contains(feature));
}

#[test]
fn release_archive_name_should_include_target_triple() {
    let target = host_target();
    let archive_name = match release_archive_name("v1.2.3", &target) {
        Ok(name) => name,
        Err(error) => panic!("release archive name should resolve: {}", error.message()),
    };
    assert!(archive_name.contains(&target));
}

#[test]
fn release_target_triple_should_support_linux_musl_variants() {
    let triple = release_target_triple_for("linux", "x86_64", Some(LinuxLibc::Musl), true);
    assert_eq!(triple, Some("x86_64-unknown-linux-musl"));
}

#[test]
fn release_target_triple_should_reject_unpublished_linux_musl_targets() {
    let triple = release_target_triple_for("linux", "riscv64", Some(LinuxLibc::Musl), true);
    assert_eq!(triple, None);
}

#[test]
fn build_metadata_should_be_injected_at_compile_time() {
    let target = host_target();
    let info = match version_info(&target) {
        Ok(info) => info,
        Err(error) => panic!("version info should resolve: {}", error.message()),
    };
    assert_eq!(info.build_target, target);
    match BUILD_RELEASE_VARIANT {
        "full" | "lua" | "wasi" | "bare" => {}
        other => panic!("unexpected build variant {other}"),
    }
}

#[test]
fn build_variant_should_map_to_supported_labels() {
    let label = release_feature_label();
    match BUILD_RELEASE_VARIANT {
        "bare" => assert!(label.is_err()),
        _ => assert!(label.is_ok()),
    }
}

#[test]
fn feature_labels_for_every_variant() {
    assert_eq!(release_feature_label_for("full").ok(), Some("full"));
    assert_eq!(release_feature_label_for("lua").ok(), Some("lua"));
    assert_eq!(release_feature_label_for("wasi").ok(), Some("wasi"));
    match release_feature_label_for("bare") {
        Err(error) => assert_eq!(
            error.message(),
            "self-upgrade is unavailable for bare builds because releases only publish lua, wasi, and full binaries"
        ),
        Ok(_) => panic!("bare builds have no label"),
    }
    match release_feature_label_for("tiny") {
        Err(error) => assert_eq!(
            error.message(),
            "self-upgrade was built with an unknown release variant: tiny"
        ),
        Ok(_) => panic!("unknown variants have no label"),
    }
}

#[test]
fn target_triples_for_published_platforms() {
    assert_eq!(release_target_triple_for("linux", "x86_64", Some(LinuxLibc::Gnu), true), Some("x86_64-unknown-linux-gnu"));
    assert_eq!(release_target_triple_for("linux", "arm", Some(LinuxLibc::Musl), true), Some("armv7-unknown-linux-musleabihf"));
    assert_eq!(release_target_triple_for("linux", "powerpc64", Some(LinuxLibc::Gnu), true), Some("powerpc64le-unknown-linux-gnu"));
    assert_eq!(release_target_triple_for("linux", "powerpc64", Some(LinuxLibc::Gnu), false), None);
    assert_eq!(release_target_triple_for("linux", "x86_64", None, true), None);
    assert_eq!(release_target_triple_for("macos", "aarch64", None, true), Some("aarch64-apple-darwin"));
    assert_eq!(release_target_triple_for("windows", "x86", None, true), Some("i686-pc-windows-msvc"));
    assert_eq!(release_target_triple_for("freebsd", "x86_64", None, true), None);
    match release_target_triple("freebsd", "x86_64", None, true) {
        Err(error) => assert_eq!(error.message(), "no published release asset matches target freebsd-x86_64"),
        Ok(_) => panic!("freebsd is not published"),
    }
}

#[test]
fn archive_names_and_extensions() {
    assert_eq!(release_archive_extension("x86_64-pc-windows-msvc"), "zip");
    assert_eq!(release_archive_extension("x86_64-unknown-linux-gnu"), "tar.gz");
    assert_eq!(
        release_archive_name("v1.0.0", "x86_64-pc-windows-msvc").ok(),
        Some(String::from("vs-v1.0.0-x86_64-pc-windows-msvc-full.zip"))
    );
}

#[test]
fn missing_asset_lists_what_is_available() {
    let release = ReleaseMetadata {
        tag_name: String::from("v2.0.0"),
        assets: vec![
            ReleaseAsset { name: String::from("a.zip"), browser_download_url: String::from("u1") },
            ReleaseAsset { name: String::from("b.zip"), browser_download_url: String::from("u2") },
        ],
    };
    match select_release_asset(&release, "x86_64-unknown-linux-gnu") {
        Err(error) => assert_eq!(
            error.message(),
            "no release asset matched target x86_64-unknown-linux-gnu with feature full. expected vs-v2.0.0-x86_64-unknown-linux-gnu-full.tar.gz, available assets: a.zip, b.zip"
        ),
        Ok(_) => panic!("no asset should match"),
    }
}

#[test]
fn libc_probe_and_misc() {
    assert_eq!(detect_linux_libc(true, ""), LinuxLibc::Musl);
    assert_eq!(detect_linux_libc(false, "MUSL libc (x86_64)"), LinuxLibc::Musl);
    assert_eq!(detect_linux_libc(false, "ldd (GNU libc) 2.36"), LinuxLibc::Gnu);
    assert_eq!(executable_name(true), "vs.exe");
    assert_eq!(executable_name(false), "vs");
    assert_eq!(current_version(), format!("v{PACKAGE_VERSION}"));
    let summary = self_upgrade_summary("v1.0.0", "v1.1.0");
    assert!(summary.updated);
    assert!(!self_upgrade_summary("v1.1.0", "v1.1.0").updated);
}
