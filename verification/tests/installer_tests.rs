use vs::installer::{
    archive_name_hint, artifact_file_name, detect_archive_kind, existing_install,
    format_hex_bytes, plain_file_name, runtime_dir_name, should_flatten_archive_root,
    sort_version_names, validate_staged_install, verify_checksum, ArchiveKind, Installer,
    InstallerError,
};
use vs::model::{Checksum, InstallArtifact, InstallPlan, InstallSource};

fn artifact(name: &str, version: &str) -> InstallArtifact {
    InstallArtifact {
        name: String::from(name),
        version: String::from(version),
        source: InstallSource::Directory { path: String::from("/src") },
        note: None,
        checksum: None,
    }
}

fn checksum(algorithm: &str, value: &str) -> Checksum {
    Checksum { algorithm: String::from(algorithm), value: String::from(value) }
}

#[test]
fn installer_paths() {
    let installer = Installer::new("/home/u/.vs");
    assert_eq!(installer.versions_root("nodejs"), "/home/u/.vs/cache/nodejs/versions");
    assert_eq!(installer.install_dir("nodejs", "20.11.1"), "/home/u/.vs/cache/nodejs/versions/20.11.1");
    assert_eq!(Installer::receipt_path("/d"), "/d/.vs-receipt.json");
}

#[test]
fn runtime_dir_names() {
    assert_eq!(runtime_dir_name(&artifact("nodejs", "20.11.1"), true), "nodejs-20.11.1");
    assert_eq!(runtime_dir_name(&artifact("nodejs", ""), true), "nodejs");
    assert_eq!(runtime_dir_name(&artifact("npm", "10"), false), "add-npm-10");
    assert_eq!(runtime_dir_name(&artifact("npm", ""), false), "add-npm");
}

#[test]
fn receipts_place_artifacts_under_the_install_dir() {
    let installer = Installer::new("/h");
    let plan = InstallPlan {
        plugin: String::from("nodejs"),
        version: String::from("20.11.1"),
        main: artifact("nodejs", "20.11.1"),
        additions: vec![artifact("npm", "")],
        legacy_filenames: Vec::new(),
    };
    let receipt = installer.receipt_for(&plan);
    assert_eq!(receipt.root_dir, "/h/cache/nodejs/versions/20.11.1");
    assert_eq!(receipt.main.path, "/h/cache/nodejs/versions/20.11.1/nodejs-20.11.1");
    assert_eq!(receipt.additions[0].path, "/h/cache/nodejs/versions/20.11.1/add-npm");
    assert_eq!(existing_install(Some(receipt.clone())).ok(), Some(receipt));
    match existing_install(None) {
        Err(error) => assert_eq!(error.message(), "install validation failed: install receipt is missing"),
        Ok(_) => panic!("missing receipt"),
    }
}

#[test]
fn install_should_rollback_when_validation_fails() {
    let names = vec![String::from("bin"), String::from(".vs-fail-install")];
    match validate_staged_install(&names) {
        Err(error) => assert!(error.message().contains("validation failed")),
        Ok(()) => panic!("install unexpectedly succeeded"),
    }
    assert!(validate_staged_install(&vec![String::from("bin")]).is_ok());
}

#[test]
fn archive_kinds_follow_the_name_hint() {
    assert_eq!(archive_name_hint("https://x/dl/node.tar.gz"), "node.tar.gz");
    assert_eq!(archive_name_hint("https://x/dl?f=a#/node.zip"), "node.zip");
    assert_eq!(archive_name_hint("a#/b#/c.tar"), "c.tar");
    assert_eq!(archive_name_hint("plain"), "plain");
    assert_eq!(detect_archive_kind("https://x/node.tar.gz"), ArchiveKind::TarGz);
    assert_eq!(detect_archive_kind("node.tgz"), ArchiveKind::TarGz);
    assert_eq!(detect_archive_kind("node.tar.xz"), ArchiveKind::TarXz);
    assert_eq!(detect_archive_kind("node.tar"), ArchiveKind::Tar);
    assert_eq!(detect_archive_kind("/tmp/flat.zip"), ArchiveKind::Zip);
    assert_eq!(detect_archive_kind("https://x/bin/tool"), ArchiveKind::PlainFile);
    assert_eq!(artifact_file_name("https://x/tool?token=1"), Some(String::from("tool")));
    assert_eq!(artifact_file_name("https://x/?a"), None);
    assert_eq!(plain_file_name("https://x/"), "artifact");
}

#[test]
fn install_should_collapse_single_wrapped_archive_root() {
    assert!(should_flatten_archive_root("package"));
    assert!(should_flatten_archive_root("node-v20.11.1-linux-x64"));
}

#[test]
fn install_should_preserve_flat_archive_layouts() {
    for name in ["bin", "lib", "lib64", "include", "share", "etc", "usr", "opt", "Scripts", "script", "cmd", "completions"] {
        assert!(!should_flatten_archive_root(name));
    }
}

#[test]
fn checksums_compare_hex_digests_ignoring_case() {
    let data = b"abc";
    assert!(verify_checksum("/f", data, &checksum("sha256", "ba7816bf8f01cfea414140de5dae2223b00361a396177a9cb410ff61f20015ad")).is_ok());
    assert!(verify_checksum("/f", data, &checksum("sha256", "BA7816BF8F01CFEA414140DE5DAE2223B00361A396177A9CB410FF61F20015AD")).is_ok());
    assert!(verify_checksum("/f", data, &checksum("md5", "900150983cd24fb0d6963f7d28e17f72")).is_ok());
    assert!(verify_checksum("/f", data, &checksum("sha1", "a9993e364706816aba3e25717850c26c9cd0d89d")).is_ok());
    assert!(verify_checksum(
        "/f",
        data,
        &checksum("sha512", "ddaf35a193617abacc417349ae20413112e6fa4e89a97ea20a9eeee64b55d39a2192992a274fc1a836ba3c23a3feebbd454d4423643ce80e2a9ac94fa54ca49f")
    )
    .is_ok());
    match verify_checksum("/f", data, &checksum("sha256", "00")) {
        Err(error) => assert_eq!(error.message(), "install validation failed: checksum mismatch for /f"),
        Ok(()) => panic!("mismatch"),
    }
    match verify_checksum("/f", data, &checksum("crc32", "00")) {
        Err(InstallerError::Validation(message)) => assert_eq!(message, "unsupported checksum algorithm: crc32"),
        _ => panic!("unknown algorithm"),
    }
}

#[test]
fn hex_formatting_and_version_names() {
    assert_eq!(format_hex_bytes(&vec![0, 15, 16, 255]), "000f10ff");
    assert_eq!(
        sort_version_names(vec![String::from("20.9.0"), String::from("18.0.0"), String::from("20.11.1")]),
        vec![String::from("18.0.0"), String::from("20.11.1"), String::from("20.9.0")]
    );
    assert_eq!(
        InstallerError::MissingSource(String::from("/x")).message(),
        "install source does not exist: /x"
    );
    assert_eq!(InstallerError::Download(String::from("timeout")).message(), "artifact download failed: timeout");
}
