//! Self-upgrade rules: which published release archive fits the running binary, and
//! what the version report says.
use vstd::prelude::*;

use crate::core_model::{CoreError, SelfUpgradeSummary, VersionInfo};
use crate::order::{first_index, lemma_first_index, lemma_first_index_at};
use crate::text::{
    chars_of, contains, contains_seq, copy_str, is_prefix_of, join, join_seq, lower_seq, occurs_at,
    str_eq,
    to_ascii_lowercase,
};

verus! {

/// The C library of a Linux system.
#[derive(Debug, Clone, Copy, PartialEq, Eq, Structural)]
pub enum LinuxLibc {
    Gnu,
    Musl,
}

/// The release variant this library is built as: both plugin backends are present.
pub const BUILD_RELEASE_VARIANT: &'static str = "full";

/// The version of this package.
pub const PACKAGE_VERSION: &'static str = "0.1.0";

/// The published target triple for a platform, if releases are published for it.
pub open spec fn target_triple_spec(
    os: Seq<char>,
    arch: Seq<char>,
    libc: Option<LinuxLibc>,
    little_endian: bool,
) -> Option<Seq<char>> {
    if os == "linux"@ {
        if arch == "x86_64"@ && libc == Some(LinuxLibc::Gnu) {
            Some("x86_64-unknown-linux-gnu"@)
        } else if arch == "x86_64"@ && libc == Some(LinuxLibc::Musl) {
            Some("x86_64-unknown-linux-musl"@)
        } else if arch == "x86"@ && libc == Some(LinuxLibc::Gnu) {
            Some("i686-unknown-linux-gnu"@)
        } else if arch == "x86"@ && libc == Some(LinuxLibc::Musl) {
            Some("i686-unknown-linux-musl"@)
        } else if arch == "aarch64"@ && libc == Some(LinuxLibc::Gnu) {
            Some("aarch64-unknown-linux-gnu"@)
        } else if arch == "aarch64"@ && libc == Some(LinuxLibc::Musl) {
            Some("aarch64-unknown-linux-musl"@)
        } else if arch == "arm"@ && libc == Some(LinuxLibc::Gnu) {
            Some("armv7-unknown-linux-gnueabihf"@)
        } else if arch == "arm"@ && libc == Some(LinuxLibc::Musl) {
            Some("armv7-unknown-linux-musleabihf"@)
        } else if arch == "powerpc64"@ && libc == Some(LinuxLibc::Gnu) && little_endian {
            Some("powerpc64le-unknown-linux-gnu"@)
        } else if arch == "riscv64"@ && libc == Some(LinuxLibc::Gnu) {
            Some("riscv64gc-unknown-linux-gnu"@)
        } else if arch == "s390x"@ && libc == Some(LinuxLibc::Gnu) {
            Some("s390x-unknown-linux-gnu"@)
        } else {
            None
        }
    } else if os == "macos"@ {
        if arch == "aarch64"@ {
            Some("aarch64-apple-darwin"@)
        } else if arch == "x86_64"@ {
            Some("x86_64-apple-darwin"@)
        } else {
            None
        }
    } else if os == "windows"@ {
        if arch == "x86_64"@ {
            Some("x86_64-pc-windows-msvc"@)
        } else if arch == "x86"@ {
            Some("i686-pc-windows-msvc"@)
        } else if arch == "aarch64"@ {
            Some("aarch64-pc-windows-msvc"@)
        } else {
            None
        }
    } else {
        None
    }
}

/// The published target triple for an operating system, an architecture, the C
/// library on Linux and the byte order.
pub fn release_target_triple_for(
    os: &str,
    arch: &str,
    linux_libc: Option<LinuxLibc>,
    little_endian: bool,
) -> (r: Option<&'static str>)
    ensures
        match r {
            Some(t) => target_triple_spec(os@, arch@, linux_libc, little_endian) == Some(t@),
            None => target_triple_spec(os@, arch@, linux_libc, little_endian) is None,
        },
{
    let gnu = linux_libc == Some(LinuxLibc::Gnu);
    let musl = linux_libc == Some(LinuxLibc::Musl);
    if str_eq(os, "linux") {
        if str_eq(arch, "x86_64") && gnu {
            Some("x86_64-unknown-linux-gnu")
        } else if str_eq(arch, "x86_64") && musl {
            Some("x86_64-unknown-linux-musl")
        } else if str_eq(arch, "x86") && gnu {
            Some("i686-unknown-linux-gnu")
        } else if str_eq(arch, "x86") && musl {
            Some("i686-unknown-linux-musl")
        } else if str_eq(arch, "aarch64") && gnu {
            Some("aarch64-unknown-linux-gnu")
        } else if str_eq(arch, "aarch64") && musl {
            Some("aarch64-unknown-linux-musl")
        } else if str_eq(arch, "arm") && gnu {
            Some("armv7-unknown-linux-gnueabihf")
        } else if str_eq(arch, "arm") && musl {
            Some("armv7-unknown-linux-musleabihf")
        } else if str_eq(arch, "powerpc64") && gnu && little_endian {
            Some("powerpc64le-unknown-linux-gnu")
        } else if str_eq(arch, "riscv64") && gnu {
            Some("riscv64gc-unknown-linux-gnu")
        } else if str_eq(arch, "s390x") && gnu {
            Some("s390x-unknown-linux-gnu")
        } else {
            None
        }
    } else if str_eq(os, "macos") {
        if str_eq(arch, "aarch64") {
            Some("aarch64-apple-darwin")
        } else if str_eq(arch, "x86_64") {
            Some("x86_64-apple-darwin")
        } else {
            None
        }
    } else if str_eq(os, "windows") {
        if str_eq(arch, "x86_64") {
            Some("x86_64-pc-windows-msvc")
        } else if str_eq(arch, "x86") {
            Some("i686-pc-windows-msvc")
        } else if str_eq(arch, "aarch64") {
            Some("aarch64-pc-windows-msvc")
        } else {
            None
        }
    } else {
        None
    }
}

/// The C library found by probing a Linux system: musl on Alpine, or when the output
/// of `ldd --version` mentions musl in any case; glibc otherwise.
pub fn detect_linux_libc(alpine_release_exists: bool, ldd_output: &str) -> (r: LinuxLibc)
    ensures
        r == (if alpine_release_exists || contains_seq(lower_seq(ldd_output@), "musl"@) {
            LinuxLibc::Musl
        } else {
            LinuxLibc::Gnu
        }),
{
    if alpine_release_exists {
        return LinuxLibc::Musl;
    }
    let lowered = to_ascii_lowercase(ldd_output);
    if contains(lowered.as_str(), "musl") {
        LinuxLibc::Musl
    } else {
        LinuxLibc::Gnu
    }
}

/// The target triple of the running platform, or the error that no release is
/// published for it.
pub fn release_target_triple(
    os: &str,
    arch: &str,
    linux_libc: Option<LinuxLibc>,
    little_endian: bool,
) -> (r: Result<String, CoreError>)
    ensures
        match target_triple_spec(os@, arch@, linux_libc, little_endian) {
            Some(t) => r matches Ok(s) && s@ == t,
            None => r matches Err(CoreError::Unsupported(m)) && m@
                == "no published release asset matches target "@ + os@ + "-"@ + arch@,
        },
{
    match release_target_triple_for(os, arch, linux_libc, little_endian) {
        Some(t) => Ok(copy_str(t)),
        None => {
            let mut m = copy_str("no published release asset matches target ");
            m.append(os);
            m.append("-");
            m.append(arch);
            Err(CoreError::Unsupported(m))
        },
    }
}

/// The release label of a build variant; bare builds and unknown variants have none.
pub open spec fn feature_label_spec(variant: Seq<char>) -> Result<Seq<char>, Seq<char>> {
    if variant == "full"@ {
        Ok("full"@)
    } else if variant == "lua"@ {
        Ok("lua"@)
    } else if variant == "wasi"@ {
        Ok("wasi"@)
    } else if variant == "bare"@ {
        Err(
            "self-upgrade is unavailable for bare builds because releases only publish lua, wasi, and full binaries"@,
        )
    } else {
        Err("self-upgrade was built with an unknown release variant: "@ + variant)
    }
}

/// Maps a build variant to the label used in release archive names.
pub fn release_feature_label_for(variant: &str) -> (r: Result<&'static str, CoreError>)
    ensures
        match feature_label_spec(variant@) {
            Ok(l) => r matches Ok(s) && s@ == l,
            Err(m) => r matches Err(CoreError::Unsupported(e)) && e@ == m,
        },
{
    if str_eq(variant, "full") {
        Ok("full")
    } else if str_eq(variant, "lua") {
        Ok("lua")
    } else if str_eq(variant, "wasi") {
        Ok("wasi")
    } else if str_eq(variant, "bare") {
        Err(
            CoreError::Unsupported(
                copy_str(
                    "self-upgrade is unavailable for bare builds because releases only publish lua, wasi, and full binaries",
                ),
            ),
        )
    } else {
        let mut m = copy_str("self-upgrade was built with an unknown release variant: ");
        m.append(variant);
        Err(CoreError::Unsupported(m))
    }
}

/// The release label of this build.
pub fn release_feature_label() -> (r: Result<&'static str, CoreError>)
    ensures
        match feature_label_spec(BUILD_RELEASE_VARIANT@) {
            Ok(l) => r matches Ok(s) && s@ == l,
            Err(m) => r matches Err(CoreError::Unsupported(e)) && e@ == m,
        },
{
    release_feature_label_for(BUILD_RELEASE_VARIANT)
}

/// Windows targets publish `.zip` archives, the others `.tar.gz`.
pub open spec fn archive_extension_spec(target: Seq<char>) -> Seq<char> {
    if contains_seq(target, "windows"@) {
        "zip"@
    } else {
        "tar.gz"@
    }
}

/// The archive extension of releases for a target.
pub fn release_archive_extension(target: &str) -> (r: &'static str)
    ensures
        r@ == archive_extension_spec(target@),
{
    if contains(target, "windows") {
        "zip"
    } else {
        "tar.gz"
    }
}

/// `vs-<tag>-<target>-<feature>.<extension>`.
pub open spec fn archive_name_spec(tag: Seq<char>, target: Seq<char>, feature: Seq<char>) -> Seq<
    char,
> {
    "vs-"@ + tag + "-"@ + target + "-"@ + feature + "."@ + archive_extension_spec(target)
}

/// The name of the release archive of `tag` for `target` and this build's variant.
pub fn release_archive_name(tag: &str, target: &str) -> (r: Result<String, CoreError>)
    ensures
        match feature_label_spec(BUILD_RELEASE_VARIANT@) {
            Ok(l) => r matches Ok(s) && s@ == archive_name_spec(tag@, target@, l),
            Err(m) => r matches Err(CoreError::Unsupported(e)) && e@ == m,
        },
{
    let feature = match release_feature_label() {
        Ok(f) => f,
        Err(e) => {
            return Err(e);
        },
    };
    let mut name = copy_str("vs-");
    name.append(tag);
    name.append("-");
    name.append(target);
    name.append("-");
    name.append(feature);
    name.append(".");
    name.append(release_archive_extension(target));
    Ok(name)
}

/// A published release asset.
#[derive(Debug, Clone, PartialEq, Eq)]
pub struct ReleaseAsset {
    /// File name of the asset.
    pub name: String,
    /// Where the asset can be downloaded.
    pub browser_download_url: String,
}

/// A published release.
#[derive(Debug, Clone, PartialEq, Eq)]
pub struct ReleaseMetadata {
    /// The release tag.
    pub tag_name: String,
    /// The release's assets.
    pub assets: Vec<ReleaseAsset>,
}

pub open spec fn asset_names(assets: Seq<ReleaseAsset>) -> Seq<Seq<char>> {
    assets.map_values(|a: ReleaseAsset| a.name@)
}

pub open spec fn named(n: Seq<char>) -> spec_fn(Seq<char>) -> bool {
    |x: Seq<char>| x == n
}

/// The error when no asset of a release fits.
pub open spec fn no_asset_message(
    target: Seq<char>,
    feature: Seq<char>,
    expected: Seq<char>,
    names: Seq<Seq<char>>,
) -> Seq<char> {
    "no release asset matched target "@ + target + " with feature "@ + feature + ". expected "@
        + expected + ", available assets: "@ + join_seq(names, ", "@)
}

/// Picks the asset of a release whose name is the expected archive name for `target`
/// and this build's variant: the first such asset, or an error listing the assets.
pub fn select_release_asset(release: &ReleaseMetadata, target: &str) -> (r: Result<
    ReleaseAsset,
    CoreError,
>)
    ensures
        match feature_label_spec(BUILD_RELEASE_VARIANT@) {
            Ok(l) => {
                let expected = archive_name_spec(release.tag_name@, target@, l);
                match first_index(asset_names(release.assets@), named(expected)) {
                    Some(i) => r matches Ok(a) && a.name@ == release.assets@[i].name@
                        && a.browser_download_url@ == release.assets@[i].browser_download_url@,
                    None => r matches Err(CoreError::Unsupported(m)) && m@ == no_asset_message(
                        target@,
                        l,
                        expected,
                        asset_names(release.assets@),
                    ),
                }
            },
            Err(m) => r matches Err(CoreError::Unsupported(e)) && e@ == m,
        },
{
    let feature = match release_feature_label() {
        Ok(f) => f,
        Err(e) => {
            return Err(e);
        },
    };
    let expected = match release_archive_name(release.tag_name.as_str(), target) {
        Ok(n) => n,
        Err(e) => {
            return Err(e);
        },
    };
    let ghost names = asset_names(release.assets@);
    let ghost p = named(expected@);
    proof {
        lemma_first_index(names, p);
    }
    let mut i: usize = 0;
    while i < release.assets.len()
        invariant
            i <= release.assets@.len(),
            names == asset_names(release.assets@),
            p == named(expected@),
            feature_label_spec(BUILD_RELEASE_VARIANT@) == Ok::<Seq<char>, Seq<char>>(feature@),
            expected@ == archive_name_spec(release.tag_name@, target@, feature@),
            forall|j: int| 0 <= j < i ==> !p(#[trigger] names[j]),
        decreases release.assets@.len() - i,
    {
        assert(names[i as int] == release.assets@[i as int].name@);
        if str_eq(release.assets[i].name.as_str(), expected.as_str()) {
            proof {
                lemma_first_index_at(names, p, i as int);
            }
            let a = ReleaseAsset {
                name: release.assets[i].name.clone(),
                browser_download_url: release.assets[i].browser_download_url.clone(),
            };
            return Ok(a);
        }
        i += 1;
    }
    let mut listed: Vec<String> = Vec::new();
    let mut k: usize = 0;
    while k < release.assets.len()
        invariant
            k <= release.assets@.len(),
            names == asset_names(release.assets@),
            listed.deep_view() == names.take(k as int),
        decreases release.assets@.len() - k,
    {
        let ghost before = listed.deep_view();
        listed.push(release.assets[k].name.clone());
        assert(names[k as int] == release.assets@[k as int].name@);
        assert(names.take(k + 1) =~= names.take(k as int).push(names[k as int]));
        assert(listed.deep_view() =~= names.take(k + 1));
        k += 1;
    }
    assert(names.take(k as int) =~= names);
    let mut m = copy_str("no release asset matched target ");
    m.append(target);
    m.append(" with feature ");
    m.append(feature);
    m.append(". expected ");
    m.append(expected.as_str());
    m.append(", available assets: ");
    let available = join(&listed, ", ");
    m.append(available.as_str());
    Err(CoreError::Unsupported(m))
}

/// The name of the `vs` executable on the platform.
pub fn executable_name(windows: bool) -> (r: &'static str)
    ensures
        r@ == (if windows {
            "vs.exe"@
        } else {
            "vs"@
        }),
{
    if windows {
        "vs.exe"
    } else {
        "vs"
    }
}

/// The running version as release tags write it: `v` and the package version.
pub fn current_version() -> (r: String)
    ensures
        r@ == "v"@ + PACKAGE_VERSION@,
{
    let mut v = copy_str("v");
    v.append(PACKAGE_VERSION);
    v
}

/// Whether an upgrade to `latest` replaces the running version.
pub fn self_upgrade_summary(current: &str, latest: &str) -> (s: SelfUpgradeSummary)
    ensures
        s.current_version@ == current@,
        s.latest_version@ == latest@,
        s.updated == (current@ != latest@),
{
    SelfUpgradeSummary {
        current_version: copy_str(current),
        latest_version: copy_str(latest),
        updated: !str_eq(current, latest),
    }
}

/// Version and build metadata of a binary built for `target`.
pub fn version_info(target: &str) -> (r: Result<VersionInfo, CoreError>)
    ensures
        match feature_label_spec(BUILD_RELEASE_VARIANT@) {
            Ok(l) => r matches Ok(info) && info.current_version@ == "v"@ + PACKAGE_VERSION@
                && info.build_target@ == target@ && info.build_variant@ == l
                && info.archive_extension@ == archive_extension_spec(target@),
            Err(m) => r matches Err(CoreError::Unsupported(e)) && e@ == m,
        },
{
    let variant = match release_feature_label() {
        Ok(f) => f,
        Err(e) => {
            return Err(e);
        },
    };
    Ok(
        VersionInfo {
            current_version: current_version(),
            build_target: copy_str(target),
            build_variant: copy_str(variant),
            archive_extension: copy_str(release_archive_extension(target)),
        },
    )
}

/// A release archive name mentions the target triple and the feature label it was
/// made for.
pub proof fn law_archive_name_mentions_target_and_feature(
    tag: Seq<char>,
    target: Seq<char>,
    feature: Seq<char>,
)
    ensures
        contains_seq(archive_name_spec(tag, target, feature), target),
        contains_seq(archive_name_spec(tag, target, feature), feature),
{
    let n = archive_name_spec(tag, target, feature);
    let a = "vs-"@ + tag + "-"@;
    let b = a + target + "-"@;
    assert(n.subrange(a.len() as int, (a.len() + target.len()) as int) =~= target);
    assert(occurs_at(n, target, a.len() as int));
    assert(n.subrange(b.len() as int, (b.len() + feature.len()) as int) =~= feature);
    assert(occurs_at(n, feature, b.len() as int));
}

/// The start of the target triples published for an architecture.
pub open spec fn arch_triple_prefix(arch: Seq<char>) -> Seq<char> {
    if arch == "x86_64"@ {
        "x86_64-"@
    } else if arch == "x86"@ {
        "i686-"@
    } else if arch == "aarch64"@ {
        "aarch64-"@
    } else if arch == "arm"@ {
        "armv7-"@
    } else if arch == "powerpc64"@ {
        "powerpc64le-"@
    } else if arch == "riscv64"@ {
        "riscv64gc-"@
    } else if arch == "s390x"@ {
        "s390x-"@
    } else {
        Seq::empty()
    }
}

/// The part of a published target triple that names the operating system.
pub open spec fn os_triple_marker(os: Seq<char>) -> Seq<char> {
    if os == "linux"@ {
        "-unknown-linux-"@
    } else if os == "macos"@ {
        "-apple-darwin"@
    } else if os == "windows"@ {
        "-pc-windows-msvc"@
    } else {
        Seq::empty()
    }
}

proof fn lemma_triple_x86_64_unknown_linux_gnu()
    ensures
        is_prefix_of("x86_64-"@, "x86_64-unknown-linux-gnu"@),
        contains_seq("x86_64-unknown-linux-gnu"@, "-unknown-linux-"@),
        contains_seq("x86_64-unknown-linux-gnu"@, "gnu"@),
{
    reveal_strlit("x86_64-unknown-linux-gnu");
    reveal_strlit("x86_64-");
    reveal_strlit("-unknown-linux-");
    assert("x86_64-unknown-linux-gnu"@.subrange(0, 7) =~= "x86_64-"@);
    assert("x86_64-unknown-linux-gnu"@.subrange(6, 21) =~= "-unknown-linux-"@);
    assert(occurs_at("x86_64-unknown-linux-gnu"@, "-unknown-linux-"@, 6));
    reveal_strlit("gnu");
    assert("x86_64-unknown-linux-gnu"@.subrange(21, 24) =~= "gnu"@);
    assert(occurs_at("x86_64-unknown-linux-gnu"@, "gnu"@, 21));
}

proof fn lemma_triple_x86_64_unknown_linux_musl()
    ensures
        is_prefix_of("x86_64-"@, "x86_64-unknown-linux-musl"@),
        contains_seq("x86_64-unknown-linux-musl"@, "-unknown-linux-"@),
        contains_seq("x86_64-unknown-linux-musl"@, "musl"@),
{
    reveal_strlit("x86_64-unknown-linux-musl");
    reveal_strlit("x86_64-");
    reveal_strlit("-unknown-linux-");
    assert("x86_64-unknown-linux-musl"@.subrange(0, 7) =~= "x86_64-"@);
    assert("x86_64-unknown-linux-musl"@.subrange(6, 21) =~= "-unknown-linux-"@);
    assert(occurs_at("x86_64-unknown-linux-musl"@, "-unknown-linux-"@, 6));
    reveal_strlit("musl");
    assert("x86_64-unknown-linux-musl"@.subrange(21, 25) =~= "musl"@);
    assert(occurs_at("x86_64-unknown-linux-musl"@, "musl"@, 21));
}

proof fn lemma_triple_i686_unknown_linux_gnu()
    ensures
        is_prefix_of("i686-"@, "i686-unknown-linux-gnu"@),
        contains_seq("i686-unknown-linux-gnu"@, "-unknown-linux-"@),
        contains_seq("i686-unknown-linux-gnu"@, "gnu"@),
{
    reveal_strlit("i686-unknown-linux-gnu");
    reveal_strlit("i686-");
    reveal_strlit("-unknown-linux-");
    assert("i686-unknown-linux-gnu"@.subrange(0, 5) =~= "i686-"@);
    assert("i686-unknown-linux-gnu"@.subrange(4, 19) =~= "-unknown-linux-"@);
    assert(occurs_at("i686-unknown-linux-gnu"@, "-unknown-linux-"@, 4));
    reveal_strlit("gnu");
    assert("i686-unknown-linux-gnu"@.subrange(19, 22) =~= "gnu"@);
    assert(occurs_at("i686-unknown-linux-gnu"@, "gnu"@, 19));
}

proof fn lemma_triple_i686_unknown_linux_musl()
    ensures
        is_prefix_of("i686-"@, "i686-unknown-linux-musl"@),
        contains_seq("i686-unknown-linux-musl"@, "-unknown-linux-"@),
        contains_seq("i686-unknown-linux-musl"@, "musl"@),
{
    reveal_strlit("i686-unknown-linux-musl");
    reveal_strlit("i686-");
    reveal_strlit("-unknown-linux-");
    assert("i686-unknown-linux-musl"@.subrange(0, 5) =~= "i686-"@);
    assert("i686-unknown-linux-musl"@.subrange(4, 19) =~= "-unknown-linux-"@);
    assert(occurs_at("i686-unknown-linux-musl"@, "-unknown-linux-"@, 4));
    reveal_strlit("musl");
    assert("i686-unknown-linux-musl"@.subrange(19, 23) =~= "musl"@);
    assert(occurs_at("i686-unknown-linux-musl"@, "musl"@, 19));
}

proof fn lemma_triple_aarch64_unknown_linux_gnu()
    ensures
        is_prefix_of("aarch64-"@, "aarch64-unknown-linux-gnu"@),
        contains_seq("aarch64-unknown-linux-gnu"@, "-unknown-linux-"@),
        contains_seq("aarch64-unknown-linux-gnu"@, "gnu"@),
{
    reveal_strlit("aarch64-unknown-linux-gnu");
    reveal_strlit("aarch64-");
    reveal_strlit("-unknown-linux-");
    assert("aarch64-unknown-linux-gnu"@.subrange(0, 8) =~= "aarch64-"@);
    assert("aarch64-unknown-linux-gnu"@.subrange(7, 22) =~= "-unknown-linux-"@);
    assert(occurs_at("aarch64-unknown-linux-gnu"@, "-unknown-linux-"@, 7));
    reveal_strlit("gnu");
    assert("aarch64-unknown-linux-gnu"@.subrange(22, 25) =~= "gnu"@);
    assert(occurs_at("aarch64-unknown-linux-gnu"@, "gnu"@, 22));
}

proof fn lemma_triple_aarch64_unknown_linux_musl()
    ensures
        is_prefix_of("aarch64-"@, "aarch64-unknown-linux-musl"@),
        contains_seq("aarch64-unknown-linux-musl"@, "-unknown-linux-"@),
        contains_seq("aarch64-unknown-linux-musl"@, "musl"@),
{
    reveal_strlit("aarch64-unknown-linux-musl");
    reveal_strlit("aarch64-");
    reveal_strlit("-unknown-linux-");
    assert("aarch64-unknown-linux-musl"@.subrange(0, 8) =~= "aarch64-"@);
    assert("aarch64-unknown-linux-musl"@.subrange(7, 22) =~= "-unknown-linux-"@);
    assert(occurs_at("aarch64-unknown-linux-musl"@, "-unknown-linux-"@, 7));
    reveal_strlit("musl");
    assert("aarch64-unknown-linux-musl"@.subrange(22, 26) =~= "musl"@);
    assert(occurs_at("aarch64-unknown-linux-musl"@, "musl"@, 22));
}

proof fn lemma_triple_armv7_unknown_linux_gnueabihf()
    ensures
        is_prefix_of("armv7-"@, "armv7-unknown-linux-gnueabihf"@),
        contains_seq("armv7-unknown-linux-gnueabihf"@, "-unknown-linux-"@),
        contains_seq("armv7-unknown-linux-gnueabihf"@, "gnu"@),
{
    reveal_strlit("armv7-unknown-linux-gnueabihf");
    reveal_strlit("armv7-");
    reveal_strlit("-unknown-linux-");
    assert("armv7-unknown-linux-gnueabihf"@.subrange(0, 6) =~= "armv7-"@);
    assert("armv7-unknown-linux-gnueabihf"@.subrange(5, 20) =~= "-unknown-linux-"@);
    assert(occurs_at("armv7-unknown-linux-gnueabihf"@, "-unknown-linux-"@, 5));
    reveal_strlit("gnu");
    assert("armv7-unknown-linux-gnueabihf"@.subrange(20, 23) =~= "gnu"@);
    assert(occurs_at("armv7-unknown-linux-gnueabihf"@, "gnu"@, 20));
}

proof fn lemma_triple_armv7_unknown_linux_musleabihf()
    ensures
        is_prefix_of("armv7-"@, "armv7-unknown-linux-musleabihf"@),
        contains_seq("armv7-unknown-linux-musleabihf"@, "-unknown-linux-"@),
        contains_seq("armv7-unknown-linux-musleabihf"@, "musl"@),
{
    reveal_strlit("armv7-unknown-linux-musleabihf");
    reveal_strlit("armv7-");
    reveal_strlit("-unknown-linux-");
    assert("armv7-unknown-linux-musleabihf"@.subrange(0, 6) =~= "armv7-"@);
    assert("armv7-unknown-linux-musleabihf"@.subrange(5, 20) =~= "-unknown-linux-"@);
    assert(occurs_at("armv7-unknown-linux-musleabihf"@, "-unknown-linux-"@, 5));
    reveal_strlit("musl");
    assert("armv7-unknown-linux-musleabihf"@.subrange(20, 24) =~= "musl"@);
    assert(occurs_at("armv7-unknown-linux-musleabihf"@, "musl"@, 20));
}

proof fn lemma_triple_powerpc64le_unknown_linux_gnu()
    ensures
        is_prefix_of("powerpc64le-"@, "powerpc64le-unknown-linux-gnu"@),
        contains_seq("powerpc64le-unknown-linux-gnu"@, "-unknown-linux-"@),
        contains_seq("powerpc64le-unknown-linux-gnu"@, "gnu"@),
{
    reveal_strlit("powerpc64le-unknown-linux-gnu");
    reveal_strlit("powerpc64le-");
    reveal_strlit("-unknown-linux-");
    assert("powerpc64le-unknown-linux-gnu"@.subrange(0, 12) =~= "powerpc64le-"@);
    assert("powerpc64le-unknown-linux-gnu"@.subrange(11, 26) =~= "-unknown-linux-"@);
    assert(occurs_at("powerpc64le-unknown-linux-gnu"@, "-unknown-linux-"@, 11));
    reveal_strlit("gnu");
    assert("powerpc64le-unknown-linux-gnu"@.subrange(26, 29) =~= "gnu"@);
    assert(occurs_at("powerpc64le-unknown-linux-gnu"@, "gnu"@, 26));
}

proof fn lemma_triple_riscv64gc_unknown_linux_gnu()
    ensures
        is_prefix_of("riscv64gc-"@, "riscv64gc-unknown-linux-gnu"@),
        contains_seq("riscv64gc-unknown-linux-gnu"@, "-unknown-linux-"@),
        contains_seq("riscv64gc-unknown-linux-gnu"@, "gnu"@),
{
    reveal_strlit("riscv64gc-unknown-linux-gnu");
    reveal_strlit("riscv64gc-");
    reveal_strlit("-unknown-linux-");
    assert("riscv64gc-unknown-linux-gnu"@.subrange(0, 10) =~= "riscv64gc-"@);
    assert("riscv64gc-unknown-linux-gnu"@.subrange(9, 24) =~= "-unknown-linux-"@);
    assert(occurs_at("riscv64gc-unknown-linux-gnu"@, "-unknown-linux-"@, 9));
    reveal_strlit("gnu");
    assert("riscv64gc-unknown-linux-gnu"@.subrange(24, 27) =~= "gnu"@);
    assert(occurs_at("riscv64gc-unknown-linux-gnu"@, "gnu"@, 24));
}

proof fn lemma_triple_s390x_unknown_linux_gnu()
    ensures
        is_prefix_of("s390x-"@, "s390x-unknown-linux-gnu"@),
        contains_seq("s390x-unknown-linux-gnu"@, "-unknown-linux-"@),
        contains_seq("s390x-unknown-linux-gnu"@, "gnu"@),
{
    reveal_strlit("s390x-unknown-linux-gnu");
    reveal_strlit("s390x-");
    reveal_strlit("-unknown-linux-");
    assert("s390x-unknown-linux-gnu"@.subrange(0, 6) =~= "s390x-"@);
    assert("s390x-unknown-linux-gnu"@.subrange(5, 20) =~= "-unknown-linux-"@);
    assert(occurs_at("s390x-unknown-linux-gnu"@, "-unknown-linux-"@, 5));
    reveal_strlit("gnu");
    assert("s390x-unknown-linux-gnu"@.subrange(20, 23) =~= "gnu"@);
    assert(occurs_at("s390x-unknown-linux-gnu"@, "gnu"@, 20));
}

proof fn lemma_triple_aarch64_apple_darwin()
    ensures
        is_prefix_of("aarch64-"@, "aarch64-apple-darwin"@),
        contains_seq("aarch64-apple-darwin"@, "-apple-darwin"@),
{
    reveal_strlit("aarch64-apple-darwin");
    reveal_strlit("aarch64-");
    reveal_strlit("-apple-darwin");
    assert("aarch64-apple-darwin"@.subrange(0, 8) =~= "aarch64-"@);
    assert("aarch64-apple-darwin"@.subrange(7, 20) =~= "-apple-darwin"@);
    assert(occurs_at("aarch64-apple-darwin"@, "-apple-darwin"@, 7));
}

proof fn lemma_triple_x86_64_apple_darwin()
    ensures
        is_prefix_of("x86_64-"@, "x86_64-apple-darwin"@),
        contains_seq("x86_64-apple-darwin"@, "-apple-darwin"@),
{
    reveal_strlit("x86_64-apple-darwin");
    reveal_strlit("x86_64-");
    reveal_strlit("-apple-darwin");
    assert("x86_64-apple-darwin"@.subrange(0, 7) =~= "x86_64-"@);
    assert("x86_64-apple-darwin"@.subrange(6, 19) =~= "-apple-darwin"@);
    assert(occurs_at("x86_64-apple-darwin"@, "-apple-darwin"@, 6));
}

proof fn lemma_triple_x86_64_pc_windows_msvc()
    ensures
        is_prefix_of("x86_64-"@, "x86_64-pc-windows-msvc"@),
        contains_seq("x86_64-pc-windows-msvc"@, "-pc-windows-msvc"@),
{
    reveal_strlit("x86_64-pc-windows-msvc");
    reveal_strlit("x86_64-");
    reveal_strlit("-pc-windows-msvc");
    assert("x86_64-pc-windows-msvc"@.subrange(0, 7) =~= "x86_64-"@);
    assert("x86_64-pc-windows-msvc"@.subrange(6, 22) =~= "-pc-windows-msvc"@);
    assert(occurs_at("x86_64-pc-windows-msvc"@, "-pc-windows-msvc"@, 6));
}

proof fn lemma_triple_i686_pc_windows_msvc()
    ensures
        is_prefix_of("i686-"@, "i686-pc-windows-msvc"@),
        contains_seq("i686-pc-windows-msvc"@, "-pc-windows-msvc"@),
{
    reveal_strlit("i686-pc-windows-msvc");
    reveal_strlit("i686-");
    reveal_strlit("-pc-windows-msvc");
    assert("i686-pc-windows-msvc"@.subrange(0, 5) =~= "i686-"@);
    assert("i686-pc-windows-msvc"@.subrange(4, 20) =~= "-pc-windows-msvc"@);
    assert(occurs_at("i686-pc-windows-msvc"@, "-pc-windows-msvc"@, 4));
}

proof fn lemma_triple_aarch64_pc_windows_msvc()
    ensures
        is_prefix_of("aarch64-"@, "aarch64-pc-windows-msvc"@),
        contains_seq("aarch64-pc-windows-msvc"@, "-pc-windows-msvc"@),
{
    reveal_strlit("aarch64-pc-windows-msvc");
    reveal_strlit("aarch64-");
    reveal_strlit("-pc-windows-msvc");
    assert("aarch64-pc-windows-msvc"@.subrange(0, 8) =~= "aarch64-"@);
    assert("aarch64-pc-windows-msvc"@.subrange(7, 23) =~= "-pc-windows-msvc"@);
    assert(occurs_at("aarch64-pc-windows-msvc"@, "-pc-windows-msvc"@, 7));
}

/// The target triple picked for a platform names that platform: it starts with the
/// architecture's triple name (`x86_64-`, `i686-` for x86, `aarch64-`, `armv7-` for
/// arm, ...), it names the operating system (`-unknown-linux-`, `-apple-darwin`,
/// `-pc-windows-msvc`) and, on Linux, the C library (`gnu` or `musl`). Every macOS
/// and Windows machine on x86_64 or aarch64, Windows on x86, and Linux on x86_64,
/// x86, aarch64 or arm with a known C library, has a published triple.
pub proof fn law_target_triple_names_platform(
    os: Seq<char>,
    arch: Seq<char>,
    libc: Option<LinuxLibc>,
    little_endian: bool,
)
    ensures
        target_triple_spec(os, arch, libc, little_endian) matches Some(t) ==> {
            &&& arch_triple_prefix(arch).len() > 0
            &&& is_prefix_of(arch_triple_prefix(arch), t)
            &&& contains_seq(t, os_triple_marker(os))
            &&& (os == "linux"@ && libc == Some(LinuxLibc::Gnu) ==> contains_seq(t, "gnu"@))
            &&& (os == "linux"@ && libc == Some(LinuxLibc::Musl) ==> contains_seq(t, "musl"@))
        },
        (os == "macos"@ || os == "windows"@) && (arch == "x86_64"@ || arch == "aarch64"@)
            ==> target_triple_spec(os, arch, libc, little_endian) is Some,
        os == "windows"@ && arch == "x86"@ ==> target_triple_spec(os, arch, libc, little_endian) is Some,
        os == "linux"@ && libc is Some && (arch == "x86_64"@ || arch == "x86"@ || arch == "aarch64"@
            || arch == "arm"@) ==> target_triple_spec(os, arch, libc, little_endian) is Some,
{
    reveal_strlit("linux");
    reveal_strlit("macos");
    reveal_strlit("windows");
    reveal_strlit("x86_64");
    reveal_strlit("x86");
    reveal_strlit("aarch64");
    reveal_strlit("arm");
    reveal_strlit("powerpc64");
    reveal_strlit("riscv64");
    reveal_strlit("s390x");
    assert("linux"@[0] != "macos"@[0]);
    assert("linux"@ != "macos"@);
    assert("linux"@.len() != "windows"@.len());
    assert("linux"@ != "windows"@);
    assert("macos"@.len() != "windows"@.len());
    assert("macos"@ != "windows"@);
    assert("x86_64"@.len() != "x86"@.len());
    assert("x86_64"@ != "x86"@);
    assert("x86_64"@.len() != "aarch64"@.len());
    assert("x86_64"@ != "aarch64"@);
    assert("x86_64"@.len() != "arm"@.len());
    assert("x86_64"@ != "arm"@);
    assert("x86_64"@.len() != "powerpc64"@.len());
    assert("x86_64"@ != "powerpc64"@);
    assert("x86_64"@.len() != "riscv64"@.len());
    assert("x86_64"@ != "riscv64"@);
    assert("x86_64"@.len() != "s390x"@.len());
    assert("x86_64"@ != "s390x"@);
    assert("x86"@.len() != "aarch64"@.len());
    assert("x86"@ != "aarch64"@);
    assert("x86"@[0] != "arm"@[0]);
    assert("x86"@ != "arm"@);
    assert("x86"@.len() != "powerpc64"@.len());
    assert("x86"@ != "powerpc64"@);
    assert("x86"@.len() != "riscv64"@.len());
    assert("x86"@ != "riscv64"@);
    assert("x86"@.len() != "s390x"@.len());
    assert("x86"@ != "s390x"@);
    assert("aarch64"@.len() != "arm"@.len());
    assert("aarch64"@ != "arm"@);
    assert("aarch64"@.len() != "powerpc64"@.len());
    assert("aarch64"@ != "powerpc64"@);
    assert("aarch64"@[0] != "riscv64"@[0]);
    assert("aarch64"@ != "riscv64"@);
    assert("aarch64"@.len() != "s390x"@.len());
    assert("aarch64"@ != "s390x"@);
    assert("arm"@.len() != "powerpc64"@.len());
    assert("arm"@ != "powerpc64"@);
    assert("arm"@.len() != "riscv64"@.len());
    assert("arm"@ != "riscv64"@);
    assert("arm"@.len() != "s390x"@.len());
    assert("arm"@ != "s390x"@);
    assert("powerpc64"@.len() != "riscv64"@.len());
    assert("powerpc64"@ != "riscv64"@);
    assert("powerpc64"@.len() != "s390x"@.len());
    assert("powerpc64"@ != "s390x"@);
    assert("riscv64"@.len() != "s390x"@.len());
    assert("riscv64"@ != "s390x"@);
    reveal_strlit("x86_64-");
    reveal_strlit("i686-");
    reveal_strlit("aarch64-");
    reveal_strlit("armv7-");
    reveal_strlit("powerpc64le-");
    reveal_strlit("riscv64gc-");
    reveal_strlit("s390x-");
    lemma_triple_x86_64_unknown_linux_gnu();
    lemma_triple_x86_64_unknown_linux_musl();
    lemma_triple_i686_unknown_linux_gnu();
    lemma_triple_i686_unknown_linux_musl();
    lemma_triple_aarch64_unknown_linux_gnu();
    lemma_triple_aarch64_unknown_linux_musl();
    lemma_triple_armv7_unknown_linux_gnueabihf();
    lemma_triple_armv7_unknown_linux_musleabihf();
    lemma_triple_powerpc64le_unknown_linux_gnu();
    lemma_triple_riscv64gc_unknown_linux_gnu();
    lemma_triple_s390x_unknown_linux_gnu();
    lemma_triple_aarch64_apple_darwin();
    lemma_triple_x86_64_apple_darwin();
    lemma_triple_x86_64_pc_windows_msvc();
    lemma_triple_i686_pc_windows_msvc();
    lemma_triple_aarch64_pc_windows_msvc();
    if os == "linux"@ {
        match libc {
            Some(LinuxLibc::Gnu) => {
                assert(target_triple_spec(os, arch, libc, little_endian) is Some || !(arch == "x86_64"@
                    || arch == "x86"@ || arch == "aarch64"@ || arch == "arm"@));
            },
            Some(LinuxLibc::Musl) => {
                assert(target_triple_spec(os, arch, libc, little_endian) is Some || !(arch == "x86_64"@
                    || arch == "x86"@ || arch == "aarch64"@ || arch == "arm"@));
            },
            None => {},
        }
    }
}

} // verus!
