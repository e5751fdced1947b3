//! Runtime installs: where versions live, how artifacts are named and unpacked, how
//! checksums are checked, and the receipt an install leaves behind.
use vstd::prelude::*;

use crate::external::{
    md5_digest, md5_of, sha1_digest, sha1_of, sha256_digest, sha256_of, sha512_digest, sha512_of,
};
use crate::model::{Checksum, InstallArtifact, InstallPlan, InstalledArtifact, InstalledRuntime};
use crate::paths::{join_path, path_join};
use crate::shell::hex_digit;
use crate::text::{
    chars_of, clone_opt, copy_str, ends_with, is_suffix_of, lower_seq, push_char, split_chars,
    split_seq, str_eq, to_ascii_lowercase, trim, trim_seq, CharClass,
};

verus! {

broadcast use vstd::seq_lib::group_seq_properties;

/// Errors returned by installer services.
#[derive(Debug, Clone, PartialEq, Eq)]
pub enum InstallerError {
    /// An I/O operation failed, with its message.
    Io(String),
    /// A download failed.
    Download(String),
    /// A directory walk failed.
    Walk(String),
    /// The source directory was not found.
    MissingSource(String),
    /// JSON data could not be parsed.
    Json { path: String, message: String },
    /// The install validation step failed.
    Validation(String),
    /// An archive could not be unpacked, with its message.
    Archive(String),
}

/// The human readable message of an installer error.
pub open spec fn installer_error_text(e: InstallerError) -> Seq<char> {
    match e {
        InstallerError::Io(t) => t@,
        InstallerError::Download(t) => "artifact download failed: "@ + t@,
        InstallerError::Walk(t) => "failed to walk directory tree: "@ + t@,
        InstallerError::MissingSource(p) => "install source does not exist: "@ + p@,
        InstallerError::Json { path, message } => "failed to parse JSON file at "@ + path@ + ": "@
            + message@,
        InstallerError::Validation(t) => "install validation failed: "@ + t@,
        InstallerError::Archive(t) => t@,
    }
}

impl InstallerError {
    /// The human readable message of the error.
    pub fn message(&self) -> (m: String)
        ensures
            m@ == installer_error_text(*self),
    {
        match self {
            InstallerError::Io(t) => t.clone(),
            InstallerError::Download(t) => {
                let mut m = copy_str("artifact download failed: ");
                m.append(t.as_str());
                m
            },
            InstallerError::Walk(t) => {
                let mut m = copy_str("failed to walk directory tree: ");
                m.append(t.as_str());
                m
            },
            InstallerError::MissingSource(p) => {
                let mut m = copy_str("install source does not exist: ");
                m.append(p.as_str());
                m
            },
            InstallerError::Json { path, message } => {
                let mut m = copy_str("failed to parse JSON file at ");
                m.append(path.as_str());
                m.append(": ");
                m.append(message.as_str());
                m
            },
            InstallerError::Validation(t) => {
                let mut m = copy_str("install validation failed: ");
                m.append(t.as_str());
                m
            },
            InstallerError::Archive(t) => t.clone(),
        }
    }
}

/// Handles runtime installs under a home.
#[derive(Debug, Clone)]
pub struct Installer {
    home: String,
}

/// `home/cache/<plugin>/versions`.
pub open spec fn versions_root_spec(home: Seq<char>, plugin: Seq<char>) -> Seq<char> {
    path_join(path_join(path_join(home, "cache"@), plugin), "versions"@)
}

impl Installer {
    /// Creates a new installer rooted at the active home.
    pub fn new(home: &str) -> (i: Installer)
        ensures
            i.home_spec() == home@,
    {
        Installer { home: copy_str(home) }
    }

    pub closed spec fn home_spec(&self) -> Seq<char> {
        self.home@
    }

    /// The home the installer works under.
    pub fn home(&self) -> (h: &str)
        ensures
            h@ == self.home_spec(),
    {
        self.home.as_str()
    }

    /// Where the versions of a plugin are installed.
    pub fn versions_root(&self, plugin: &str) -> (p: String)
        ensures
            p@ == versions_root_spec(self.home_spec(), plugin@),
    {
        let a = join_path(self.home.as_str(), "cache");
        let b = join_path(a.as_str(), plugin);
        join_path(b.as_str(), "versions")
    }

    /// The receipt file of an install directory.
    pub fn receipt_path(install_dir: &str) -> (p: String)
        ensures
            p@ == path_join(install_dir@, ".vs-receipt.json"@),
    {
        join_path(install_dir, ".vs-receipt.json")
    }

    /// Returns the final install directory for a plugin version.
    pub fn install_dir(&self, plugin: &str, version: &str) -> (p: String)
        ensures
            p@ == path_join(versions_root_spec(self.home_spec(), plugin@), version@),
    {
        let root = self.versions_root(plugin);
        join_path(root.as_str(), version)
    }

    /// The receipt an install of `plan` records: each artifact placed under the
    /// version's install directory in the directory `runtime_dir_name` gives it.
    pub fn receipt_for(&self, plan: &InstallPlan) -> (r: InstalledRuntime)
        ensures
            r.plugin@ == plan.plugin@,
            r.version@ == plan.version@,
            r.root_dir@ == path_join(
                versions_root_spec(self.home_spec(), plan.plugin@),
                plan.version@,
            ),
            placed(r.main, plan.main, r.root_dir@, true),
            r.additions@.len() == plan.additions@.len(),
            forall|k: int|
                0 <= k < plan.additions@.len() ==> placed(
                    #[trigger] r.additions@[k],
                    plan.additions@[k],
                    r.root_dir@,
                    false,
                ),
    {
        let root = self.install_dir(plan.plugin.as_str(), plan.version.as_str());
        let main = placement(&plan.main, root.as_str(), true);
        let mut additions: Vec<InstalledArtifact> = Vec::new();
        let mut k: usize = 0;
        while k < plan.additions.len()
            invariant
                k <= plan.additions@.len(),
                additions@.len() == k,
                forall|j: int|
                    0 <= j < k ==> placed(
                        #[trigger] additions@[j],
                        plan.additions@[j],
                        root@,
                        false,
                    ),
            decreases plan.additions@.len() - k,
        {
            additions.push(placement(&plan.additions[k], root.as_str(), false));
            k += 1;
        }
        InstalledRuntime {
            plugin: plan.plugin.clone(),
            version: plan.version.clone(),
            root_dir: root,
            main,
            additions,
        }
    }
}

/// The directory an artifact is placed in inside a version: `<name>-<version>` for the
/// main artifact and `add-<name>-<version>` for the others, without the `-<version>`
/// part when the version is empty.
pub open spec fn runtime_dir_name_spec(name: Seq<char>, version: Seq<char>, is_main: bool) -> Seq<
    char,
> {
    let base = if version.len() == 0 {
        name
    } else {
        name + "-"@ + version
    };
    if is_main {
        base
    } else {
        "add-"@ + base
    }
}

/// The directory an artifact is placed in inside a version.
pub fn runtime_dir_name(artifact: &InstallArtifact, is_main: bool) -> (r: String)
    ensures
        r@ == runtime_dir_name_spec(artifact.name@, artifact.version@, is_main),
{
    let mut base = copy_str(artifact.name.as_str());
    if !artifact.version.as_str().is_empty() {
        base.append("-");
        base.append(artifact.version.as_str());
    }
    if is_main {
        base
    } else {
        let mut r = copy_str("add-");
        r.append(base.as_str());
        r
    }
}

/// `placed` describes the receipt entry of an artifact installed under `root`.
pub open spec fn placed(r: InstalledArtifact, a: InstallArtifact, root: Seq<char>, is_main: bool) -> bool {
    &&& r.name@ == a.name@
    &&& r.version@ == a.version@
    &&& r.path@ == path_join(root, runtime_dir_name_spec(a.name@, a.version@, is_main))
    &&& r.note.deep_view() == a.note.deep_view()
}

fn placement(artifact: &InstallArtifact, root: &str, is_main: bool) -> (r: InstalledArtifact)
    ensures
        placed(r, *artifact, root@, is_main),
{
    let dir = runtime_dir_name(artifact, is_main);
    InstalledArtifact {
        name: artifact.name.clone(),
        version: artifact.version.clone(),
        path: join_path(root, dir.as_str()),
        note: clone_opt(&artifact.note),
    }
}

/// What an existing install gives back: its receipt, or an error when the receipt is
/// missing.
pub fn existing_install(receipt: Option<InstalledRuntime>) -> (r: Result<
    InstalledRuntime,
    InstallerError,
>)
    ensures
        match receipt {
            Some(x) => r == Ok::<InstalledRuntime, InstallerError>(x),
            None => r matches Err(InstallerError::Validation(m)) && m@
                == "install receipt is missing"@,
        },
{
    match receipt {
        Some(x) => Ok(x),
        None => Err(InstallerError::Validation(copy_str("install receipt is missing"))),
    }
}

/// A staged install is refused when it holds a file named `.vs-fail-install`.
pub fn validate_staged_install(entry_names: &Vec<String>) -> (r: Result<(), InstallerError>)
    ensures
        entry_names.deep_view().contains(".vs-fail-install"@) ==> (r matches Err(
            InstallerError::Validation(m),
        ) && m@ == "staged runtime requested a simulated install failure"@),
        !entry_names.deep_view().contains(".vs-fail-install"@) ==> r is Ok,
{
    let mut i: usize = 0;
    while i < entry_names.len()
        invariant
            i <= entry_names@.len(),
            forall|j: int| 0 <= j < i ==> entry_names.deep_view()[j] != ".vs-fail-install"@,
        decreases entry_names@.len() - i,
    {
        assert(entry_names.deep_view()[i as int] == entry_names@[i as int]@);
        if str_eq(entry_names[i].as_str(), ".vs-fail-install") {
            return Err(
                InstallerError::Validation(
                    copy_str("staged runtime requested a simulated install failure"),
                ),
            );
        }
        i += 1;
    }
    Ok(())
}

// ---------------------------------------------------------------------------
// Archives
// ---------------------------------------------------------------------------

/// How a downloaded artifact is unpacked.
#[derive(Debug, Clone, Copy, PartialEq, Eq, Structural)]
pub enum ArchiveKind {
    Zip,
    TarGz,
    TarXz,
    Tar,
    PlainFile,
}

/// The last piece of `s` after `sep`-separated splitting (`rsplit(sep).next()`).
pub open spec fn last_piece(s: Seq<char>, sep: char) -> Seq<char> {
    split_seq(s, CharClass::Exactly(sep)).last()
}

/// Whether `s` holds `#/` at index `i`.
pub open spec fn fragment_mark_at(s: Seq<char>, i: int) -> bool {
    0 <= i && i + 1 < s.len() && s[i] == '#' && s[i + 1] == '/'
}

/// The file name a source stands for: what follows the last `#/` when there is one,
/// else what follows the last `/`.
pub open spec fn archive_name_hint_spec(s: Seq<char>) -> Seq<char> {
    if exists|i: int| fragment_mark_at(s, i) {
        let i = choose|i: int| fragment_mark_at(s, i) && forall|j: int| i < j ==> !fragment_mark_at(s, j);
        s.skip(i + 2)
    } else {
        last_piece(s, '/')
    }
}

/// The file name a source stands for.
pub fn archive_name_hint(source_name: &str) -> (r: String)
    ensures
        r@ == archive_name_hint_spec(source_name@),
{
    let v = chars_of(source_name);
    let mut i: usize = v.len();
    while i >= 2
        invariant
            i <= v@.len(),
            v@ == source_name@,
            forall|j: int| i - 1 <= j ==> !fragment_mark_at(v@, j),
        decreases i,
    {
        if v[i - 2] == '#' && v[i - 1] == '/' {
            let r = crate::text::string_from_range(&v, i, v.len());
            proof {
                let k = (i - 2) as int;
                assert(fragment_mark_at(v@, k));
                let c = choose|c: int| fragment_mark_at(v@, c) && forall|j: int| c < j ==> !fragment_mark_at(v@, j);
                assert(forall|j: int| k < j ==> !fragment_mark_at(v@, j));
                if c < k {
                    assert(!fragment_mark_at(v@, k));
                } else if c > k {
                    assert(!fragment_mark_at(v@, c));
                }
                assert(v@.subrange(i as int, v@.len() as int) =~= v@.skip(k + 2));
            }
            return r;
        }
        i -= 1;
    }
    proof {
        assert forall|j: int| !fragment_mark_at(v@, j) by {
            if 0 <= j && j + 1 < v@.len() {
                assert(i - 1 <= j);
            }
        }
    }
    let parts = split_chars(&v, CharClass::Exactly('/'));
    proof {
        crate::text::lemma_split_nonempty(v@, CharClass::Exactly('/'));
    }
    let n = parts.len();
    assert(parts.deep_view()[n - 1] == parts@[n - 1]@);
    parts[n - 1].clone()
}

/// The unpacking of a source by the file name it stands for.
pub open spec fn archive_kind_spec(source_name: Seq<char>) -> ArchiveKind {
    let name = archive_name_hint_spec(source_name);
    if is_suffix_of(".tar.gz"@, name) || is_suffix_of(".tgz"@, name) {
        ArchiveKind::TarGz
    } else if is_suffix_of(".tar.xz"@, name) {
        ArchiveKind::TarXz
    } else if is_suffix_of(".tar"@, name) {
        ArchiveKind::Tar
    } else if is_suffix_of(".zip"@, name) {
        ArchiveKind::Zip
    } else {
        ArchiveKind::PlainFile
    }
}

/// Picks how a downloaded source is unpacked.
pub fn detect_archive_kind(source_name: &str) -> (r: ArchiveKind)
    ensures
        r == archive_kind_spec(source_name@),
{
    let name = archive_name_hint(source_name);
    let n = name.as_str();
    if ends_with(n, ".tar.gz") || ends_with(n, ".tgz") {
        ArchiveKind::TarGz
    } else if ends_with(n, ".tar.xz") {
        ArchiveKind::TarXz
    } else if ends_with(n, ".tar") {
        ArchiveKind::Tar
    } else if ends_with(n, ".zip") {
        ArchiveKind::Zip
    } else {
        ArchiveKind::PlainFile
    }
}

/// The file name a plain artifact is saved under: the name hint up to its first `?`,
/// trimmed; none when that is empty.
pub open spec fn artifact_file_name_spec(source_name: Seq<char>) -> Option<Seq<char>> {
    let candidate = trim_seq(split_seq(archive_name_hint_spec(source_name), CharClass::Exactly('?'))[0]);
    if candidate.len() == 0 {
        None
    } else {
        Some(candidate)
    }
}

/// The file name a plain artifact is saved under.
pub fn artifact_file_name(source_name: &str) -> (r: Option<String>)
    ensures
        r.deep_view() == artifact_file_name_spec(source_name@),
{
    let hint = archive_name_hint(source_name);
    let hv = chars_of(hint.as_str());
    let parts = split_chars(&hv, CharClass::Exactly('?'));
    proof {
        crate::text::lemma_split_nonempty(hv@, CharClass::Exactly('?'));
    }
    assert(parts.deep_view()[0] == parts@[0]@);
    let candidate = trim(parts[0].as_str());
    if candidate.as_str().is_empty() {
        None
    } else {
        Some(candidate)
    }
}

/// The file name a plain artifact is saved under, `artifact` when none can be read
/// off its source.
pub fn plain_file_name(source_name: &str) -> (r: String)
    ensures
        r@ == match artifact_file_name_spec(source_name@) {
            Some(n) => n,
            None => "artifact"@,
        },
{
    match artifact_file_name(source_name) {
        Some(n) => n,
        None => copy_str("artifact"),
    }
}

/// Directory names that stand for a runtime's own layout and are kept when an archive
/// unpacks into a single directory.
pub open spec fn is_layout_dir(name: Seq<char>) -> bool {
    ||| name == "bin"@
    ||| name == "lib"@
    ||| name == "lib64"@
    ||| name == "include"@
    ||| name == "share"@
    ||| name == "etc"@
    ||| name == "usr"@
    ||| name == "opt"@
    ||| name == "Scripts"@
    ||| name == "script"@
    ||| name == "cmd"@
    ||| name == "completions"@
}

/// Whether the single top directory of an unpacked archive is a wrapper to collapse.
pub fn should_flatten_archive_root(root_name: &str) -> (r: bool)
    ensures
        r == !is_layout_dir(root_name@),
{
    !(str_eq(root_name, "bin") || str_eq(root_name, "lib") || str_eq(root_name, "lib64") || str_eq(
        root_name,
        "include",
    ) || str_eq(root_name, "share") || str_eq(root_name, "etc") || str_eq(root_name, "usr")
        || str_eq(root_name, "opt") || str_eq(root_name, "Scripts") || str_eq(root_name, "script")
        || str_eq(root_name, "cmd") || str_eq(root_name, "completions"))
}

// ---------------------------------------------------------------------------
// Checksums
// ---------------------------------------------------------------------------

/// Lowercase hexadecimal of a byte string, two digits per byte.
pub open spec fn hex_bytes(b: Seq<u8>) -> Seq<char>
    decreases b.len(),
{
    if b.len() == 0 {
        Seq::empty()
    } else {
        hex_bytes(b.drop_last()).push(hex_digit((b.last() / 16) as nat)).push(
            hex_digit((b.last() % 16) as nat),
        )
    }
}

fn hex_char(d: u8) -> (c: char)
    requires
        d < 16,
    ensures
        c == hex_digit(d as nat),
{
    if d < 10 {
        ((d + 48) as char)
    } else {
        ((d + 87) as char)
    }
}

/// Formats bytes as lowercase hexadecimal.
pub fn format_hex_bytes(b: &Vec<u8>) -> (s: String)
    ensures
        s@ == hex_bytes(b@),
{
    let mut s = String::new();
    let mut i: usize = 0;
    while i < b.len()
        invariant
            i <= b@.len(),
            s@ == hex_bytes(b@.take(i as int)),
        decreases b@.len() - i,
    {
        let x = b[i];
        assert(b@.take(i + 1).drop_last() =~= b@.take(i as int));
        push_char(&mut s, hex_char(x / 16));
        push_char(&mut s, hex_char(x % 16));
        i += 1;
    }
    assert(b@.take(i as int) =~= b@);
    s
}

/// The digest an algorithm name asks for, if it is one of the supported ones.
pub open spec fn digest_for(algorithm: Seq<char>, data: Seq<u8>) -> Option<Seq<u8>> {
    if algorithm == "sha256"@ {
        Some(sha256_of(data))
    } else if algorithm == "sha512"@ {
        Some(sha512_of(data))
    } else if algorithm == "sha1"@ {
        Some(sha1_of(data))
    } else if algorithm == "md5"@ {
        Some(md5_of(data))
    } else {
        None
    }
}

/// The outcome of checking `data` (the contents of the file at `path`) against a
/// checksum: an unknown algorithm and a mismatch are validation errors; hex digits
/// compare without regard to ASCII case.
pub open spec fn checksum_outcome(path: Seq<char>, data: Seq<u8>, checksum: Checksum) -> Result<
    (),
    Seq<char>,
> {
    match digest_for(checksum.algorithm@, data) {
        None => Err("unsupported checksum algorithm: "@ + checksum.algorithm@),
        Some(d) => if lower_seq(hex_bytes(d)) == lower_seq(checksum.value@) {
            Ok(())
        } else {
            Err("checksum mismatch for "@ + path)
        },
    }
}

/// `str::eq_ignore_ascii_case`.
pub fn eq_ignore_ascii_case(a: &str, b: &str) -> (r: bool)
    ensures
        r == (lower_seq(a@) == lower_seq(b@)),
{
    let la = to_ascii_lowercase(a);
    let lb = to_ascii_lowercase(b);
    str_eq(la.as_str(), lb.as_str())
}

/// Checks the contents of the file at `path` against a checksum.
pub fn verify_checksum(path: &str, data: &[u8], checksum: &Checksum) -> (r: Result<(), InstallerError>)
    ensures
        match checksum_outcome(path@, data@, *checksum) {
            Ok(()) => r is Ok,
            Err(m) => r matches Err(InstallerError::Validation(e)) && e@ == m,
        },
{
    let algorithm = checksum.algorithm.as_str();
    let digest = if str_eq(algorithm, "sha256") {
        sha256_digest(data)
    } else if str_eq(algorithm, "sha512") {
        sha512_digest(data)
    } else if str_eq(algorithm, "sha1") {
        sha1_digest(data)
    } else if str_eq(algorithm, "md5") {
        md5_digest(data)
    } else {
        let mut m = copy_str("unsupported checksum algorithm: ");
        m.append(algorithm);
        return Err(InstallerError::Validation(m));
    };
    let actual = format_hex_bytes(&digest);
    if eq_ignore_ascii_case(actual.as_str(), checksum.value.as_str()) {
        Ok(())
    } else {
        let mut m = copy_str("checksum mismatch for ");
        m.append(path);
        Err(InstallerError::Validation(m))
    }
}

// ---------------------------------------------------------------------------
// Installed versions
// ---------------------------------------------------------------------------

fn text_le(a: &String, b: &String) -> (r: bool)
    ensures
        r == crate::order::seq_le(a@, b@),
{
    let av = chars_of(a.as_str());
    let bv = chars_of(b.as_str());
    crate::order::chars_le(&av, &bv)
}

/// The installed version names of a plugin in string order (`sort` on the directory
/// names).
pub fn sort_version_names(names: Vec<String>) -> (r: Vec<String>)
    ensures
        r.deep_view() == crate::order::sort_seq(
            names.deep_view(),
            |a: Seq<char>, b: Seq<char>| crate::order::seq_le(a, b),
        ),
{
    crate::order::sort_stable(
        names,
        text_le,
        Ghost(|a: Seq<char>, b: Seq<char>| crate::order::seq_le(a, b)),
    )
}

} // verus!
