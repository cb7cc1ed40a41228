//! Java runtime selection: distributions, which one serves which version on
//! which platform, where a runtime is installed and where it is downloaded
//! from.

use vstd::prelude::*;
use vstd::string::StringExecFns;
use crate::system::{file_name, file_name_exec, join_path, join_path_exec, Architecture, OperatingSystem};
use crate::text::{
    decimal, decimal_exec, ends_with, ends_with_exec, extend_chars, first_match, from_chars,
    lemma_first_match_none, lemma_first_match_unique, to_chars,
};

verus! {

/// Available Java distributions.
#[derive(Debug, Clone, Copy, PartialEq, Eq, Structural)]
pub enum JavaDistribution {
    Temurin,
    GraalVM,
    Zulu,
    Liberica,
}

/// How the Java distribution is chosen.
#[derive(Debug, Clone)]
pub enum DistributionSelection {
    /// Picked by the launcher
    Automatic(String),
    /// A runtime the user points to
    Custom(String),
    /// A given distribution
    Manual(JavaDistribution),
}

impl Default for DistributionSelection {
    fn default() -> (r: Self)
        ensures
            r matches DistributionSelection::Automatic(s) && s@ == Seq::<char>::empty(),
    {
        DistributionSelection::Automatic(String::new())
    }
}

impl Default for JavaDistribution {
    fn default() -> (r: Self)
        ensures
            r == JavaDistribution::Temurin,
    {
        JavaDistribution::Temurin
    }
}

/// Errors while resolving a distribution's download URL.
#[derive(Debug)]
pub enum DistributionError {
    /// The distribution does not provide this Java version
    UnsupportedVersion { version: u8, distribution: String },
    /// The distribution's API could not be reached
    ApiError { distribution: String, error: String },
    /// The distribution's API answered something unreadable
    JsonParseError { distribution: String, error: String },
    /// The distribution's API listed no package
    NoPackagesFound { distribution: String },
}

/// Errors while installing or locating a Java runtime.
#[derive(Debug)]
pub enum JreError {
    /// The runtime could not be downloaded
    Download(String),
    /// The runtime archive could not be extracted
    Extraction(String),
    /// No runtime archive exists for this operating system
    UnsupportedOS,
    /// No Java binary where one was expected
    NotFound { path: String },
    /// A filesystem error
    Io(std::io::Error),
}

/// The canonical name of a distribution.
pub open spec fn distribution_name(d: JavaDistribution) -> Seq<char> {
    match d {
        JavaDistribution::Temurin => "temurin"@,
        JavaDistribution::GraalVM => "graalvm"@,
        JavaDistribution::Zulu => "zulu"@,
        JavaDistribution::Liberica => "liberica"@,
    }
}

/// Whether distribution `d` provides Java `version` on the platform: Temurin
/// has no Java 8 for macOS on ARM64, GraalVM starts at Java 17.
pub open spec fn supports(d: JavaDistribution, version: u8, os: OperatingSystem, arch: Architecture) -> bool {
    match d {
        JavaDistribution::Temurin => !(version == 8 && os == OperatingSystem::OSX && arch
            == Architecture::AARCH64),
        JavaDistribution::GraalVM => version >= 17,
        JavaDistribution::Zulu => true,
        JavaDistribution::Liberica => true,
    }
}

/// The distribution to use instead of `d`: none when `d` serves the
/// version, else the first of Zulu, Liberica, Temurin that does.
pub open spec fn fallback(d: JavaDistribution, version: u8, os: OperatingSystem, arch: Architecture) -> Option<JavaDistribution> {
    if supports(d, version, os, arch) {
        None
    } else if supports(JavaDistribution::Zulu, version, os, arch) {
        Some(JavaDistribution::Zulu)
    } else if supports(JavaDistribution::Liberica, version, os, arch) {
        Some(JavaDistribution::Liberica)
    } else if supports(JavaDistribution::Temurin, version, os, arch) {
        Some(JavaDistribution::Temurin)
    } else {
        None
    }
}

/// The distribution actually installed for `d`.
pub open spec fn effective(d: JavaDistribution, version: u8, os: OperatingSystem, arch: Architecture) -> JavaDistribution {
    match fallback(d, version, os, arch) {
        Some(f) => f,
        None => d,
    }
}

impl JavaDistribution {
    /// Returns the canonical name of this distribution.
    pub fn get_name(&self) -> (r: &'static str)
        ensures
            r@ == distribution_name(*self),
    {
        match self {
            JavaDistribution::Temurin => "temurin",
            JavaDistribution::GraalVM => "graalvm",
            JavaDistribution::Zulu => "zulu",
            JavaDistribution::Liberica => "liberica",
        }
    }

    /// Whether this distribution provides Java `version` on the platform.
    pub fn supports_version(&self, version: u8, os: OperatingSystem, arch: Architecture) -> (r: bool)
        ensures
            r == supports(*self, version, os, arch),
    {
        match self {
            JavaDistribution::Temurin => !(version == 8 && os == OperatingSystem::OSX && arch
                == Architecture::AARCH64),
            JavaDistribution::GraalVM => version >= 17,
            JavaDistribution::Zulu => true,
            JavaDistribution::Liberica => true,
        }
    }

    /// A distribution to use instead of this one when it does not provide
    /// the version on the platform; `None` when no fallback is needed.
    pub fn get_fallback(&self, version: u8, os: OperatingSystem, arch: Architecture) -> (r: Option<JavaDistribution>)
        ensures
            r == fallback(*self, version, os, arch),
    {
        if self.supports_version(version, os, arch) {
            return None;
        }
        let candidates = [JavaDistribution::Zulu, JavaDistribution::Liberica, JavaDistribution::Temurin];
        let mut i: usize = 0;
        while i < 3
            invariant
                i <= 3,
                candidates@ == seq![JavaDistribution::Zulu, JavaDistribution::Liberica, JavaDistribution::Temurin],
                !supports(*self, version, os, arch),
                forall|k: int| 0 <= k < i ==> !supports(candidates@[k], version, os, arch),
            decreases 3 - i,
        {
            if candidates[i].supports_version(version, os, arch) {
                return Some(candidates[i]);
            }
            i += 1;
        }
        None
    }

    /// The distribution installed for this one: its fallback, or itself.
    pub fn effective_distribution(&self, version: u8, os: OperatingSystem, arch: Architecture) -> (r: JavaDistribution)
        ensures
            r == effective(*self, version, os, arch),
    {
        match self.get_fallback(version, os, arch) {
            Some(f) => f,
            None => *self,
        }
    }
}

/// The installation directory of a runtime: `<runtimes>/<name>_<version>`.
pub open spec fn runtime_path(os: OperatingSystem, runtimes: Seq<char>, d: JavaDistribution, version: u8) -> Seq<char> {
    join_path(os, runtimes, distribution_name(d) + "_"@ + decimal(version as nat))
}

/// Appends the characters of `s` to `v`.
pub(crate) fn push_str(v: &mut Vec<char>, s: &str)
    ensures
        final(v)@ == old(v)@ + s@,
{
    let c = to_chars(s);
    extend_chars(v, c.as_slice());
}

/// Appends the decimal digits of `n` to `v`.
pub(crate) fn push_decimal(v: &mut Vec<char>, n: u8)
    ensures
        final(v)@ == old(v)@ + decimal(n as nat),
{
    let d = decimal_exec(n as u64);
    extend_chars(v, d.as_slice());
}

/// The installation directory of Java `version` of `distribution`.
pub fn build_runtime_path(os: OperatingSystem, runtimes_folder: &str, distribution: JavaDistribution, version: u8) -> (r: String)
    ensures
        r@ == runtime_path(os, runtimes_folder@, distribution, version),
{
    let mut leaf: Vec<char> = Vec::new();
    push_str(&mut leaf, distribution.get_name());
    push_str(&mut leaf, "_");
    push_decimal(&mut leaf, version);
    assert(leaf@ =~= distribution_name(distribution) + "_"@ + decimal(version as nat));
    let base = to_chars(runtimes_folder);
    let p = join_path_exec(os, base.as_slice(), leaf.as_slice());
    from_chars(p.as_slice())
}

/// The download URL of GraalVM (JDK only; Java 17 and later), from the
/// platform's GraalVM OS name, architecture name and archive extension.
pub open spec fn graalvm_url(version: u8, os_name: Seq<char>, arch: Seq<char>, archive_type: Seq<char>) -> Option<Seq<char>> {
    if version > 17 {
        Some(
            "https://download.oracle.com/graalvm/"@ + decimal(version as nat) + "/latest/graalvm-jdk-"@
                + decimal(version as nat) + "_"@ + os_name + "-"@ + arch + "_bin."@ + archive_type,
        )
    } else if version == 17 {
        Some(
            "https://download.oracle.com/graalvm/17/archive/graalvm-jdk-17.0.12_"@ + os_name + "-"@
                + arch + "_bin."@ + archive_type,
        )
    } else {
        None
    }
}

/// Builds the GraalVM download URL.
pub fn build_graalvm_url(version: u8, os_name: &str, arch: &str, archive_type: &str) -> (r: Result<String, DistributionError>)
    ensures
        match graalvm_url(version, os_name@, arch@, archive_type@) {
            Some(u) => r matches Ok(s) && s@ == u,
            None => r matches Err(DistributionError::UnsupportedVersion { version: v, distribution: d })
                && v == version && d@ == "GraalVM"@,
        },
{
    let mut u: Vec<char> = Vec::new();
    if version > 17 {
        push_str(&mut u, "https://download.oracle.com/graalvm/");
        push_decimal(&mut u, version);
        push_str(&mut u, "/latest/graalvm-jdk-");
        push_decimal(&mut u, version);
        push_str(&mut u, "_");
    } else if version == 17 {
        push_str(&mut u, "https://download.oracle.com/graalvm/17/archive/graalvm-jdk-17.0.12_");
    } else {
        return Err(DistributionError::UnsupportedVersion { version, distribution: String::from_str("GraalVM") });
    }
    push_str(&mut u, os_name);
    push_str(&mut u, "-");
    push_str(&mut u, arch);
    push_str(&mut u, "_bin.");
    push_str(&mut u, archive_type);
    assert(u@ =~= graalvm_url(version, os_name@, arch@, archive_type@).unwrap());
    Ok(from_chars(u.as_slice()))
}

/// The Azul metadata API query for the latest Zulu JRE package.
pub open spec fn zulu_api_url(version: u8, os_name: Seq<char>, arch: Seq<char>, ext: Seq<char>) -> Seq<char> {
    "https://api.azul.com/metadata/v1/zulu/packages?os="@ + os_name + "&arch="@ + arch
        + "&archive_type="@ + ext + "&java_package_type=jre&release_status=ga&java_version="@
        + decimal(version as nat) + "&latest=true"@
}

/// Builds the Azul metadata API query for Zulu.
pub fn build_zulu_api_url(version: u8, os_name: &str, arch: &str, ext: &str) -> (r: String)
    ensures
        r@ == zulu_api_url(version, os_name@, arch@, ext@),
{
    let mut u: Vec<char> = Vec::new();
    push_str(&mut u, "https://api.azul.com/metadata/v1/zulu/packages?os=");
    push_str(&mut u, os_name);
    push_str(&mut u, "&arch=");
    push_str(&mut u, arch);
    push_str(&mut u, "&archive_type=");
    push_str(&mut u, ext);
    push_str(&mut u, "&java_package_type=jre&release_status=ga&java_version=");
    push_decimal(&mut u, version);
    push_str(&mut u, "&latest=true");
    assert(u@ =~= zulu_api_url(version, os_name@, arch@, ext@));
    from_chars(u.as_slice())
}

/// The Foojay API query for the latest Liberica JRE package.
pub open spec fn liberica_api_url(version: u8, os_name: Seq<char>, arch: Seq<char>, ext: Seq<char>) -> Seq<char> {
    "https://api.foojay.io/disco/v3.0/packages?distro=liberica&version="@ + decimal(version as nat)
        + "&operating_system="@ + os_name + "&architecture="@ + arch + "&archive_type="@ + ext
        + "&package_type=jre&release_status=ga&latest=available"@
}

/// Builds the Foojay API query for Liberica.
pub fn build_liberica_api_url(version: u8, os_name: &str, arch: &str, ext: &str) -> (r: String)
    ensures
        r@ == liberica_api_url(version, os_name@, arch@, ext@),
{
    let mut u: Vec<char> = Vec::new();
    push_str(&mut u, "https://api.foojay.io/disco/v3.0/packages?distro=liberica&version=");
    push_decimal(&mut u, version);
    push_str(&mut u, "&operating_system=");
    push_str(&mut u, os_name);
    push_str(&mut u, "&architecture=");
    push_str(&mut u, arch);
    push_str(&mut u, "&archive_type=");
    push_str(&mut u, ext);
    push_str(&mut u, "&package_type=jre&release_status=ga&latest=available");
    assert(u@ =~= liberica_api_url(version, os_name@, arch@, ext@));
    from_chars(u.as_slice())
}

/// The download URL of the first (latest) package an API listed.
pub fn first_package_url(distribution: &str, package_urls: Vec<String>) -> (r: Result<String, DistributionError>)
    ensures
        package_urls@.len() > 0 ==> r == Ok::<String, DistributionError>(package_urls@[0]),
        package_urls@.len() == 0 ==> (r matches Err(DistributionError::NoPackagesFound { distribution: d })
            && d@ == distribution@),
{
    let mut package_urls = package_urls;
    if package_urls.len() == 0 {
        return Err(DistributionError::NoPackagesFound { distribution: String::from_str(distribution) });
    }
    Ok(package_urls.remove(0))
}

/// The distributions whose URLs are tried for a download, in order: the
/// distribution itself, then, for Temurin, Zulu and Liberica where they
/// provide the version.
pub open spec fn download_candidates(d: JavaDistribution, version: u8, os: OperatingSystem, arch: Architecture) -> Seq<JavaDistribution> {
    if d == JavaDistribution::Temurin {
        seq![d] + (if supports(JavaDistribution::Zulu, version, os, arch) {
            seq![JavaDistribution::Zulu]
        } else {
            seq![]
        }) + (if supports(JavaDistribution::Liberica, version, os, arch) {
            seq![JavaDistribution::Liberica]
        } else {
            seq![]
        })
    } else {
        seq![d]
    }
}

/// Lists the distributions whose URLs are tried for a download.
pub fn download_candidate_distributions(distribution: JavaDistribution, version: u8, os: OperatingSystem, arch: Architecture) -> (r: Vec<JavaDistribution>)
    ensures
        r@ == download_candidates(distribution, version, os, arch),
{
    let mut r = vec![distribution];
    if distribution == JavaDistribution::Temurin {
        if JavaDistribution::Zulu.supports_version(version, os, arch) {
            r.push(JavaDistribution::Zulu);
        }
        if JavaDistribution::Liberica.supports_version(version, os, arch) {
            r.push(JavaDistribution::Liberica);
        }
    }
    assert(r@ =~= download_candidates(distribution, version, os, arch));
    r
}

/// The kind of archive a runtime comes in.
#[derive(Debug, Clone, Copy, PartialEq, Eq, Structural)]
pub enum ArchiveKind {
    /// A ZIP archive
    Zip,
    /// A gzip-compressed tarball
    TarGz,
}

/// The archive kind of a runtime on `os`: ZIP on Windows, tar.gz on Linux
/// and macOS; no runtime for an unknown system.
pub fn runtime_archive_kind(os: OperatingSystem) -> (r: Result<ArchiveKind, JreError>)
    ensures
        os == OperatingSystem::WINDOWS ==> r == Ok::<ArchiveKind, JreError>(ArchiveKind::Zip),
        (os == OperatingSystem::LINUX || os == OperatingSystem::OSX) ==> r == Ok::<ArchiveKind, JreError>(ArchiveKind::TarGz),
        os == OperatingSystem::UNKNOWN ==> r matches Err(JreError::UnsupportedOS),
{
    match os {
        OperatingSystem::WINDOWS => Ok(ArchiveKind::Zip),
        OperatingSystem::LINUX | OperatingSystem::OSX => Ok(ArchiveKind::TarGz),
        OperatingSystem::UNKNOWN => Err(JreError::UnsupportedOS),
    }
}

/// A directory found in a runtime's installation directory.
pub struct JreDirEntry {
    /// Path of the directory
    pub path: String,
    /// Whether it holds `bin/java`, `bin/java.exe` or `Contents/Home/bin/java`
    pub looks_like_jre: bool,
}

/// The root of an extracted runtime: the first directory that looks like a
/// runtime, else the first directory.
pub open spec fn jre_root_index(entries: Seq<JreDirEntry>) -> Option<int> {
    match first_match(entries, |e: JreDirEntry| e.looks_like_jre) {
        Some(i) => Some(i),
        None => if entries.len() > 0 {
            Some(0)
        } else {
            None
        },
    }
}

/// Picks the root of an extracted runtime among its directories.
pub fn select_jre_root(entries: &[JreDirEntry]) -> (r: Option<usize>)
    ensures
        match r {
            Some(i) => jre_root_index(entries@) == Some(i as int),
            None => jre_root_index(entries@) is None,
        },
{
    let ghost pred = |e: JreDirEntry| e.looks_like_jre;
    let mut i: usize = 0;
    while i < entries.len()
        invariant
            i <= entries@.len(),
            pred == (|e: JreDirEntry| e.looks_like_jre),
            forall|k: int| 0 <= k < i ==> !pred(#[trigger] entries@[k]),
        decreases entries.len() - i,
    {
        if entries[i].looks_like_jre {
            proof {
                lemma_first_match_unique(entries@, pred, i as int);
            }
            return Some(i);
        }
        i += 1;
    }
    proof {
        lemma_first_match_none(entries@, pred);
    }
    if entries.len() > 0 {
        Some(0)
    } else {
        None
    }
}

/// Where the `java` binary lies under a runtime root: `bin/java.exe` on
/// Windows; on macOS `Contents/Home/bin/java` when that exists, else a
/// nested `*.jre` bundle's binary when one was found, else `bin/java`;
/// `bin/java` elsewhere.
pub open spec fn java_binary_path(
    os: OperatingSystem,
    root: Seq<char>,
    bundle_exists: bool,
    nested_bundle: Option<Seq<char>>,
) -> Seq<char> {
    if os == OperatingSystem::WINDOWS {
        join_path(os, join_path(os, root, "bin"@), "java.exe"@)
    } else if os == OperatingSystem::OSX {
        if bundle_exists {
            join_path(os, join_path(os, join_path(os, join_path(os, root, "Contents"@), "Home"@), "bin"@), "java"@)
        } else {
            match nested_bundle {
                Some(n) => n,
                None => join_path(os, join_path(os, root, "bin"@), "java"@),
            }
        }
    } else {
        join_path(os, join_path(os, root, "bin"@), "java"@)
    }
}

/// `base` joined with the literal component `child`.
fn join_lit(os: OperatingSystem, base: &Vec<char>, child: &str) -> (r: Vec<char>)
    ensures
        r@ == join_path(os, base@, child@),
{
    let c = to_chars(child);
    join_path_exec(os, base.as_slice(), c.as_slice())
}

/// Computes `java_binary_path`.
pub fn build_java_binary_path(
    os: OperatingSystem,
    jre_root: &str,
    bundle_exists: bool,
    nested_bundle: Option<String>,
) -> (r: String)
    ensures
        r@ == java_binary_path(
            os,
            jre_root@,
            bundle_exists,
            match nested_bundle {
                Some(n) => Some(n@),
                None => None,
            },
        ),
{
    let root = to_chars(jre_root);
    if os == OperatingSystem::WINDOWS {
        let b = join_lit(os, &root, "bin");
        let j = join_lit(os, &b, "java.exe");
        return from_chars(j.as_slice());
    }
    if os == OperatingSystem::OSX {
        if bundle_exists {
            let a = join_lit(os, &root, "Contents");
            let b = join_lit(os, &a, "Home");
            let c = join_lit(os, &b, "bin");
            let d = join_lit(os, &c, "java");
            return from_chars(d.as_slice());
        }
        match nested_bundle {
            Some(n) => {
                return n;
            },
            None => {},
        }
    }
    let b = join_lit(os, &root, "bin");
    let j = join_lit(os, &b, "java");
    from_chars(j.as_slice())
}

/// Whether a failed attempt (numbered from 1) is retried: only a
/// permission error, and only before the last attempt.
pub open spec fn retry_allowed(attempt: nat, max_attempts: nat, permission_denied: bool) -> bool {
    permission_denied && attempt < max_attempts
}

/// Decides whether a failed attempt is retried.
pub fn should_retry_attempt(attempt: usize, max_attempts: usize, permission_denied: bool) -> (r: bool)
    ensures
        r == retry_allowed(attempt as nat, max_attempts as nat, permission_denied),
{
    permission_denied && attempt < max_attempts
}

/// The distribution installed for a request always provides the requested
/// version on the platform; a fallback is offered exactly when the requested
/// distribution does not provide it, and it is another distribution.
pub proof fn lemma_effective_supported(d: JavaDistribution, version: u8, os: OperatingSystem, arch: Architecture)
    ensures
        supports(effective(d, version, os, arch), version, os, arch),
        fallback(d, version, os, arch) is None <==> supports(d, version, os, arch),
        fallback(d, version, os, arch) matches Some(f) ==> f != d,
{
}

/// A download first tries the requested distribution; every other candidate
/// provides the version.
pub proof fn lemma_download_candidates_start_with_request(
    d: JavaDistribution,
    version: u8,
    os: OperatingSystem,
    arch: Architecture,
)
    ensures
        download_candidates(d, version, os, arch).len() >= 1,
        download_candidates(d, version, os, arch)[0] == d,
        forall|k: int|
            1 <= k < download_candidates(d, version, os, arch).len() ==> supports(
                #[trigger] download_candidates(d, version, os, arch)[k],
                version,
                os,
                arch,
            ),
{
}

/// The permission bits to give a Java binary: none to change when any
/// execute bit is set, else `rwxr-xr-x` (0o755).
pub open spec fn executable_mode_for(mode: u32) -> Option<u32> {
    if mode & 0o111u32 == 0 {
        Some(0o755u32)
    } else {
        None
    }
}

/// Decides whether, and to what, a Java binary's permission bits change.
pub fn executable_mode_update(mode: u32) -> (r: Option<u32>)
    ensures
        r == executable_mode_for(mode),
{
    if mode & 0o111u32 == 0 {
        Some(0o755u32)
    } else {
        None
    }
}

/// An entry of a runtime root, as seen when looking for a nested `.jre`
/// bundle.
pub struct BundleEntry {
    /// Path of the entry
    pub path: String,
    /// Whether it is a directory
    pub is_dir: bool,
    /// Whether `<path>/Contents/Home/bin/java` exists
    pub java_exists: bool,
}

/// The nested bundle's binary: scanning the entries in order, the first
/// directory whose name ends with `.jre` and that holds
/// `Contents/Home/bin/java` gives that path; a directory without a file name
/// ends the search with nothing.
pub open spec fn nested_bundle_binary(os: OperatingSystem, entries: Seq<BundleEntry>) -> Option<Seq<char>>
    decreases entries.len(),
{
    if entries.len() == 0 {
        None
    } else {
        let e = entries[0];
        let rest = nested_bundle_binary(os, entries.drop_first());
        if !e.is_dir {
            rest
        } else {
            match file_name(os, e.path@) {
                None => None,
                Some(n) => if ends_with(n, ".jre"@) && e.java_exists {
                    Some(
                        join_path(
                            os,
                            join_path(os, join_path(os, join_path(os, e.path@, "Contents"@), "Home"@), "bin"@),
                            "java"@,
                        ),
                    )
                } else {
                    rest
                },
            }
        }
    }
}

/// Finds the binary of a nested `.jre` bundle among a runtime root's
/// entries.
pub fn find_nested_bundle(os: OperatingSystem, entries: &[BundleEntry]) -> (r: Option<String>)
    ensures
        match r {
            Some(p) => nested_bundle_binary(os, entries@) == Some(p@),
            None => nested_bundle_binary(os, entries@) is None,
        },
{
    let mut i: usize = 0;
    let suffix = to_chars(".jre");
    assert(entries@.subrange(0, entries@.len() as int) =~= entries@);
    while i < entries.len()
        invariant
            i <= entries@.len(),
            suffix@ == ".jre"@,
            nested_bundle_binary(os, entries@) == nested_bundle_binary(os, entries@.subrange(i as int, entries@.len() as int)),
        decreases entries.len() - i,
    {
        let ghost tail = entries@.subrange(i as int, entries@.len() as int);
        assert(tail.drop_first() =~= entries@.subrange(i + 1, entries@.len() as int));
        assert(tail[0] == entries@[i as int]);
        let e = &entries[i];
        if e.is_dir {
            let p = to_chars(e.path.as_str());
            match file_name_exec(os, p.as_slice()) {
                None => {
                    return None;
                },
                Some(n) => {
                    if ends_with_exec(n.as_slice(), suffix.as_slice()) && e.java_exists {
                        let a = join_lit(os, &p, "Contents");
                        let b = join_lit(os, &a, "Home");
                        let c = join_lit(os, &b, "bin");
                        let d = join_lit(os, &c, "java");
                        return Some(from_chars(d.as_slice()));
                    }
                },
            }
        }
        i += 1;
    }
    None
}

/// The size against which download progress is measured: the size the
/// current response announces, else the one announced before the download.
pub open spec fn progress_total(total: u64, expected: u64) -> u64 {
    if total > 0 {
        total
    } else {
        expected
    }
}

/// Picks the size against which download progress is measured.
pub fn effective_progress_total(total: u64, expected: u64) -> (r: u64)
    ensures
        r == progress_total(total, expected),
{
    if total > 0 {
        total
    } else {
        expected
    }
}

/// Which platforms each distribution serves: Temurin every Java version
/// except Java 8 on macOS for ARM64 (on macOS x64 it does serve Java 8),
/// GraalVM Java 17 and later, Zulu and Liberica everything.
pub proof fn lemma_support_table(version: u8, os: OperatingSystem, arch: Architecture)
    ensures
        supports(JavaDistribution::Temurin, version, os, arch) <==> !(version == 8 && os == OperatingSystem::OSX
            && arch == Architecture::AARCH64),
        supports(JavaDistribution::GraalVM, version, os, arch) <==> version >= 17,
        supports(JavaDistribution::Zulu, version, os, arch),
        supports(JavaDistribution::Liberica, version, os, arch),
        !(version == 8 && os == OperatingSystem::OSX && arch == Architecture::AARCH64) ==> fallback(
            JavaDistribution::Temurin,
            version,
            os,
            arch,
        ) is None && effective(JavaDistribution::Temurin, version, os, arch) == JavaDistribution::Temurin,
{
}

} // verus!
