//! Installation bookkeeping: downloader settings, retry delays, where each
//! file goes, and which archive entries are native libraries.

use vstd::prelude::*;
use crate::system::{file_name, file_name_exec, join_path, join_path_exec, OperatingSystem};
use crate::text::{
    ascii_lower, extend_chars, from_chars, lemma_views_push, occurs_at_ignore_ascii_case,
    to_chars, trim, trim_exec, views,
};
use crate::version::{InstanceInfo, Library};

verus! {

/// Maximum number of concurrent downloads.
pub const MAX_CONCURRENT_DOWNLOADS: usize = 50;

/// Settings of the file downloader.
#[derive(Debug, Clone, Copy, PartialEq, Eq, Structural)]
pub struct DownloaderConfig {
    /// Maximum number of concurrent downloads
    pub max_concurrent_downloads: usize,
    /// Maximum number of attempts per file
    pub max_retries: u32,
    /// Delay before the first retry, in milliseconds; it doubles after each
    pub initial_delay_ms: u64,
}

/// The default settings: 50 concurrent downloads, 3 attempts, 20 ms.
pub open spec fn default_config() -> DownloaderConfig {
    DownloaderConfig { max_concurrent_downloads: 50, max_retries: 3, initial_delay_ms: 20 }
}

impl Default for DownloaderConfig {
    fn default() -> (r: Self)
        ensures
            r == default_config(),
    {
        DownloaderConfig { max_concurrent_downloads: 50, max_retries: 3, initial_delay_ms: 20 }
    }
}

/// The settings slot after an initialisation with `config`: settings set
/// before stay.
pub open spec fn config_after_init(slot: Option<DownloaderConfig>, config: DownloaderConfig) -> Option<DownloaderConfig> {
    match slot {
        Some(c) => Some(c),
        None => Some(config),
    }
}

/// The settings read from a slot: those set before, else the defaults.
pub open spec fn config_read(slot: Option<DownloaderConfig>) -> DownloaderConfig {
    match slot {
        Some(c) => c,
        None => default_config(),
    }
}

/// Sets the downloader settings, once: a slot that already holds settings
/// keeps them.
pub fn init_downloader_config(slot: &mut Option<DownloaderConfig>, config: DownloaderConfig)
    ensures
        *final(slot) == config_after_init(*old(slot), config),
{
    if slot.is_none() {
        *slot = Some(config);
    }
}

/// The downloader settings: those set before, else the defaults, which are
/// then kept.
pub fn get_config(slot: &mut Option<DownloaderConfig>) -> (r: DownloaderConfig)
    ensures
        r == config_read(*old(slot)),
        *final(slot) == Some(r),
{
    match *slot {
        Some(c) => c,
        None => {
            let c = DownloaderConfig::default();
            *slot = Some(c);
            c
        },
    }
}

/// `2^e`.
pub open spec fn pow2(e: nat) -> nat
    decreases e,
{
    if e == 0 {
        1
    } else {
        2 * pow2((e - 1) as nat)
    }
}

/// The delay before retrying after failed attempt `attempt` (numbered from
/// 1): the initial delay doubled `attempt - 1` times.
pub open spec fn retry_delay(initial_delay_ms: nat, attempt: nat) -> nat {
    initial_delay_ms * pow2((attempt - 1) as nat)
}

/// Computes the retry delay; the product must fit in a `u64`.
pub fn retry_delay_ms(initial_delay_ms: u64, attempt: u32) -> (r: u64)
    requires
        attempt >= 1,
        retry_delay(initial_delay_ms as nat, attempt as nat) <= u64::MAX,
    ensures
        r == retry_delay(initial_delay_ms as nat, attempt as nat),
{
    let mut d = initial_delay_ms;
    let mut k: u32 = 1;
    assert(pow2(0) == 1);
    assert(initial_delay_ms * pow2(0) == initial_delay_ms);
    assert(((k - 1) as nat) == 0);
    while k < attempt
        invariant
            1 <= k <= attempt,
            d == initial_delay_ms * pow2((k - 1) as nat),
            initial_delay_ms * pow2((attempt - 1) as nat) <= u64::MAX,
        decreases attempt - k,
    {
        proof {
            lemma_pow2_mono(k as nat, (attempt - 1) as nat);
            assert(pow2(k as nat) == 2 * pow2((k - 1) as nat));
            assert(initial_delay_ms * pow2(k as nat) == 2 * (initial_delay_ms * pow2((k - 1) as nat)))
                by (nonlinear_arith)
                requires
                    pow2(k as nat) == 2 * pow2((k - 1) as nat),
            ;
            assert(initial_delay_ms * pow2(k as nat) <= initial_delay_ms * pow2((attempt - 1) as nat))
                by (nonlinear_arith)
                requires
                    pow2(k as nat) <= pow2((attempt - 1) as nat),
            ;
        }
        d = d * 2;
        k += 1;
    }
    d
}

/// `2^a <= 2^b` when `a <= b`.
proof fn lemma_pow2_mono(a: nat, b: nat)
    requires
        a <= b,
    ensures
        pow2(a) <= pow2(b),
    decreases b - a,
{
    if a < b {
        lemma_pow2_mono(a, (b - 1) as nat);
    }
}

/// Whether a file name is a native library: it ends with `.dll`, `.so`,
/// `.dylib` or `.jnilib`, or contains `.so.`, ignoring ASCII case.
pub open spec fn is_native_name(name: Seq<char>) -> bool {
    ||| (name.len() >= 4 && occurs_at_ignore_ascii_case(name, ".dll"@, name.len() - 4))
    ||| (name.len() >= 3 && occurs_at_ignore_ascii_case(name, ".so"@, name.len() - 3))
    ||| (name.len() >= 6 && occurs_at_ignore_ascii_case(name, ".dylib"@, name.len() - 6))
    ||| (name.len() >= 7 && occurs_at_ignore_ascii_case(name, ".jnilib"@, name.len() - 7))
    ||| exists|i: int| occurs_at_ignore_ascii_case(name, ".so."@, i)
}

/// Decides `occurs_at_ignore_ascii_case(s, p, i)`.
fn occurs_ci_at(s: &[char], p: &[char], i: usize) -> (r: bool)
    ensures
        r == occurs_at_ignore_ascii_case(s@, p@, i as int),
{
    if p.len() > s.len() || i > s.len() - p.len() {
        return false;
    }
    let sub = crate::text::copy_range(s, i, i + p.len());
    crate::text::eq_ignore_ascii_case_exec(sub.as_slice(), p)
}

/// Checks whether a file name is a native library.
pub fn is_native_file(filename: &str) -> (r: bool)
    ensures
        r == is_native_name(filename@),
{
    let s = to_chars(filename);
    let dll = to_chars(".dll");
    let so = to_chars(".so");
    let dylib = to_chars(".dylib");
    let jnilib = to_chars(".jnilib");
    let sodot = to_chars(".so.");
    proof {
        reveal_strlit(".dll");
        reveal_strlit(".so");
        reveal_strlit(".dylib");
        reveal_strlit(".jnilib");
        reveal_strlit(".so.");
    }
    let n = s.len();
    if (n >= 4 && occurs_ci_at(s.as_slice(), dll.as_slice(), n - 4)) || (n >= 3 && occurs_ci_at(
        s.as_slice(),
        so.as_slice(),
        n - 3,
    )) || (n >= 6 && occurs_ci_at(s.as_slice(), dylib.as_slice(), n - 6)) || (n >= 7
        && occurs_ci_at(s.as_slice(), jnilib.as_slice(), n - 7)) {
        return true;
    }
    let mut i: usize = 0;
    while i < n
        invariant
            i <= n,
            n == s@.len(),
            s@ == filename@,
            sodot@ == ".so."@,
            sodot@.len() == 4,
            forall|j: int| 0 <= j < i ==> !occurs_at_ignore_ascii_case(s@, ".so."@, j),
        decreases n - i,
    {
        if occurs_ci_at(s.as_slice(), sodot.as_slice(), i) {
            return true;
        }
        i += 1;
    }
    assert forall|j: int| !occurs_at_ignore_ascii_case(s@, ".so."@, j) by {
        if j >= i {
            assert(j + 4 > s@.len());
        }
    }
    false
}

/// A file to fetch: where from, where to, its expected hash and a name for
/// messages.
pub struct DownloadTarget {
    /// Source URL
    pub url: String,
    /// Destination path
    pub path: String,
    /// Expected SHA1
    pub sha1: Option<String>,
    /// Name used in messages
    pub name: String,
}

/// An optional string by its view.
pub open spec fn opt_view(o: Option<String>) -> Option<Seq<char>> {
    match o {
        Some(s) => Some(s@),
        None => None,
    }
}

/// The target of an item that has both a URL and a path: its URL, the path
/// joined under `base`, its expected hash and its name.
pub open spec fn item_target(os: OperatingSystem, base: Seq<char>, l: Library) -> Option<
    (Seq<char>, Seq<char>, Option<Seq<char>>, Seq<char>),
> {
    match (l.url, l.path) {
        (Some(u), Some(p)) => Some((u@, join_path(os, base, p@), opt_view(l.sha1), l.name@)),
        _ => None,
    }
}

/// The targets of the items that have a URL and a path, in order.
pub open spec fn download_targets_of(os: OperatingSystem, base: Seq<char>, items: Seq<Library>) -> Seq<
    (Seq<char>, Seq<char>, Option<Seq<char>>, Seq<char>),
> {
    items.filter_map(|l: Library| item_target(os, base, l))
}

/// A target list by its views.
pub open spec fn target_views(v: Seq<DownloadTarget>) -> Seq<(Seq<char>, Seq<char>, Option<Seq<char>>, Seq<char>)> {
    v.map_values(|t: DownloadTarget| (t.url@, t.path@, opt_view(t.sha1), t.name@))
}

/// Lists where each library, native or mod that has a URL and a path goes,
/// under `base_dir` (the instance's `libraries` or `mods` directory).
pub fn download_targets(os: OperatingSystem, base_dir: &str, items: &[Library]) -> (r: Vec<DownloadTarget>)
    ensures
        target_views(r@) == download_targets_of(os, base_dir@, items@),
{
    let base = to_chars(base_dir);
    let ghost f = |l: Library| item_target(os, base_dir@, l);
    let mut r: Vec<DownloadTarget> = Vec::new();
    let mut i: usize = 0;
    while i < items.len()
        invariant
            i <= items@.len(),
            base@ == base_dir@,
            f == (|l: Library| item_target(os, base_dir@, l)),
            target_views(r@) == items@.subrange(0, i as int).filter_map(f),
        decreases items.len() - i,
    {
        proof {
            assert(items@.subrange(0, i + 1).drop_last() =~= items@.subrange(0, i as int));
            assert(items@.subrange(0, i + 1).last() == items@[i as int]);
        }
        let item = &items[i];
        match (&item.url, &item.path) {
            (Some(u), Some(p)) => {
                let pc = to_chars(p.as_str());
                let dest = join_path_exec(os, base.as_slice(), pc.as_slice());
                let t = DownloadTarget {
                    url: u.clone(),
                    path: from_chars(dest.as_slice()),
                    sha1: item.sha1.clone(),
                    name: item.name.clone(),
                };
                let ghost r0 = r@;
                r.push(t);
                assert(target_views(r@) =~= target_views(r0) + seq![(u@, dest@, opt_view(item.sha1), item.name@)]);
            },
            _ => {},
        }
        i += 1;
    }
    assert(items@.subrange(0, items@.len() as int) =~= items@);
    r
}

/// The client JAR of an instance: `<game_dir>/<name>.jar`.
pub open spec fn client_jar_path_of(os: OperatingSystem, inst: InstanceInfo) -> Seq<char> {
    join_path(os, inst.game_dir@, inst.name@ + ".jar"@)
}

/// Builds the client JAR path.
pub fn client_jar_path(os: OperatingSystem, instance: &InstanceInfo) -> (r: String)
    ensures
        r@ == client_jar_path_of(os, *instance),
{
    let g = to_chars(instance.game_dir.as_str());
    let mut j = to_chars(instance.name.as_str());
    let ext = to_chars(".jar");
    extend_chars(&mut j, ext.as_slice());
    from_chars(join_path_exec(os, g.as_slice(), j.as_slice()).as_slice())
}

/// The number of UTF-8 bytes of a character.
pub open spec fn utf8_width(c: char) -> nat {
    if (c as u32) < 0x80 {
        1
    } else if (c as u32) < 0x800 {
        2
    } else if (c as u32) < 0x10000 {
        3
    } else {
        4
    }
}

/// How many characters make up the first two UTF-8 bytes of a hash: two
/// one-byte characters, or one two-byte character; `None` when byte 2 is
/// not a character boundary (or the hash is shorter than two bytes).
pub open spec fn hash_cut(hash: Seq<char>) -> Option<int> {
    if hash.len() >= 1 && utf8_width(hash[0]) == 2 {
        Some(1)
    } else if hash.len() >= 2 && utf8_width(hash[0]) == 1 && utf8_width(hash[1]) == 1 {
        Some(2)
    } else {
        None
    }
}

/// Whether a hash can be cut after its second byte, where the object's
/// directory name ends.
pub open spec fn hash_cuttable(hash: Seq<char>) -> bool {
    hash_cut(hash) is Some
}

/// Computes `hash_cut`, so that a caller can refuse a hash that cannot be
/// cut after its second byte.
pub fn hash_cut_chars(hash: &str) -> (r: Option<usize>)
    ensures
        match r {
            Some(n) => hash_cut(hash@) == Some(n as int),
            None => hash_cut(hash@) is None,
        },
{
    let h = to_chars(hash);
    if h.len() >= 1 && (h[0] as u32) >= 0x80 && (h[0] as u32) < 0x800 {
        Some(1)
    } else if h.len() >= 2 && (h[0] as u32) < 0x80 && (h[1] as u32) < 0x80 {
        Some(2)
    } else {
        None
    }
}

/// Where an asset object goes: `<game_dir>/assets/objects/<first two bytes
/// of the hash>/<hash>`.
pub open spec fn asset_object_path_of(os: OperatingSystem, game_dir: Seq<char>, hash: Seq<char>) -> Seq<char> {
    let objects = join_path(os, join_path(os, game_dir, "assets"@), "objects"@);
    join_path(os, join_path(os, objects, hash.subrange(0, hash_cut(hash).unwrap())), hash)
}

/// Builds the path of an asset object. The hash is cut after its second
/// byte, which must end a character.
pub fn asset_object_path(os: OperatingSystem, game_dir: &str, hash: &str) -> (r: String)
    requires
        hash_cuttable(hash@),
    ensures
        r@ == asset_object_path_of(os, game_dir@, hash@),
{
    let g = to_chars(game_dir);
    let h = to_chars(hash);
    let assets = to_chars("assets");
    let objects = to_chars("objects");
    let a = join_path_exec(os, g.as_slice(), assets.as_slice());
    let o = join_path_exec(os, a.as_slice(), objects.as_slice());
    let cut = match hash_cut_chars(hash) {
        Some(n) => n,
        None => 0,
    };
    let prefix = crate::text::copy_range(h.as_slice(), 0, cut);
    let d = join_path_exec(os, o.as_slice(), prefix.as_slice());
    from_chars(join_path_exec(os, d.as_slice(), h.as_slice()).as_slice())
}

/// The marker recording the installer whose processors last ran:
/// `<game_dir>/<dot_dir>/processors-<minecraft>-<loader>.sha1`.
pub open spec fn processors_marker_path_of(os: OperatingSystem, inst: InstanceInfo, dot_dir: Seq<char>) -> Seq<char> {
    join_path(
        os,
        join_path(os, inst.game_dir@, dot_dir),
        "processors-"@ + inst.minecraft_version@ + "-"@ + inst.loader_version@ + ".sha1"@,
    )
}

/// Builds the path of the processors marker.
pub fn processors_marker_path(os: OperatingSystem, instance: &InstanceInfo, dot_dir: &str) -> (r: String)
    ensures
        r@ == processors_marker_path_of(os, *instance, dot_dir@),
{
    let g = to_chars(instance.game_dir.as_str());
    let d = to_chars(dot_dir);
    let dir = join_path_exec(os, g.as_slice(), d.as_slice());
    let mut leaf = to_chars("processors-");
    let mc = to_chars(instance.minecraft_version.as_str());
    extend_chars(&mut leaf, mc.as_slice());
    let dash = to_chars("-");
    extend_chars(&mut leaf, dash.as_slice());
    let lv = to_chars(instance.loader_version.as_str());
    extend_chars(&mut leaf, lv.as_slice());
    let ext = to_chars(".sha1");
    extend_chars(&mut leaf, ext.as_slice());
    assert(leaf@ =~= "processors-"@ + instance.minecraft_version@ + "-"@ + instance.loader_version@
        + ".sha1"@);
    from_chars(join_path_exec(os, dir.as_slice(), leaf.as_slice()).as_slice())
}

/// The processors already ran for this installer: its SHA1 is known and the
/// marker holds it (surrounding whitespace aside).
pub open spec fn processors_done(marker: Option<Seq<char>>, installer_sha1: Option<Seq<char>>) -> bool {
    match (marker, installer_sha1) {
        (Some(m), Some(h)) => trim(m) == h,
        _ => false,
    }
}

/// Decides whether the install processors can be skipped, from the marker
/// file's content and the installer's published SHA1.
pub fn processors_up_to_date(marker: Option<&str>, installer_sha1: Option<&str>) -> (r: bool)
    ensures
        r == processors_done(
            match marker {
                Some(m) => Some(m@),
                None => None,
            },
            match installer_sha1 {
                Some(h) => Some(h@),
                None => None,
            },
        ),
{
    match (marker, installer_sha1) {
        (Some(m), Some(h)) => {
            let mc = to_chars(m);
            let t = trim_exec(mc.as_slice());
            let hc = to_chars(h);
            crate::text::chars_eq(t.as_slice(), hc.as_slice())
        },
        _ => false,
    }
}

/// The downloader settings are set once: the first initialisation decides
/// what every later read gives, a later one changes nothing, and a read
/// before any initialisation fixes the defaults.
pub proof fn lemma_config_set_once(slot: Option<DownloaderConfig>, first: DownloaderConfig, second: DownloaderConfig)
    ensures
        config_after_init(config_after_init(slot, first), second) == config_after_init(slot, first),
        slot is None ==> config_read(config_after_init(slot, first)) == first,
        config_after_init(Some(config_read(slot)), first) == Some(config_read(slot)),
        slot is None ==> config_read(slot) == default_config(),
{
}

/// Each retry waits twice as long as the one before.
pub proof fn lemma_retry_delay_doubles(initial_delay_ms: nat, attempt: nat)
    requires
        attempt >= 1,
    ensures
        retry_delay(initial_delay_ms, attempt + 1) == 2 * retry_delay(initial_delay_ms, attempt),
        retry_delay(initial_delay_ms, 1) == initial_delay_ms,
{
    assert(pow2(attempt) == 2 * pow2((attempt - 1) as nat));
    assert(initial_delay_ms * pow2(attempt) == 2 * (initial_delay_ms * pow2((attempt - 1) as nat)))
        by (nonlinear_arith)
        requires
            pow2(attempt) == 2 * pow2((attempt - 1) as nat),
    ;
    assert(pow2(0) == 1);
    assert(((1 - 1) as nat) == 0);
    assert(initial_delay_ms * 1 == initial_delay_ms);
    assert(retry_delay(initial_delay_ms, 1) == initial_delay_ms * pow2(0));
}

/// Where a native library entry of a JAR is extracted: the natives
/// directory joined with the entry's file name (nothing joined when the entry
/// has none); entries that are not native libraries are skipped.
pub open spec fn native_destination_of(os: OperatingSystem, natives_dir: Seq<char>, entry: Seq<char>) -> Option<Seq<char>> {
    if is_native_name(entry) {
        Some(
            join_path(
                os,
                natives_dir,
                match file_name(os, entry) {
                    Some(n) => n,
                    None => Seq::<char>::empty(),
                },
            ),
        )
    } else {
        None
    }
}

/// Decides where a JAR entry is extracted, if it is a native library.
pub fn native_destination(os: OperatingSystem, natives_dir: &str, entry_name: &str) -> (r: Option<String>)
    ensures
        match r {
            Some(d) => native_destination_of(os, natives_dir@, entry_name@) == Some(d@),
            None => native_destination_of(os, natives_dir@, entry_name@) is None,
        },
{
    if !is_native_file(entry_name) {
        return None;
    }
    let e = to_chars(entry_name);
    let n = match file_name_exec(os, e.as_slice()) {
        Some(n) => n,
        None => Vec::new(),
    };
    let d = to_chars(natives_dir);
    Some(from_chars(join_path_exec(os, d.as_slice(), n.as_slice()).as_slice()))
}

/// Attempts made for one file by the installer's downloads.
pub const FILE_DOWNLOAD_ATTEMPTS: u32 = 3;

/// Delay before the first retry of a file, in milliseconds.
pub const FILE_RETRY_INITIAL_DELAY_MS: u64 = 20;

/// After failed attempt `attempt` (from 1) of a file download: the wait
/// before the next attempt, or nothing once the attempts are used up.
pub open spec fn file_retry_wait(attempt: nat) -> Option<nat> {
    if attempt < FILE_DOWNLOAD_ATTEMPTS {
        Some(retry_delay(FILE_RETRY_INITIAL_DELAY_MS as nat, attempt))
    } else {
        None
    }
}

/// Decides whether a failed file download is retried, and after how long.
pub fn file_retry_after_failure(attempt: u32) -> (r: Option<u64>)
    requires
        attempt >= 1,
    ensures
        match r {
            Some(ms) => file_retry_wait(attempt as nat) == Some(ms as nat),
            None => file_retry_wait(attempt as nat) is None,
        },
{
    if attempt < FILE_DOWNLOAD_ATTEMPTS {
        proof {
            lemma_pow2_mono((attempt - 1) as nat, 1);
            assert(pow2(1) == 2) by {
                assert(pow2(0) == 1);
            }
            assert(20 * pow2((attempt - 1) as nat) <= 40) by (nonlinear_arith)
                requires
                    pow2((attempt - 1) as nat) <= 2,
            ;
        }
        Some(retry_delay_ms(FILE_RETRY_INITIAL_DELAY_MS, attempt))
    } else {
        None
    }
}

/// Declares the `zip` crate's error type.
#[verifier::external_type_specification]
#[verifier::external_body]
pub struct ExZipError(zip::result::ZipError);

/// The number of entries the `zip` crate reads in an archive; `None` when it
/// cannot open it. A name for the crate's result.
pub uninterp spec fn zip_count(data: Seq<u8>) -> Option<nat>;

/// The name of entry `index` as the `zip` crate decodes it; `None` when it
/// cannot. A name for the crate's result.
pub uninterp spec fn zip_name(data: Seq<u8>, index: nat) -> Option<Seq<char>>;

/// The uncompressed content of entry `index` as the `zip` crate reads it;
/// `None` when it cannot. A name for the crate's result.
pub uninterp spec fn zip_content(data: Seq<u8>, index: nat) -> Option<Seq<u8>>;

/// Opens an archive held in memory with `zip::ZipArchive::new` and returns
/// its number of entries (`ZipArchive::len`); the contract names the result.
#[verifier::external_body]
fn zip_entry_count(data: &[u8]) -> (r: Result<usize, zip::result::ZipError>)
    ensures
        match r {
            Ok(n) => zip_count(data@) == Some(n as nat),
            Err(_) => zip_count(data@) is None,
        },
{
    Ok(zip::ZipArchive::new(std::io::Cursor::new(data))?.len())
}

/// The name of entry `index` (`ZipArchive::by_index`, then `ZipFile::name`);
/// the contract names the result.
#[verifier::external_body]
fn zip_entry_name(data: &[u8], index: usize) -> (r: Result<String, zip::result::ZipError>)
    ensures
        match r {
            Ok(s) => zip_name(data@, index as nat) == Some(s@),
            Err(_) => zip_name(data@, index as nat) is None,
        },
{
    let mut archive = zip::ZipArchive::new(std::io::Cursor::new(data))?;
    let entry = archive.by_index(index)?;
    Ok(entry.name()?.to_string())
}

/// The uncompressed content of entry `index` (`ZipArchive::by_index`, read
/// to its end); the contract names the result.
#[verifier::external_body]
fn zip_entry_content(data: &[u8], index: usize) -> (r: Result<Vec<u8>, zip::result::ZipError>)
    ensures
        match r {
            Ok(v) => zip_content(data@, index as nat) == Some(v@),
            Err(_) => zip_content(data@, index as nat) is None,
        },
{
    let mut archive = zip::ZipArchive::new(std::io::Cursor::new(data))?;
    let mut entry = archive.by_index(index)?;
    let mut out = Vec::new();
    std::io::Read::read_to_end(&mut entry, &mut out)?;
    Ok(out)
}

/// The native libraries of a JAR from entry `i` on, in entry order: for
/// each native entry its destination under `natives_dir` and its content;
/// `None` as soon as an entry's name, or a native entry's content, cannot
/// be read.
pub open spec fn natives_from(
    os: OperatingSystem,
    natives_dir: Seq<char>,
    data: Seq<u8>,
    i: nat,
    n: nat,
) -> Option<Seq<(Seq<char>, Seq<u8>)>>
    decreases n - i,
{
    if i >= n {
        Some(seq![])
    } else {
        match zip_name(data, i) {
            None => None,
            Some(name) => match native_destination_of(os, natives_dir, name) {
                None => natives_from(os, natives_dir, data, i + 1, n),
                Some(dest) => match zip_content(data, i) {
                    None => None,
                    Some(bytes) => match natives_from(os, natives_dir, data, i + 1, n) {
                        None => None,
                        Some(rest) => Some(seq![(dest, bytes)] + rest),
                    },
                },
            },
        }
    }
}

/// A list of files to write, by its views.
pub open spec fn file_views(v: Seq<(String, Vec<u8>)>) -> Seq<(Seq<char>, Seq<u8>)> {
    v.map_values(|f: (String, Vec<u8>)| (f.0@, f.1@))
}

/// The files to extract from a native JAR: each native library entry's
/// destination and content, in entry order; an archive or entry the `zip`
/// crate cannot read fails the whole extraction.
pub fn native_extractions(os: OperatingSystem, natives_dir: &str, jar: &[u8]) -> (r: Result<
    Vec<(String, Vec<u8>)>,
    zip::result::ZipError,
>)
    ensures
        match zip_count(jar@) {
            None => r is Err,
            Some(n) => match natives_from(os, natives_dir@, jar@, 0, n) {
                None => r is Err,
                Some(files) => r matches Ok(v) && file_views(v@) == files,
            },
        },
{
    let n = zip_entry_count(jar)?;
    let ghost total = n as nat;
    let mut out: Vec<(String, Vec<u8>)> = Vec::new();
    let mut i: usize = 0;
    while i < n
        invariant
            i <= n,
            zip_count(jar@) == Some(total),
            total == n as nat,
            natives_from(os, natives_dir@, jar@, 0, total) == match natives_from(
                os,
                natives_dir@,
                jar@,
                i as nat,
                total,
            ) {
                None => None,
                Some(rest) => Some(file_views(out@) + rest),
            },
        decreases n - i,
    {
        let name = zip_entry_name(jar, i)?;
        match native_destination(os, natives_dir, name.as_str()) {
            None => {},
            Some(dest) => {
                let bytes = zip_entry_content(jar, i)?;
                let ghost before = file_views(out@);
                out.push((dest, bytes));
                proof {
                    assert(file_views(out@) =~= before.push((dest@, bytes@)));
                    match natives_from(os, natives_dir@, jar@, (i + 1) as nat, total) {
                        None => {},
                        Some(rest) => {
                            assert(before + (seq![(dest@, bytes@)] + rest) =~= before.push((dest@, bytes@)) + rest);
                        },
                    }
                }
            },
        }
        i += 1;
    }
    proof {
        assert(file_views(out@) + Seq::<(Seq<char>, Seq<u8>)>::empty() =~= file_views(out@));
    }
    Ok(out)
}

/// An object of an asset index: its hash (also its name and expected SHA1)
/// and its download URL.
pub struct AssetObject {
    /// SHA1 of the object
    pub hash: String,
    /// Download URL
    pub url: Option<String>,
}

/// The target of an asset object that has a URL: under
/// `<game_dir>/assets/objects/<first two characters>/<hash>`, checked
/// against its hash and named by it.
pub open spec fn asset_target(os: OperatingSystem, game_dir: Seq<char>, a: AssetObject) -> Option<
    (Seq<char>, Seq<char>, Option<Seq<char>>, Seq<char>),
> {
    match a.url {
        Some(u) => Some((u@, asset_object_path_of(os, game_dir, a.hash@), Some(a.hash@), a.hash@)),
        None => None,
    }
}

/// Lists where each asset object that has a URL goes, in order.
pub fn asset_download_targets(os: OperatingSystem, game_dir: &str, assets: &[AssetObject]) -> (r: Vec<DownloadTarget>)
    requires
        forall|i: int| 0 <= i < assets@.len() && (#[trigger] assets@[i]).url is Some ==> hash_cuttable(assets@[i].hash@),
    ensures
        target_views(r@) == assets@.filter_map(|a: AssetObject| asset_target(os, game_dir@, a)),
{
    let ghost f = |a: AssetObject| asset_target(os, game_dir@, a);
    let mut r: Vec<DownloadTarget> = Vec::new();
    let mut i: usize = 0;
    while i < assets.len()
        invariant
            i <= assets@.len(),
            f == (|a: AssetObject| asset_target(os, game_dir@, a)),
            forall|j: int| 0 <= j < assets@.len() && (#[trigger] assets@[j]).url is Some ==> hash_cuttable(assets@[j].hash@),
            target_views(r@) == assets@.subrange(0, i as int).filter_map(f),
        decreases assets.len() - i,
    {
        proof {
            assert(assets@.subrange(0, i + 1).drop_last() =~= assets@.subrange(0, i as int));
            assert(assets@.subrange(0, i + 1).last() == assets@[i as int]);
        }
        let a = &assets[i];
        match &a.url {
            Some(u) => {
                let path = asset_object_path(os, game_dir, a.hash.as_str());
                let t = DownloadTarget {
                    url: u.clone(),
                    path,
                    sha1: Some(a.hash.clone()),
                    name: a.hash.clone(),
                };
                let ghost r0 = r@;
                r.push(t);
                assert(target_views(r@) =~= target_views(r0) + seq![
                    (u@, asset_object_path_of(os, game_dir@, a.hash@), Some(a.hash@), a.hash@),
                ]);
            },
            None => {},
        }
        i += 1;
    }
    assert(assets@.subrange(0, assets@.len() as int) =~= assets@);
    r
}

/// The client JAR's target: none without a URL; otherwise
/// `<game_dir>/<name>.jar`, checked against its SHA1.
pub fn client_download_target(os: OperatingSystem, instance: &InstanceInfo, url: Option<String>, sha1: Option<String>) -> (r: Option<DownloadTarget>)
    ensures
        url is None <==> r is None,
        r matches Some(t) ==> (t.url@ == url.unwrap()@ && t.path@ == client_jar_path_of(os, *instance)
            && opt_view(t.sha1) == opt_view(sha1) && t.name@ == "Client JAR"@),
{
    match url {
        Some(u) => Some(DownloadTarget {
            url: u,
            path: client_jar_path(os, instance),
            sha1,
            name: from_chars(to_chars("Client JAR").as_slice()),
        }),
        None => None,
    }
}

/// The URLs and destinations of the targets whose file must be fetched, in
/// order; `needed[k]` says whether target `k` is missing or stale.
pub open spec fn pending_of(targets: Seq<DownloadTarget>, needed: Seq<bool>) -> Seq<(Seq<char>, Seq<char>)>
    decreases targets.len(),
{
    if targets.len() == 0 || needed.len() != targets.len() {
        seq![]
    } else {
        let rest = pending_of(targets.drop_last(), needed.drop_last());
        if needed.last() {
            rest.push((targets.last().url@, targets.last().path@))
        } else {
            rest
        }
    }
}

/// A task list by its views.
pub open spec fn task_views(v: Seq<(String, String)>) -> Seq<(Seq<char>, Seq<char>)> {
    v.map_values(|t: (String, String)| (t.0@, t.1@))
}

/// Collects the download tasks (URL and destination) of the targets whose
/// file must be fetched.
pub fn pending_downloads(targets: &[DownloadTarget], needed: &[bool]) -> (r: Vec<(String, String)>)
    requires
        targets@.len() == needed@.len(),
    ensures
        task_views(r@) == pending_of(targets@, needed@),
{
    let mut r: Vec<(String, String)> = Vec::new();
    let mut i: usize = 0;
    while i < targets.len()
        invariant
            i <= targets@.len(),
            targets@.len() == needed@.len(),
            task_views(r@) == pending_of(targets@.subrange(0, i as int), needed@.subrange(0, i as int)),
        decreases targets.len() - i,
    {
        proof {
            assert(targets@.subrange(0, i + 1).drop_last() =~= targets@.subrange(0, i as int));
            assert(needed@.subrange(0, i + 1).drop_last() =~= needed@.subrange(0, i as int));
            assert(targets@.subrange(0, i + 1).last() == targets@[i as int]);
            assert(needed@.subrange(0, i + 1).last() == needed@[i as int]);
        }
        if needed[i] {
            let t = &targets[i];
            let ghost r0 = task_views(r@);
            r.push((t.url.clone(), t.path.clone()));
            assert(task_views(r@) =~= r0.push((t.url@, t.path@)));
        }
        i += 1;
    }
    assert(targets@.subrange(0, targets@.len() as int) =~= targets@);
    assert(needed@.subrange(0, needed@.len() as int) =~= needed@);
    r
}

} // verus!
