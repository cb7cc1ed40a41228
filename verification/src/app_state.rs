//! The launcher's own directories and identity.
//!
//! `AppState::init` is called once at startup with the launcher name; the
//! data, config and cache directories are the operating system's bases with
//! that name joined on.

use vstd::prelude::*;
use vstd::string::StringExecFns;
use crate::system::{join_path, join_path_exec, OperatingSystem};
use crate::hash::{hex_digit, hex_lower};
use crate::text::{extend_chars, from_chars, to_chars, trim, trim_exec};

verus! {

/// Errors related to operating system and architecture detection.
#[derive(Debug)]
pub enum SystemError {
    /// The operating system is not supported
    UnsupportedOS,
    /// The architecture is not supported
    UnsupportedArchitecture,
    /// A filesystem error
    Io(std::io::Error),
}

/// Errors of the application state.
#[derive(Debug, PartialEq, Eq)]
pub enum AppStateError {
    /// The project directories could not be created
    ProjectDirsCreation,
    /// `AppState::init` has not been called
    NotInitialized,
    /// The platform has no base directory of this kind (`data`, `config` or
    /// `cache`)
    MissingPlatformDir(String),
    /// `AppState::init` was called a second time
    AlreadyInitialized,
}

/// Resolved per-launcher paths.
#[derive(Debug, Clone)]
pub struct LauncherPaths {
    /// The launcher name as given to `AppState::init`
    pub name: String,
    /// Persistent application data
    pub data_dir: String,
    /// User configuration
    pub config_dir: String,
    /// Disposable cache
    pub cache_dir: String,
}

/// The launcher's paths, set once.
pub struct AppState {
    paths: Option<LauncherPaths>,
}

/// The version of this library.
pub open spec fn spec_app_version() -> Seq<char> {
    "26.5.1"@
}

impl AppState {
    /// The paths, once `init` has succeeded.
    pub closed spec fn spec_paths(&self) -> Option<LauncherPaths> {
        self.paths
    }

    /// A state that has not been initialised.
    pub fn new() -> (r: Self)
        ensures
            r.spec_paths() is None,
    {
        AppState { paths: None }
    }

    /// Sets the launcher paths from the name and the platform's data,
    /// config and cache bases (`None` where the platform has none). A missing
    /// base is reported first, in the order data, config, cache; then a
    /// second initialisation is refused.
    pub fn init(
        &mut self,
        os: OperatingSystem,
        name: String,
        data_base: Option<String>,
        config_base: Option<String>,
        cache_base: Option<String>,
    ) -> (r: Result<(), AppStateError>)
        ensures
            data_base is None ==> (r matches Err(AppStateError::MissingPlatformDir(k)) && k@ == "data"@),
            data_base is Some && config_base is None ==> (r matches Err(AppStateError::MissingPlatformDir(k)) && k@ == "config"@),
            data_base is Some && config_base is Some && cache_base is None ==> (r matches Err(
                AppStateError::MissingPlatformDir(k),
            ) && k@ == "cache"@),
            data_base is Some && config_base is Some && cache_base is Some ==> {
                if old(self).spec_paths() is Some {
                    r == Err::<(), AppStateError>(AppStateError::AlreadyInitialized)
                } else {
                    r is Ok
                }
            },
            r is Ok ==> (final(self).spec_paths() matches Some(p) && p.name == name && p.data_dir@
                == join_path(os, data_base.unwrap()@, name@) && p.config_dir@ == join_path(
                os,
                config_base.unwrap()@,
                name@,
            ) && p.cache_dir@ == join_path(os, cache_base.unwrap()@, name@)),
            r is Err ==> final(self).spec_paths() == old(self).spec_paths(),
    {
        let n = to_chars(name.as_str());
        let data_dir = match data_base {
            Some(b) => {
                let bc = to_chars(b.as_str());
                from_chars(join_path_exec(os, bc.as_slice(), n.as_slice()).as_slice())
            },
            None => return Err(AppStateError::MissingPlatformDir(String::from_str("data"))),
        };
        let config_dir = match config_base {
            Some(b) => {
                let bc = to_chars(b.as_str());
                from_chars(join_path_exec(os, bc.as_slice(), n.as_slice()).as_slice())
            },
            None => return Err(AppStateError::MissingPlatformDir(String::from_str("config"))),
        };
        let cache_dir = match cache_base {
            Some(b) => {
                let bc = to_chars(b.as_str());
                from_chars(join_path_exec(os, bc.as_slice(), n.as_slice()).as_slice())
            },
            None => return Err(AppStateError::MissingPlatformDir(String::from_str("cache"))),
        };
        if self.paths.is_some() {
            return Err(AppStateError::AlreadyInitialized);
        }
        self.paths = Some(LauncherPaths { name, data_dir, config_dir, cache_dir });
        Ok(())
    }

    /// Whether `init` has succeeded.
    pub fn is_initialized(&self) -> (r: bool)
        ensures
            r == self.spec_paths() is Some,
    {
        self.paths.is_some()
    }

    /// The resolved launcher paths; `init` must have succeeded.
    pub fn paths(&self) -> (r: &LauncherPaths)
        requires
            self.spec_paths() is Some,
        ensures
            Some(*r) == self.spec_paths(),
    {
        match &self.paths {
            Some(p) => p,
            None => vstd::pervasive::unreached(),
        }
    }

    /// The launcher name given to `init`.
    pub fn name(&self) -> (r: &str)
        requires
            self.spec_paths() is Some,
        ensures
            r@ == self.spec_paths().unwrap().name@,
    {
        self.paths().name.as_str()
    }

    /// The persistent data directory.
    pub fn data_dir(&self) -> (r: &str)
        requires
            self.spec_paths() is Some,
        ensures
            r@ == self.spec_paths().unwrap().data_dir@,
    {
        self.paths().data_dir.as_str()
    }

    /// The user configuration directory.
    pub fn config_dir(&self) -> (r: &str)
        requires
            self.spec_paths() is Some,
        ensures
            r@ == self.spec_paths().unwrap().config_dir@,
    {
        self.paths().config_dir.as_str()
    }

    /// The disposable cache directory.
    pub fn cache_dir(&self) -> (r: &str)
        requires
            self.spec_paths() is Some,
        ensures
            r@ == self.spec_paths().unwrap().cache_dir@,
    {
        self.paths().cache_dir.as_str()
    }

    /// The version of this library.
    pub fn app_version() -> (r: &'static str)
        ensures
            r@ == spec_app_version(),
    {
        "26.5.1"
    }
}

/// The client id kept on disk, when the file holds one: its content with
/// surrounding whitespace removed, unless that is empty.
pub open spec fn stored_client_id_of(raw: Seq<char>) -> Option<Seq<char>> {
    if trim(raw).len() > 0 {
        Some(trim(raw))
    } else {
        None
    }
}

/// Reads the persisted client id from the content of its file.
pub fn stored_client_id(raw: &str) -> (r: Option<String>)
    ensures
        match r {
            Some(s) => stored_client_id_of(raw@) == Some(s@),
            None => stored_client_id_of(raw@) is None,
        },
{
    let c = to_chars(raw);
    let t = trim_exec(c.as_slice());
    if t.len() > 0 {
        Some(from_chars(t.as_slice()))
    } else {
        None
    }
}

/// The path of the client id file: `<config_dir>/client_id`.
pub fn client_id_path(os: OperatingSystem, config_dir: &str) -> (r: String)
    ensures
        r@ == join_path(os, config_dir@, "client_id"@),
{
    let b = to_chars(config_dir);
    let f = to_chars("client_id");
    from_chars(join_path_exec(os, b.as_slice(), f.as_slice()).as_slice())
}


/// The bytes of a version 4 UUID made from 16 random bytes: the high half
/// of byte 6 set to `4` (version), the top two bits of byte 8 set to `10`
/// (RFC 4122 variant).
pub open spec fn uuid_v4_bytes(b: Seq<u8>) -> Seq<u8> {
    b.update(6, (b[6] & 0x0f) | 0x40).update(8, (b[8] & 0x3f) | 0x80)
}

/// The text of a UUID: lowercase hex in groups of 8, 4, 4, 4 and 12 digits
/// separated by dashes.
pub open spec fn uuid_text(b: Seq<u8>) -> Seq<char> {
    hex_lower(b.subrange(0, 4)) + "-"@ + hex_lower(b.subrange(4, 6)) + "-"@ + hex_lower(
        b.subrange(6, 8),
    ) + "-"@ + hex_lower(b.subrange(8, 10)) + "-"@ + hex_lower(b.subrange(10, 16))
}

/// The lowercase hex digit of a value below 16.
fn hex_digit_exec(n: u8) -> (r: char)
    requires
        n < 16,
    ensures
        r == hex_digit(n as nat),
{
    if n < 10 {
        crate::text::decimal_exec(n as u64)[0]
    } else if n == 10 {
        'a'
    } else if n == 11 {
        'b'
    } else if n == 12 {
        'c'
    } else if n == 13 {
        'd'
    } else if n == 14 {
        'e'
    } else {
        'f'
    }
}

/// Appends the lowercase hex of `b[from..to]` to `out`.
fn push_hex(out: &mut Vec<char>, b: &[u8], from: usize, to: usize)
    requires
        from <= to <= b@.len(),
    ensures
        final(out)@ == old(out)@ + hex_lower(b@.subrange(from as int, to as int)),
{
    let mut i = from;
    assert(b@.subrange(from as int, from as int) =~= Seq::<u8>::empty());
    while i < to
        invariant
            from <= i <= to <= b@.len(),
            out@ == old(out)@ + hex_lower(b@.subrange(from as int, i as int)),
        decreases to - i,
    {
        let x = b[i];
        let ghost o = out@;
        out.push(hex_digit_exec(x / 16));
        out.push(hex_digit_exec(x % 16));
        proof {
            let t = b@.subrange(from as int, i + 1);
            assert(t.drop_last() =~= b@.subrange(from as int, i as int));
            assert(t.last() == x);
            assert(out@ =~= old(out)@ + hex_lower(t));
        }
        i += 1;
    }
}

/// Formats 16 bytes as a version 4 UUID string.
pub fn format_uuid_v4(bytes: [u8; 16]) -> (r: String)
    ensures
        r@ == uuid_text(uuid_v4_bytes(bytes@)),
{
    let mut b = bytes;
    let b6 = (b[6] & 0x0f) | 0x40;
    let b8 = (b[8] & 0x3f) | 0x80;
    b[6] = b6;
    b[8] = b8;
    assert(b@ =~= uuid_v4_bytes(bytes@));
    let mut out: Vec<char> = Vec::new();
    let dash = to_chars("-");
    push_hex(&mut out, &b, 0, 4);
    extend_chars(&mut out, dash.as_slice());
    push_hex(&mut out, &b, 4, 6);
    extend_chars(&mut out, dash.as_slice());
    push_hex(&mut out, &b, 6, 8);
    extend_chars(&mut out, dash.as_slice());
    push_hex(&mut out, &b, 8, 10);
    extend_chars(&mut out, dash.as_slice());
    push_hex(&mut out, &b, 10, 16);
    assert(out@ =~= uuid_text(uuid_v4_bytes(bytes@)));
    from_chars(out.as_slice())
}

/// A random byte (`fastrand::u8` over the full range, which never panics);
/// nothing is promised of its value.
#[verifier::external_body]
fn random_byte() -> (r: u8) {
    fastrand::u8(..)
}

/// Generates an RFC 4122 version 4 UUID string from random bytes.
pub fn generate_uuid_v4() -> (r: String)
    ensures
        exists|b: Seq<u8>| b.len() == 16 && r@ == uuid_text(uuid_v4_bytes(b)),
{
    let mut bytes = [0u8; 16];
    let mut i: usize = 0;
    while i < 16
        invariant
            i <= 16,
            bytes@.len() == 16,
        decreases 16 - i,
    {
        bytes[i] = random_byte();
        i += 1;
    }
    let r = format_uuid_v4(bytes);
    assert(bytes@.len() == 16 && r@ == uuid_text(uuid_v4_bytes(bytes@)));
    r
}

/// Byte `k` of `data` is written at positions `2k` (high half) and `2k + 1`
/// (low half) of its hex.
proof fn lemma_hex_lower_index(data: Seq<u8>, k: int)
    requires
        0 <= k < data.len(),
    ensures
        hex_lower(data).len() == 2 * data.len(),
        hex_lower(data)[2 * k] == hex_digit((data[k] / 16) as nat),
        hex_lower(data)[2 * k + 1] == hex_digit((data[k] % 16) as nat),
    decreases data.len(),
{
    crate::hash::lemma_hex_lower_len(data);
    crate::hash::lemma_hex_lower_len(data.drop_last());
    if k < data.len() - 1 {
        lemma_hex_lower_index(data.drop_last(), k);
    }
}

/// Every generated UUID has the RFC 4122 version 4 layout: 36 characters,
/// dashes at positions 8, 13, 18 and 23, the version digit `4` at position
/// 14 and a variant digit among `8`, `9`, `a`, `b` at position 19.
pub proof fn lemma_uuid_v4_layout(b: Seq<u8>)
    requires
        b.len() == 16,
    ensures
        uuid_text(uuid_v4_bytes(b)).len() == 36,
        uuid_text(uuid_v4_bytes(b))[8] == '-',
        uuid_text(uuid_v4_bytes(b))[13] == '-',
        uuid_text(uuid_v4_bytes(b))[18] == '-',
        uuid_text(uuid_v4_bytes(b))[23] == '-',
        uuid_text(uuid_v4_bytes(b))[14] == '4',
        uuid_text(uuid_v4_bytes(b))[19] == '8' || uuid_text(uuid_v4_bytes(b))[19] == '9'
            || uuid_text(uuid_v4_bytes(b))[19] == 'a' || uuid_text(uuid_v4_bytes(b))[19] == 'b',
{
    reveal_strlit("-");
    let u = uuid_v4_bytes(b);
    let x6 = b[6];
    let x8 = b[8];
    assert(((x6 & 0x0f) | 0x40) / 16 == 4) by (bit_vector);
    assert(8 <= ((x8 & 0x3f) | 0x80) / 16 <= 11) by (bit_vector);
    let p0 = u.subrange(0, 4);
    let p1 = u.subrange(4, 6);
    let p2 = u.subrange(6, 8);
    let p3 = u.subrange(8, 10);
    let p4 = u.subrange(10, 16);
    crate::hash::lemma_hex_lower_len(p0);
    crate::hash::lemma_hex_lower_len(p1);
    crate::hash::lemma_hex_lower_len(p2);
    crate::hash::lemma_hex_lower_len(p3);
    crate::hash::lemma_hex_lower_len(p4);
    lemma_hex_lower_index(p2, 0);
    lemma_hex_lower_index(p3, 0);
    assert(p2[0] == (x6 & 0x0f) | 0x40);
    assert(p3[0] == (x8 & 0x3f) | 0x80);
    let t = uuid_text(u);
    assert(t[14] == hex_lower(p2)[0]);
    assert(t[19] == hex_lower(p3)[0]);
}

} // verus!
