//! SHA1 hashing and verification of downloaded files.

use vstd::prelude::*;
use sha1::Digest;
use crate::text::{eq_ignore_ascii_case, eq_ignore_ascii_case_exec, to_chars};

verus! {

/// Errors of file hashing.
#[derive(Debug)]
pub enum HashError {
    /// The file could not be read
    Io(std::io::Error),
    /// The file's SHA1 is not the expected one
    Mismatch { expected: String, actual: String },
}

/// The SHA1 digest of `data` as the `sha1` crate computes it; a name for
/// the crate's result.
pub uninterp spec fn sha1_digest(data: Seq<u8>) -> Seq<u8>;

/// The lowercase hexadecimal digit of `n < 16`.
pub open spec fn hex_digit(n: nat) -> char {
    if n < 10 {
        crate::text::digit_char(n)
    } else if n == 10 {
        'a'
    } else if n == 11 {
        'b'
    } else if n == 12 {
        'c'
    } else if n == 13 {
        'd'
    } else if n == 14 {
        'e'
    } else {
        'f'
    }
}

/// Lowercase hexadecimal of `data`: two digits per byte, high half first.
pub open spec fn hex_lower(data: Seq<u8>) -> Seq<char>
    decreases data.len(),
{
    if data.len() == 0 {
        seq![]
    } else {
        hex_lower(data.drop_last()) + seq![
            hex_digit((data.last() / 16) as nat),
            hex_digit((data.last() % 16) as nat),
        ]
    }
}

/// Computes the SHA1 digest of `data` with the `sha1` crate
/// (`Sha1::digest`); the contract names the result and states its length,
/// 20 bytes.
#[verifier::external_body]
fn sha1_raw(data: &[u8]) -> (r: [u8; 20])
    ensures
        r@ == sha1_digest(data@),
        r@.len() == 20,
{
    sha1::Sha1::digest(data).into()
}

/// Encodes bytes as lowercase hexadecimal with `hex::encode`, which writes
/// each byte as two digits from `0123456789abcdef`, high half first.
#[verifier::external_body]
fn hex_encode(data: &[u8]) -> (r: String)
    ensures
        r@ == hex_lower(data@),
{
    hex::encode(data)
}

/// The SHA1 hash of `data` as a lowercase hex string.
pub fn calculate_sha1_bytes(data: &[u8]) -> (r: String)
    ensures
        r@ == hex_lower(sha1_digest(data@)),
{
    let raw = sha1_raw(data);
    hex_encode(&raw)
}

/// The SHA1 hash of `data` as raw bytes.
pub fn calculate_sha1_bytes_raw(data: &[u8]) -> (r: [u8; 20])
    ensures
        r@ == sha1_digest(data@),
        r@.len() == 20,
{
    sha1_raw(data)
}

/// Whether the content of a file has the expected SHA1, compared without
/// regard to the case of the hex letters.
pub open spec fn sha1_matches(content: Seq<u8>, expected: Seq<char>) -> bool {
    eq_ignore_ascii_case(hex_lower(sha1_digest(content)), expected)
}

/// Verifies the SHA1 of a file's content against an expected hash
/// (case-insensitive).
pub fn verify_file_sha1_sync(content: &[u8], expected_sha1: &str) -> (r: bool)
    ensures
        r == sha1_matches(content@, expected_sha1@),
{
    let calculated = calculate_sha1_bytes(content);
    let a = to_chars(calculated.as_str());
    let b = to_chars(expected_sha1);
    eq_ignore_ascii_case_exec(a.as_slice(), b.as_slice())
}

/// Whether a file must be (re)downloaded: it is missing, or a hash is
/// expected and the content does not have it.
pub open spec fn download_needed(content: Option<Seq<u8>>, sha1: Option<Seq<char>>) -> bool {
    match content {
        None => true,
        Some(c) => match sha1 {
            Some(h) => !sha1_matches(c, h),
            None => false,
        },
    }
}

/// Decides whether a file must be downloaded, from its content (`None` when
/// it does not exist) and its expected SHA1.
pub fn needs_download(content: Option<&[u8]>, sha1: Option<&str>) -> (r: bool)
    ensures
        r == download_needed(
            match content {
                Some(c) => Some(c@),
                None => None,
            },
            match sha1 {
                Some(h) => Some(h@),
                None => None,
            },
        ),
{
    match content {
        None => true,
        Some(c) => match sha1 {
            Some(h) => !verify_file_sha1_sync(c, h),
            None => false,
        },
    }
}

/// Lowercase hex has two digits per byte.
pub proof fn lemma_hex_lower_len(data: Seq<u8>)
    ensures
        hex_lower(data).len() == 2 * data.len(),
    decreases data.len(),
{
    if data.len() > 0 {
        lemma_hex_lower_len(data.drop_last());
    }
}

/// A file always verifies against the hash computed from it, and the hash
/// computed from a digest has 40 characters.
pub proof fn lemma_computed_hash_verifies(content: Seq<u8>)
    ensures
        sha1_matches(content, hex_lower(sha1_digest(content))),
        sha1_digest(content).len() == 20 ==> hex_lower(sha1_digest(content)).len() == 40,
{
    lemma_hex_lower_len(sha1_digest(content));
}

/// Verification ignores the case of the expected hash: two expected hashes
/// equal but for ASCII case give the same answer.
pub proof fn lemma_verification_ignores_case(content: Seq<u8>, expected: Seq<char>, other: Seq<char>)
    requires
        eq_ignore_ascii_case(expected, other),
    ensures
        sha1_matches(content, expected) == sha1_matches(content, other),
{
    let h = hex_lower(sha1_digest(content));
    if sha1_matches(content, expected) {
        assert forall|i: int| 0 <= i < h.len() implies crate::text::ascii_lower(h[i])
            == crate::text::ascii_lower(other[i]) by {
            assert(crate::text::ascii_lower(h[i]) == crate::text::ascii_lower(expected[i]));
            assert(crate::text::ascii_lower(expected[i]) == crate::text::ascii_lower(other[i]));
        }
    }
    if sha1_matches(content, other) {
        assert forall|i: int| 0 <= i < h.len() implies crate::text::ascii_lower(h[i])
            == crate::text::ascii_lower(expected[i]) by {
            assert(crate::text::ascii_lower(h[i]) == crate::text::ascii_lower(other[i]));
            assert(crate::text::ascii_lower(expected[i]) == crate::text::ascii_lower(other[i]));
        }
    }
}

} // verus!
