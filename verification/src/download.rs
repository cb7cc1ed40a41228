//! Download bookkeeping: the order in which mirrors and HTTP clients are
//! tried, and the progress figures reported while a body streams in.

use vstd::prelude::*;
use crate::text::{eq_ignore_ascii_case, eq_ignore_ascii_case_exec, to_chars};

verus! {

/// The HTTP client an attempt uses.
#[derive(Debug, Clone, Copy, PartialEq, Eq, Structural)]
pub enum HttpClientKind {
    /// The shared client, with automatic decompression
    Standard,
    /// A client without automatic decompression
    Raw,
    /// The client that goes through the Cloudflare proxy
    Proxy,
}

/// What to do next while downloading.
#[derive(Debug, Clone, Copy, PartialEq, Eq, Structural)]
pub enum DownloadStep {
    /// Request candidate URL number `candidate` with `client`
    Try { candidate: usize, client: HttpClientKind },
    /// Every attempt failed
    Exhausted,
}

/// Where a download stands: how many candidate URLs there are, whether the
/// proxy round has begun, which candidate is being tried, and whether its
/// raw retry was made.
#[derive(Debug, Clone, Copy, PartialEq, Eq, Structural)]
pub struct DownloadAttempts {
    pub candidates: usize,
    pub proxy_round: bool,
    pub index: usize,
    pub raw_retry: bool,
}

/// Attempts left in the worst case: at most two per candidate and round.
pub open spec fn attempts_left(s: DownloadAttempts) -> int {
    let in_round = 2 * (s.candidates - s.index) - (if s.raw_retry { 1int } else { 0int });
    if s.proxy_round {
        in_round
    } else {
        in_round + 2 * s.candidates
    }
}

/// The first step of a download over `candidates` URLs: the first URL with
/// the standard client, or nothing to try.
pub fn start_download(candidates: usize) -> (r: (DownloadAttempts, DownloadStep))
    ensures
        r.0 == (DownloadAttempts { candidates, proxy_round: false, index: 0, raw_retry: false }),
        candidates > 0 ==> r.1 == (DownloadStep::Try { candidate: 0, client: HttpClientKind::Standard }),
        candidates == 0 ==> r.1 == DownloadStep::Exhausted,
{
    let s = DownloadAttempts { candidates, proxy_round: false, index: 0, raw_retry: false };
    if candidates > 0 {
        (s, DownloadStep::Try { candidate: 0, client: HttpClientKind::Standard })
    } else {
        (s, DownloadStep::Exhausted)
    }
}

/// The step after a failed attempt. A decode error on the first request of
/// a candidate is retried on the same candidate with the raw client;
/// otherwise the next candidate is tried with the round's client (standard,
/// then, once every candidate failed, the proxy); after the proxy round
/// nothing is left.
pub fn after_failure(s: DownloadAttempts, decode_error: bool) -> (r: (DownloadAttempts, DownloadStep))
    requires
        s.index < s.candidates,
    ensures
        !s.raw_retry && decode_error ==> r == ((
            DownloadAttempts { raw_retry: true, ..s },
            DownloadStep::Try { candidate: s.index, client: HttpClientKind::Raw },
        )),
        (s.raw_retry || !decode_error) && s.index + 1 < s.candidates ==> r == ((
            DownloadAttempts { index: (s.index + 1) as usize, raw_retry: false, ..s },
            DownloadStep::Try {
                candidate: (s.index + 1) as usize,
                client: if s.proxy_round {
                    HttpClientKind::Proxy
                } else {
                    HttpClientKind::Standard
                },
            },
        )),
        (s.raw_retry || !decode_error) && s.index + 1 == s.candidates && !s.proxy_round ==> r == ((
            DownloadAttempts { proxy_round: true, index: 0, raw_retry: false, ..s },
            DownloadStep::Try { candidate: 0, client: HttpClientKind::Proxy },
        )),
        (s.raw_retry || !decode_error) && s.index + 1 == s.candidates && s.proxy_round ==> r.1
            == DownloadStep::Exhausted,
        r.1 is Try ==> r.0.index < r.0.candidates && r.0.candidates == s.candidates
            && attempts_left(r.0) < attempts_left(s),
{
    if !s.raw_retry && decode_error {
        return (
            DownloadAttempts { raw_retry: true, ..s },
            DownloadStep::Try { candidate: s.index, client: HttpClientKind::Raw },
        );
    }
    if s.index + 1 < s.candidates {
        let client = if s.proxy_round {
            HttpClientKind::Proxy
        } else {
            HttpClientKind::Standard
        };
        return (
            DownloadAttempts { index: s.index + 1, raw_retry: false, ..s },
            DownloadStep::Try { candidate: s.index + 1, client },
        );
    }
    if !s.proxy_round {
        return (
            DownloadAttempts { proxy_round: true, index: 0, raw_retry: false, ..s },
            DownloadStep::Try { candidate: 0, client: HttpClientKind::Proxy },
        );
    }
    (s, DownloadStep::Exhausted)
}

/// The size announced for a response: its `Content-Length` (0 when absent)
/// when the body is not re-encoded (`Content-Encoding` missing or
/// `identity`, in any case), else 0.
pub open spec fn expected_length(content_encoding: Option<Seq<char>>, content_length: Option<u64>) -> u64 {
    let identity = match content_encoding {
        Some(e) => eq_ignore_ascii_case(e, "identity"@),
        None => true,
    };
    if identity {
        match content_length {
            Some(n) => n,
            None => 0,
        }
    } else {
        0
    }
}

/// Computes the announced size of a response body.
pub fn expected_total_bytes(content_encoding: Option<&str>, content_length: Option<u64>) -> (r: u64)
    ensures
        r == expected_length(
            match content_encoding {
                Some(e) => Some(e@),
                None => None,
            },
            content_length,
        ),
{
    let identity = match content_encoding {
        Some(e) => {
            let a = to_chars(e);
            let b = to_chars("identity");
            eq_ignore_ascii_case_exec(a.as_slice(), b.as_slice())
        },
        None => true,
    };
    if identity {
        match content_length {
            Some(n) => n,
            None => 0,
        }
    } else {
        0
    }
}

/// The progress reported after `received` bytes: capped at the announced
/// size when there is one.
pub open spec fn progress_value(received: u64, total: u64) -> u64 {
    if total > 0 && received > total {
        total
    } else {
        received
    }
}

/// Computes the progress reported after `received` bytes.
pub fn progress_report(received: u64, total: u64) -> (r: u64)
    ensures
        r == progress_value(received, total),
        total > 0 ==> r <= total,
{
    if total > 0 && received > total {
        total
    } else {
        received
    }
}

/// A download makes at most four attempts per candidate URL: the count of
/// attempts left starts at four per candidate, every failure lowers it
/// (see `after_failure`), and it stays positive while a candidate is tried.
pub proof fn lemma_download_attempts_bounded(s: DownloadAttempts)
    ensures
        attempts_left(DownloadAttempts { candidates: s.candidates, proxy_round: false, index: 0, raw_retry: false })
            == 4 * s.candidates,
        s.index < s.candidates ==> attempts_left(s) >= 1,
{
}

/// Reported progress never goes backwards as bytes come in, and never
/// passes the announced size.
pub proof fn lemma_progress_monotone(a: u64, b: u64, total: u64)
    requires
        a <= b,
    ensures
        progress_value(a, total) <= progress_value(b, total),
        total > 0 ==> progress_value(b, total) <= total,
{
}

} // verus!
