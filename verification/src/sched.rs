//! Scheduling decisions: strategy choice, backend routing, chunking,
//! and per-partition retry with backoff. The loops that act on these
//! decisions — spawning workers, sleeping, opening readers — live with
//! the caller; every decision itself is stated and checked here.

use vstd::prelude::*;

verus! {

/// Whether a URL's path ends in `.zip`, ASCII case ignored.
pub open spec fn ends_in_zip(s: Seq<u8>) -> bool {
    let n = s.len() as int;
    n >= 4 && s[n - 4] == 46u8 && (s[n - 3] == 122u8 || s[n - 3] == 90u8) && (s[n - 2] == 105u8
        || s[n - 2] == 73u8) && (s[n - 1] == 112u8 || s[n - 1] == 80u8)
}

/// The `application/zip` media type, as bytes.
pub open spec fn zip_content_type() -> Seq<u8> {
    seq![97u8, 112u8, 112u8, 108u8, 105u8, 99u8, 97u8, 116u8, 105u8, 111u8, 110u8, 47u8, 122u8, 105u8, 112u8]
}

/// Whether `url` names a ZIP by its path ending, ASCII case ignored.
pub fn url_ends_in_zip(url: &[u8]) -> (r: bool)
    ensures
        r == ends_in_zip(url@),
{
    let n = url.len();
    if n < 4 {
        return false;
    }
    let dot = url[n - 4] == 46;
    let z = url[n - 3] == 122 || url[n - 3] == 90;
    let i = url[n - 2] == 105 || url[n - 2] == 73;
    let p = url[n - 1] == 112 || url[n - 1] == 80;
    dot && z && i && p
}

/// Whether a `Content-Type` header value is exactly `application/zip`.
pub fn content_type_is_zip(content_type: &[u8]) -> (r: bool)
    ensures
        r == (content_type@ == zip_content_type()),
{
    let pattern: [u8; 15] = [97, 112, 112, 108, 105, 99, 97, 116, 105, 111, 110, 47, 122, 105, 112];
    let r = crate::hashing::bytes_eq(content_type, pattern.as_slice());
    proof {
        assert(pattern@ =~= zip_content_type());
    }
    r
}

/// A remote payload routes through the ZIP backend exactly when its
/// `Content-Type` is `application/zip` or its path ends in `.zip`;
/// otherwise it routes through the raw ranged-HTTP backend.
pub fn routes_to_zip(url: &[u8], content_type: Option<&Vec<u8>>) -> (r: bool)
    ensures
        r == (ends_in_zip(url@) || match content_type {
            Some(ct) => ct@ == zip_content_type(),
            None => false,
        }),
{
    if url_ends_in_zip(url) {
        return true;
    }
    match content_type {
        Some(ct) => content_type_is_zip(ct.as_slice()),
        None => false,
    }
}

/// Parallel extraction runs exactly when the payload is a local `.bin`,
/// a local ZIP or a URL, and the caller did not disable it.
pub fn use_parallel(is_local_bin: bool, is_local_zip: bool, is_url: bool, no_parallel: bool) -> (r:
    bool)
    ensures
        r == ((is_local_bin || is_local_zip || is_url) && !no_parallel),
{
    (is_local_bin || is_local_zip || is_url) && !no_parallel
}

/// Only the local-ZIP backend bounds its concurrent readers.
pub fn needs_reader_limit(is_url: bool, is_local_zip: bool) -> (r: bool)
    ensures
        r == (!is_url && is_local_zip),
{
    !is_url && is_local_zip
}

/// The number of partitions each worker takes: an even split, at least
/// one.
pub fn chunk_size(partition_count: usize, worker_count: usize) -> (r: usize)
    requires
        worker_count >= 1,
    ensures
        r == vstd::math::max(1, partition_count as int / worker_count as int),
{
    let q = partition_count / worker_count;
    if q < 1 {
        1
    } else {
        q
    }
}

/// The backoff before retry `attempt`: 100 ms doubled per attempt, held
/// at 1600 ms from the fourth on.
pub open spec fn retry_delay_spec(attempt: int) -> int {
    if attempt <= 0 {
        100
    } else if attempt == 1 {
        200
    } else if attempt == 2 {
        400
    } else if attempt == 3 {
        800
    } else {
        1600
    }
}

/// The backoff, in milliseconds, to sleep before the given attempt.
pub fn backoff_delay_ms(attempt: usize) -> (r: u64)
    ensures
        r as int == retry_delay_spec(attempt as int),
{
    if attempt == 0 {
        100
    } else if attempt == 1 {
        200
    } else if attempt == 2 {
        400
    } else if attempt == 3 {
        800
    } else {
        1600
    }
}

/// What a worker does after attempt `failed_attempt` failed.
#[derive(Clone, Copy, Debug, PartialEq, Eq, Structural)]
pub enum RetryStep {
    /// Sleep `delay_ms`, open a fresh reader, and try again.
    Proceed { delay_ms: u64 },
    /// The attempt budget is spent: record the partition as failed.
    RecordFailure,
}

/// After a failed attempt, either the next attempt with its backoff, or
/// a recorded failure once `max_retries` attempts are spent.
pub fn next_retry_step(failed_attempt: usize, max_retries: usize) -> (r: RetryStep)
    ensures
        r == if failed_attempt + 1 < max_retries {
            RetryStep::Proceed { delay_ms: (retry_delay_spec(failed_attempt + 1) as u64) }
        } else {
            RetryStep::RecordFailure
        },
{
    if failed_attempt < usize::MAX && failed_attempt + 1 < max_retries {
        RetryStep::Proceed { delay_ms: backoff_delay_ms(failed_attempt + 1) }
    } else {
        RetryStep::RecordFailure
    }
}

} // verus!
