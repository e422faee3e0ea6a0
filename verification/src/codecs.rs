//! Decompression and patching, each behind one trusted wrapper.
//!
//! What each codec produces on given bytes takes pages to state, so each
//! result is only named: an uninterpreted function of the inputs alone.
//! Every caller's contract goes through these names, and the logic that
//! consumes a decoded buffer is verified for every value of it.

use std::io::Read;
use vstd::prelude::*;

verus! {

/// What XZ decompression yields on `data`: the decoded bytes, or nothing
/// when the stream is not well formed. Depends on `data` alone.
pub uninterp spec fn xz_decoded(data: Seq<u8>) -> Option<Seq<u8>>;

/// What Zstd decompression yields on `data`; `None` for a malformed
/// stream. Depends on `data` alone.
pub uninterp spec fn zstd_decoded(data: Seq<u8>) -> Option<Seq<u8>>;

/// What BZ2 decompression yields on `data`; `None` for a malformed
/// stream. Depends on `data` alone.
pub uninterp spec fn bz2_decoded(data: Seq<u8>) -> Option<Seq<u8>>;

/// What applying the BSDIFF patch `patch` to `old` yields; `None` for a
/// malformed patch. Depends on the two inputs alone.
pub uninterp spec fn bspatch_applied(old: Seq<u8>, patch: Seq<u8>) -> Option<Seq<u8>>;

/// Relies on xz4rust::XzDecoder::decode: driven over the whole input it
/// either decodes the stream completely or reports a malformed stream,
/// and the outcome depends on the input bytes alone.
#[verifier::external_body]
pub fn xz_decompress(data: &[u8]) -> (r: Option<Vec<u8>>)
    ensures
        match r {
            Some(v) => xz_decoded(data@) == Some(v@),
            None => xz_decoded(data@) is None,
        },
{
    let mut decoder = xz4rust::XzDecoder::in_heap_with_alloc_dict_size(xz4rust::DICT_SIZE_MIN, xz4rust::DICT_SIZE_MAX);
    let (mut out, mut buf, mut pos): (Vec<u8>, [u8; 4096], usize) = (Vec::new(), [0u8; 4096], 0);
    loop {
        match decoder.decode(&data[pos..], &mut buf) {
            Ok(xz4rust::XzNextBlockResult::NeedMoreData(c, p)) if c > 0 || p > 0 => {
                pos += c;
                out.extend_from_slice(&buf[..p]);
            },
            Ok(xz4rust::XzNextBlockResult::EndOfStream(_, p)) => { out.extend_from_slice(&buf[..p]); return Some(out); },
            _ => return None,
        }
    }
}

/// Relies on zstd::decode_all: it decodes a whole Zstd stream from memory
/// or reports a malformed one, and the outcome depends on the input bytes
/// alone.
#[verifier::external_body]
pub fn zstd_decompress(data: &[u8]) -> (r: Option<Vec<u8>>)
    ensures
        match r {
            Some(v) => zstd_decoded(data@) == Some(v@),
            None => zstd_decoded(data@) is None,
        },
{
    zstd::decode_all(std::io::Cursor::new(data)).ok()
}

/// Relies on bzip2::read::BzDecoder: read to the end it decodes a whole
/// BZ2 stream or reports a malformed one, and the outcome depends on the
/// input bytes alone.
#[verifier::external_body]
pub fn bz2_decompress(data: &[u8]) -> (r: Option<Vec<u8>>)
    ensures
        match r {
            Some(v) => bz2_decoded(data@) == Some(v@),
            None => bz2_decoded(data@) is None,
        },
{
    let mut decoder = bzip2::read::BzDecoder::new(std::io::Cursor::new(data));
    let mut out: Vec<u8> = Vec::new();
    match decoder.read_to_end(&mut out) {
        Ok(_) => Some(out),
        Err(_) => None,
    }
}

/// Relies on bsdiff::patch: it applies a BSDIFF patch to the old bytes or
/// reports a malformed patch, and the outcome depends on the two inputs
/// alone.
#[verifier::external_body]
pub fn bspatch(old_data: &[u8], patch_data: &[u8]) -> (r: Option<Vec<u8>>)
    ensures
        match r {
            Some(v) => bspatch_applied(old_data@, patch_data@) == Some(v@),
            None => bspatch_applied(old_data@, patch_data@) is None,
        },
{
    let mut new_data: Vec<u8> = Vec::new();
    let mut patch_reader: &[u8] = patch_data;
    match bsdiff::patch(old_data, &mut patch_reader, &mut new_data) {
        Ok(()) => Some(new_data),
        Err(_) => None,
    }
}

} // verus!
