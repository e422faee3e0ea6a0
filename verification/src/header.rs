//! The payload's fixed header: magic, version, manifest and signature sizes.
//!
//! The header is 24 bytes, big-endian: 4 bytes of magic `CrAU`, an 8-byte
//! version that must be 2, an 8-byte manifest size and a 4-byte metadata
//! signature size. The data region starts right after the signature, and
//! every operation's `data_offset` is relative to that point.

use vstd::prelude::*;

verus! {

use crate::errors::PayloadError;

/// The big-endian 64-bit value held at `off`.
pub open spec fn be_u64_spec(s: Seq<u8>, off: int) -> int {
    s[off] * 0x100000000000000 + s[off + 1] * 0x1000000000000 + s[off + 2] * 0x10000000000 + s[off
        + 3] * 0x100000000 + s[off + 4] * 0x1000000 + s[off + 5] * 0x10000 + s[off + 6] * 0x100
        + s[off + 7]
}

/// The big-endian 32-bit value held at `off`.
pub open spec fn be_u32_spec(s: Seq<u8>, off: int) -> int {
    s[off] * 0x1000000 + s[off + 1] * 0x10000 + s[off + 2] * 0x100 + s[off + 3]
}

/// Read a big-endian 64-bit value.
pub fn be_u64_at(b: &[u8], off: usize) -> (r: u64)
    requires
        off + 8 <= b@.len(),
    ensures
        r as int == be_u64_spec(b@, off as int),
{
    (b[off] as u64) * 0x100000000000000 + (b[off + 1] as u64) * 0x1000000000000 + (b[off
        + 2] as u64) * 0x10000000000 + (b[off + 3] as u64) * 0x100000000 + (b[off + 4] as u64)
        * 0x1000000 + (b[off + 5] as u64) * 0x10000 + (b[off + 6] as u64) * 0x100 + (b[off
        + 7] as u64)
}

/// Read a big-endian 32-bit value.
pub fn be_u32_at(b: &[u8], off: usize) -> (r: u32)
    requires
        off + 4 <= b@.len(),
    ensures
        r as int == be_u32_spec(b@, off as int),
{
    (b[off] as u32) * 0x1000000 + (b[off + 1] as u32) * 0x10000 + (b[off + 2] as u32) * 0x100 + (
    b[off + 3] as u32)
}

/// The number of bytes before the manifest.
pub const HEADER_LEN: usize = 24;

/// Whether the first four bytes spell the payload magic `CrAU`.
pub open spec fn magic_ok(s: Seq<u8>) -> bool {
    s.len() >= 4 && s[0] == 0x43u8 && s[1] == 0x72u8 && s[2] == 0x41u8 && s[3] == 0x55u8
}

/// The parsed fixed header.
#[derive(Clone, Copy, Debug, PartialEq, Eq, Structural)]
pub struct PayloadHeader {
    /// The payload's major version; always 2 on the accepted path.
    pub version: u64,
    /// Length of the encoded manifest.
    pub manifest_size: u64,
    /// Length of the opaque metadata signature that follows the manifest.
    pub metadata_signature_size: u32,
    /// Absolute position where the data region begins.
    pub data_offset: u64,
}

/// Whether the fixed header, manifest and signature all lie within a file
/// of `len` bytes with the given sizes.
pub open spec fn header_fits(len: int, manifest_size: int, metadata_signature_size: int) -> bool {
    HEADER_LEN + manifest_size + metadata_signature_size <= len
}

/// Parse and validate the fixed header of a payload file.
///
/// Success needs at least the 24 header bytes, the `CrAU` magic, version 2,
/// and the manifest and signature to lie within the file; each failure is
/// reported by the first check that rejects it, in that order.
pub fn parse_payload_header(b: &[u8]) -> (r: Result<PayloadHeader, PayloadError>)
    ensures
        r is Ok <==> {
            &&& b@.len() >= HEADER_LEN
            &&& magic_ok(b@)
            &&& be_u64_spec(b@, 4) == 2
            &&& header_fits(b@.len() as int, be_u64_spec(b@, 12), be_u32_spec(b@, 20))
        },
        match r {
            Ok(h) => {
                &&& h.version == 2
                &&& h.manifest_size as int == be_u64_spec(b@, 12)
                &&& h.metadata_signature_size as int == be_u32_spec(b@, 20)
                &&& h.data_offset as int == HEADER_LEN + be_u64_spec(b@, 12) + be_u32_spec(
                    b@,
                    20,
                )
            },
            Err(e) => e == if b@.len() < HEADER_LEN {
                PayloadError::TruncatedHeader
            } else if !magic_ok(b@) {
                PayloadError::BadMagic
            } else if be_u64_spec(b@, 4) != 2 {
                PayloadError::UnsupportedVersion(be_u64_spec(b@, 4) as u64)
            } else {
                PayloadError::TruncatedManifest
            },
        },
{
    if b.len() < HEADER_LEN {
        return Err(PayloadError::TruncatedHeader);
    }
    if !(b[0] == 0x43 && b[1] == 0x72 && b[2] == 0x41 && b[3] == 0x55) {
        return Err(PayloadError::BadMagic);
    }
    let version = be_u64_at(b, 4);
    if version != 2 {
        return Err(PayloadError::UnsupportedVersion(version));
    }
    let manifest_size = be_u64_at(b, 12);
    let metadata_signature_size = be_u32_at(b, 20);
    let len: u64 = b.len() as u64;
    if manifest_size > len - HEADER_LEN as u64 {
        return Err(PayloadError::TruncatedManifest);
    }
    if (metadata_signature_size as u64) > len - HEADER_LEN as u64 - manifest_size {
        return Err(PayloadError::TruncatedManifest);
    }
    Ok(
        PayloadHeader {
            version,
            manifest_size,
            metadata_signature_size,
            data_offset: HEADER_LEN as u64 + manifest_size + metadata_signature_size as u64,
        },
    )
}

/// Copy `count` bytes starting at `start` out of `b`.
pub fn copy_range(b: &[u8], start: usize, count: usize) -> (r: Vec<u8>)
    requires
        start + count <= b@.len(),
    ensures
        r@ == b@.subrange(start as int, start + count),
{
    let blen = b.len();
    let mut out: Vec<u8> = Vec::new();
    let mut i: usize = 0;
    while i < count
        invariant
            i <= count,
            start + count <= blen,
            blen == b@.len(),
            out@ == b@.subrange(start as int, start + i),
        decreases count - i,
    {
        out.push(b[start + i]);
        i = i + 1;
        proof {
            assert(out@ =~= b@.subrange(start as int, start + i));
        }
    }
    out
}

/// The encoded manifest bytes a validated header points at.
pub fn manifest_bytes(b: &[u8], h: &PayloadHeader) -> (r: Vec<u8>)
    requires
        HEADER_LEN + h.manifest_size <= b@.len(),
    ensures
        r@ == b@.subrange(HEADER_LEN as int, HEADER_LEN + h.manifest_size),
{
    let blen = b.len();
    proof {
        assert(h.manifest_size as int <= blen as int);
    }
    copy_range(b, HEADER_LEN, h.manifest_size as usize)
}

} // verus!
