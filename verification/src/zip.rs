//! Locating the payload entry inside a ZIP archive.
//!
//! The archive's End-Of-Central-Directory record is found by scanning
//! backward from the end; the central directory is walked for the entry
//! named `payload.bin`, which must be stored uncompressed; the entry's
//! data begins after its local header, whose own name and extra lengths
//! the local header itself names. All fields are little-endian.

use vstd::prelude::*;

verus! {

use crate::errors::PayloadError;

/// The little-endian 16-bit value held at `off`.
pub open spec fn le_u16_spec(s: Seq<u8>, off: int) -> int {
    s[off] + s[off + 1] * 0x100
}

/// The little-endian 32-bit value held at `off`.
pub open spec fn le_u32_spec(s: Seq<u8>, off: int) -> int {
    s[off] + s[off + 1] * 0x100 + s[off + 2] * 0x10000 + s[off + 3] * 0x1000000
}

/// Read a little-endian 16-bit value.
pub fn le_u16_at(b: &[u8], off: usize) -> (r: u16)
    requires
        off + 2 <= b@.len(),
    ensures
        r as int == le_u16_spec(b@, off as int),
{
    (b[off] as u16) + (b[off + 1] as u16) * 0x100
}

/// Read a little-endian 32-bit value.
pub fn le_u32_at(b: &[u8], off: usize) -> (r: u32)
    requires
        off + 4 <= b@.len(),
    ensures
        r as int == le_u32_spec(b@, off as int),
{
    (b[off] as u32) + (b[off + 1] as u32) * 0x100 + (b[off + 2] as u32) * 0x10000 + (b[off
        + 3] as u32) * 0x1000000
}

/// Whether an End-Of-Central-Directory record, 22 bytes at least, could
/// start at `p`.
pub open spec fn eocd_sig_at(s: Seq<u8>, p: int) -> bool {
    &&& 0 <= p
    &&& p + 22 <= s.len()
    &&& s[p] == 0x50u8
    &&& s[p + 1] == 0x4bu8
    &&& s[p + 2] == 0x05u8
    &&& s[p + 3] == 0x06u8
}

/// The position of the archive's End-Of-Central-Directory record: the
/// last place its signature occurs.
pub open spec fn is_last_eocd(s: Seq<u8>, p: int) -> bool {
    eocd_sig_at(s, p) && forall|q: int| p < q ==> !eocd_sig_at(s, q)
}

/// Find the last occurrence of the End-Of-Central-Directory signature.
pub fn find_eocd(b: &[u8]) -> (r: Result<usize, PayloadError>)
    ensures
        r is Ok <==> exists|p: int| eocd_sig_at(b@, p),
        match r {
            Ok(p) => is_last_eocd(b@, p as int),
            Err(e) => e == PayloadError::BadMagic,
        },
{
    let len = b.len();
    if len < 22 {
        proof {
            assert(forall|p: int| !eocd_sig_at(b@, p));
        }
        return Err(PayloadError::BadMagic);
    }
    let mut p: usize = len - 22;
    loop
        invariant
            p <= len - 22,
            len == b@.len(),
            len >= 22,
            forall|q: int| p < q ==> !eocd_sig_at(b@, q),
        decreases p,
    {
        if b[p] == 0x50 && b[p + 1] == 0x4b && b[p + 2] == 0x05 && b[p + 3] == 0x06 {
            proof {
                assert(eocd_sig_at(b@, p as int));
            }
            return Ok(p);
        }
        if p == 0 {
            proof {
                assert(forall|q: int| !eocd_sig_at(b@, q));
            }
            return Err(PayloadError::BadMagic);
        }
        p = p - 1;
    }
}

/// Whether a central-directory entry header, 46 bytes at least, could
/// start at `p`.
pub open spec fn cd_entry_sig_at(s: Seq<u8>, p: int) -> bool {
    &&& 0 <= p
    &&& p + 46 <= s.len()
    &&& s[p] == 0x50u8
    &&& s[p + 1] == 0x4bu8
    &&& s[p + 2] == 0x01u8
    &&& s[p + 3] == 0x02u8
}

/// The name `payload.bin`, as bytes.
pub open spec fn payload_bin_name() -> Seq<u8> {
    seq![112u8, 97u8, 121u8, 108u8, 111u8, 97u8, 100u8, 46u8, 98u8, 105u8, 110u8]
}

/// Whether the entry at `p` is named exactly `payload.bin`.
pub open spec fn cd_entry_named_payload(s: Seq<u8>, p: int) -> bool {
    &&& le_u16_spec(s, p + 28) == 11
    &&& p + 46 + 11 <= s.len()
    &&& s.subrange(p + 46, p + 46 + 11) == payload_bin_name()
}

/// Walk up to `n` central-directory entries from `pos` and give the
/// position of the first entry named `payload.bin`; the walk stops at a
/// position without an entry signature.
pub open spec fn cd_find(s: Seq<u8>, pos: int, n: int) -> Option<int>
    decreases n,
{
    if n <= 0 {
        None
    } else if !cd_entry_sig_at(s, pos) {
        None
    } else if cd_entry_named_payload(s, pos) {
        Some(pos)
    } else {
        cd_find(
            s,
            pos + 46 + le_u16_spec(s, pos + 28) + le_u16_spec(s, pos + 30) + le_u16_spec(
                s,
                pos + 32,
            ),
            n - 1,
        )
    }
}

/// Where the payload entry's bytes lie inside the archive.
#[derive(Clone, Copy, Debug, PartialEq, Eq, Structural)]
pub struct ZipEntry {
    /// First byte of the entry's stored data.
    pub data_start: usize,
    /// Length of the stored data.
    pub data_len: usize,
}

/// Whether `b` holds the 11 bytes of `payload.bin` at `at`.
fn name_matches_payload(b: &[u8], at: usize) -> (r: bool)
    requires
        at + 11 <= b@.len(),
    ensures
        r == (b@.subrange(at as int, at as int + 11) == payload_bin_name()),
{
    let blen = b.len();
    let pattern: [u8; 11] = [112, 97, 121, 108, 111, 97, 100, 46, 98, 105, 110];
    let sub = vstd::slice::slice_subrange(b, at, at + 11);
    let r = crate::hashing::bytes_eq(sub, pattern.as_slice());
    proof {
        assert(pattern@ =~= payload_bin_name());
    }
    r
}

/// The checks past the central-directory walk, for the entry at `q`: the
/// entry is stored uncompressed, its local header lies in bounds and
/// carries the local-header signature, and the data the header points at
/// lies within the archive.
pub open spec fn entry_fields_ok(s: Seq<u8>, q: int) -> bool {
    let lh = le_u32_spec(s, q + 42);
    &&& le_u16_spec(s, q + 10) == 0
    &&& lh + 30 <= s.len()
    &&& s[lh] == 0x50u8
    &&& s[lh + 1] == 0x4bu8
    &&& s[lh + 2] == 0x03u8
    &&& s[lh + 3] == 0x04u8
    &&& lh + 30 + le_u16_spec(s, lh + 26) + le_u16_spec(s, lh + 28) + le_u32_spec(s, q + 20)
        <= s.len()
}

/// Whether the archive holds a usable stored `payload.bin` entry: an
/// End-Of-Central-Directory record exists, the central-directory walk
/// from it reaches an entry of that name, and the entry's fields check
/// out.
pub open spec fn payload_entry_found(s: Seq<u8>) -> bool {
    exists|p: int|
        #[trigger] is_last_eocd(s, p) && {
            let q = cd_find(s, le_u32_spec(s, p + 16), le_u16_spec(s, p + 10));
            &&& q is Some
            &&& entry_fields_ok(s, q->Some_0)
        }
}

/// At most one position is the last End-Of-Central-Directory record.
proof fn lemma_last_eocd_unique(s: Seq<u8>, p1: int, p2: int)
    requires
        is_last_eocd(s, p1),
        is_last_eocd(s, p2),
    ensures
        p1 == p2,
{
    if p1 < p2 {
        assert(!eocd_sig_at(s, p2));
    }
    if p2 < p1 {
        assert(!eocd_sig_at(s, p1));
    }
}

/// Locate the stored `payload.bin` entry of a ZIP archive.
///
/// Success exactly when the archive ends in an End-Of-Central-Directory
/// record, the central directory walked from it holds an entry named
/// `payload.bin`, the entry is stored uncompressed, and its data — found
/// through its local header — lies within the archive; the returned
/// bounds are the ones those records name. Every failure reports
/// `BadMagic`: to its caller such a file is no payload archive.
pub fn locate_payload_entry(b: &[u8]) -> (r: Result<ZipEntry, PayloadError>)
    ensures
        r is Ok <==> payload_entry_found(b@),
        match r {
            Ok(entry) => forall|p: int|
                #[trigger] is_last_eocd(b@, p) ==> {
                    let q = cd_find(b@, le_u32_spec(b@, p + 16), le_u16_spec(b@, p + 10));
                    &&& q is Some
                    &&& entry_fields_ok(b@, q->Some_0)
                    &&& {
                        let lh = le_u32_spec(b@, q->Some_0 + 42);
                        &&& entry.data_start == lh + 30 + le_u16_spec(b@, lh + 26) + le_u16_spec(
                            b@,
                            lh + 28,
                        )
                        &&& entry.data_len == le_u32_spec(b@, q->Some_0 + 20)
                        &&& entry.data_start + entry.data_len <= b@.len()
                    }
                },
            Err(e) => e == PayloadError::BadMagic,
        },
{
    let len = b.len();
    let eocd = match find_eocd(b) {
        Ok(p) => p,
        Err(e) => {
            proof {
                assert(forall|p: int| #[trigger] is_last_eocd(b@, p) ==> eocd_sig_at(b@, p));
                assert(!payload_entry_found(b@));
            }
            return Err(e);
        },
    };
    let cd_off = le_u32_at(b, eocd + 16);
    let count = le_u16_at(b, eocd + 10);
    let q = match cd_walk(b, cd_off, count) {
        Ok(q) => q,
        Err(e) => {
            proof {
                assert forall|p: int| #[trigger] is_last_eocd(b@, p) implies p == eocd as int by {
                    lemma_last_eocd_unique(b@, p, eocd as int);
                }
                assert(!payload_entry_found(b@));
            }
            return Err(e);
        },
    };
    proof {
        assert(q + 46 <= len);
        assert forall|p: int| #[trigger] is_last_eocd(b@, p) implies p == eocd as int by {
            lemma_last_eocd_unique(b@, p, eocd as int);
        }
    }
    let method = le_u16_at(b, q + 10);
    if method != 0 {
        proof {
            assert(!entry_fields_ok(b@, q as int));
            assert(!payload_entry_found(b@));
        }
        return Err(PayloadError::BadMagic);
    }
    let lh_u32 = le_u32_at(b, q + 42);
    let lh = lh_u32 as usize;
    if lh > len || len - lh < 30 {
        proof {
            assert(!entry_fields_ok(b@, q as int));
            assert(!payload_entry_found(b@));
        }
        return Err(PayloadError::BadMagic);
    }
    if !(b[lh] == 0x50 && b[lh + 1] == 0x4b && b[lh + 2] == 0x03 && b[lh + 3] == 0x04) {
        proof {
            assert(!entry_fields_ok(b@, q as int));
            assert(!payload_entry_found(b@));
        }
        return Err(PayloadError::BadMagic);
    }
    let lname = le_u16_at(b, lh + 26);
    let lextra = le_u16_at(b, lh + 28);
    let data_start_u64 = lh as u64 + 30 + lname as u64 + lextra as u64;
    let data_len_u64 = le_u32_at(b, q + 20) as u64;
    if data_start_u64 > len as u64 || data_len_u64 > len as u64 - data_start_u64 {
        proof {
            assert(!entry_fields_ok(b@, q as int));
            assert(!payload_entry_found(b@));
        }
        return Err(PayloadError::BadMagic);
    }
    let entry = ZipEntry { data_start: data_start_u64 as usize, data_len: data_len_u64 as usize };
    proof {
        assert(is_last_eocd(b@, eocd as int));
        assert(cd_find(b@, le_u32_spec(b@, eocd as int + 16), le_u16_spec(b@, eocd as int + 10))
            == Some(q as int));
        assert(entry_fields_ok(b@, q as int));
        assert(payload_entry_found(b@));
    }
    Ok(entry)
}

/// Walk the central directory from `cd_off` for at most `count` entries
/// and find the one named `payload.bin`; the walk fails exactly when
/// `cd_find` finds no such entry.
fn cd_walk(b: &[u8], cd_off: u32, count: u16) -> (r: Result<usize, PayloadError>)
    ensures
        r is Ok <==> cd_find(b@, cd_off as int, count as int) is Some,
        match r {
            Ok(q) => {
                &&& cd_find(b@, cd_off as int, count as int) == Some(q as int)
                &&& cd_entry_sig_at(b@, q as int)
                &&& cd_entry_named_payload(b@, q as int)
            },
            Err(e) => e == PayloadError::BadMagic,
        },
{
    let len = b.len();
    let mut pos: u64 = cd_off as u64;
    let mut remaining: u16 = count;
    while remaining > 0
        invariant
            len == b@.len(),
            cd_find(b@, cd_off as int, count as int) == cd_find(
                b@,
                pos as int,
                remaining as int,
            ),
        decreases remaining,
    {
        if pos > u64::MAX - 46 || pos + 46 > len as u64 {
            proof {
                assert(!cd_entry_sig_at(b@, pos as int));
                assert(cd_find(b@, pos as int, remaining as int) is None);
            }
            return Err(PayloadError::BadMagic);
        }
        let at = pos as usize;
        if !(b[at] == 0x50 && b[at + 1] == 0x4b && b[at + 2] == 0x01 && b[at + 3] == 0x02) {
            proof {
                assert(!cd_entry_sig_at(b@, pos as int));
                assert(cd_find(b@, pos as int, remaining as int) is None);
            }
            return Err(PayloadError::BadMagic);
        }
        let name_len = le_u16_at(b, at + 28);
        let extra_len = le_u16_at(b, at + 30);
        let comment_len = le_u16_at(b, at + 32);
        if name_len == 11 && len - (at + 46) >= 11 {
            if name_matches_payload(b, at + 46) {
                proof {
                    assert(cd_entry_named_payload(b@, at as int));
                }
                return Ok(at);
            }
        } else {
            proof {
                assert(!cd_entry_named_payload(b@, at as int));
            }
        }
        proof {
            assert(!cd_entry_named_payload(b@, at as int));
        }
        let step = 46u64 + name_len as u64 + extra_len as u64 + comment_len as u64;
        pos = match pos.checked_add(step) {
            Some(next) => next,
            None => {
                proof {
                    let next_spec: int = pos + 46 + le_u16_spec(b@, at as int + 28)
                        + le_u16_spec(b@, at as int + 30) + le_u16_spec(b@, at as int + 32);
                    assert(next_spec > u64::MAX);
                    assert(!cd_entry_sig_at(b@, next_spec));
                    assert(cd_find(b@, next_spec, remaining as int - 1) is None);
                    assert(cd_find(b@, pos as int, remaining as int) is None);
                }
                return Err(PayloadError::BadMagic);
            },
        };
        remaining = remaining - 1;
    }
    Err(PayloadError::BadMagic)
}

} // verus!