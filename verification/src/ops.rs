//! The install-operation interpreter.
//!
//! One operation reads its bytes from the payload's data region, checks
//! them against the operation's hash if one is present, decompresses or
//! patches as the type asks, and writes the result at the destination
//! extents of the in-memory output image. Soft failures — a hash
//! mismatch, a malformed stream, a short buffer, an unknown type — skip
//! the operation and are reported as an outcome; fatal failures are
//! returned as errors and abandon the partition, its image possibly
//! part-written.

use vstd::prelude::*;

verus! {

use crate::codecs::bspatch;
use crate::codecs::bspatch_applied;
use crate::codecs::bz2_decoded;
use crate::codecs::bz2_decompress;
use crate::codecs::xz_decoded;
use crate::codecs::xz_decompress;
use crate::codecs::zstd_decoded;
use crate::codecs::zstd_decompress;
use crate::hashing::sha256_of;
use crate::hashing::verify_hash;
use crate::manifest::Extent;
use crate::manifest::InstallOperation;
use crate::manifest::OpType;
use crate::manifest::spec_op_type;

/// How one operation ended: applied in full, or skipped for a reason the
/// caller reports and survives.
#[derive(Clone, Copy, Debug, PartialEq, Eq, Structural)]
pub enum OpOutcome {
    /// The operation's writes were performed in full.
    Applied,
    /// The operation's bytes did not match `data_sha256_hash`.
    DataHashMismatch,
    /// The compressed bytes did not decode.
    DecompressFailed,
    /// The BSDIFF patch did not apply.
    PatchFailed,
    /// The decoded bytes ran out before the destination extents did;
    /// extents were written as far as the bytes reached.
    InsufficientData,
    /// A type code this crate does not handle.
    UnknownType,
}

/// A failure that is fatal for the partition being written.
#[derive(Clone, Copy, Debug, PartialEq, Eq, Structural)]
pub enum OpError {
    /// The operation's bytes lie outside the payload.
    DataOutOfRange,
    /// A differential operation without an old image.
    MissingOldImage,
    /// A source extent lies outside the old image.
    SourceExtentOutOfRange,
    /// An operation that writes at its first destination extent has none.
    MissingDstExtents,
    /// A write's end position does not fit in memory.
    WriteTooLarge,
}

/// A sequence of `n` zero bytes.
pub open spec fn zeros(n: int) -> Seq<u8> {
    Seq::new(n as nat, |i: int| 0u8)
}

/// The image after writing `data` at byte position `off`: bytes below
/// `off` and past the write keep their values, the image grows when the
/// write ends past its end, and a gap opened between the old end and
/// `off` reads as zeros.
pub open spec fn write_at_spec(img: Seq<u8>, off: int, data: Seq<u8>) -> Seq<u8>
    recommends
        off >= 0,
{
    let end = off + data.len();
    let n = if img.len() >= end {
        img.len() as int
    } else {
        end
    };
    Seq::new(
        n as nat,
        |i: int|
            if off <= i < end {
                data[i - off]
            } else if i < img.len() {
                img[i]
            } else {
                0u8
            },
    )
}

/// Write `data` into `img` at byte position `off`, growing the image
/// with zeros as far as the write needs.
pub fn write_at(img: &mut Vec<u8>, off: usize, data: &[u8])
    requires
        off + data@.len() <= usize::MAX,
    ensures
        final(img)@ == write_at_spec(old(img)@, off as int, data@),
{
    let dlen = data.len();
    let end = off + dlen;
    while img.len() < end
        invariant
            end <= usize::MAX,
            old(img)@.len() <= img@.len(),
            img@.len() <= vstd::math::max(old(img)@.len() as int, end as int),
            forall|i: int| 0 <= i < old(img)@.len() ==> img@[i] == old(img)@[i],
            forall|i: int| old(img)@.len() <= i < img@.len() ==> img@[i] == 0u8,
        decreases end - img@.len(),
    {
        img.push(0u8);
    }
    let mut i: usize = 0;
    while i < dlen
        invariant
            i <= dlen,
            end == off + dlen,
            dlen == data@.len(),
            img@.len() >= end,
            img@.len() == vstd::math::max(old(img)@.len() as int, end as int),
            forall|k: int| 0 <= k < img@.len() && !(off <= k < off + i) && k < old(img)@.len()
                ==> img@[k] == old(img)@[k],
            forall|k: int| 0 <= k < img@.len() && !(off <= k < off + i) && old(img)@.len() <= k
                ==> img@[k] == 0u8,
            forall|k: int| off <= k < off + i ==> img@[k] == data@[k - off],
        decreases dlen - i,
    {
        img.set(off + i, data[i]);
        i = i + 1;
    }
    proof {
        assert(img@ =~= write_at_spec(old(img)@, off as int, data@));
    }
}

/// The data slice's bounds: the operation's bytes lie inside the payload.
pub open spec fn op_data_in_bounds(payload: Seq<u8>, data_offset: int, op: InstallOperation) -> bool {
    data_offset + op.spec_data_offset() + op.spec_data_length() <= payload.len()
}

/// The operation's bytes within the payload.
pub open spec fn op_data_spec(payload: Seq<u8>, data_offset: int, op: InstallOperation) -> Seq<u8>
    recommends
        data_offset >= 0,
        op_data_in_bounds(payload, data_offset, op),
{
    payload.subrange(
        data_offset + op.spec_data_offset(),
        data_offset + op.spec_data_offset() + op.spec_data_length(),
    )
}

/// Fetch the operation's bytes out of the payload, or fail when they lie
/// outside it.
fn op_data<'a>(payload: &'a [u8], data_offset: u64, op: &InstallOperation) -> (r: Result<
    &'a [u8],
    OpError,
>)
    ensures
        r is Ok <==> op_data_in_bounds(payload@, data_offset as int, *op),
        match r {
            Ok(d) => d@ == op_data_spec(payload@, data_offset as int, *op),
            Err(e) => e == OpError::DataOutOfRange,
        },
{
    let plen = payload.len();
    let start = match data_offset.checked_add(op.data_offset_value()) {
        Some(s) => s,
        None => {
            return Err(OpError::DataOutOfRange);
        },
    };
    let end = match start.checked_add(op.data_length_value()) {
        Some(e) => e,
        None => {
            return Err(OpError::DataOutOfRange);
        },
    };
    if end > plen as u64 {
        return Err(OpError::DataOutOfRange);
    }
    Ok(vstd::slice::slice_subrange(payload, start as usize, end as usize))
}

/// Whether the operation's bytes fail the hash named in the operation: a
/// hash is present, non-empty, and differs from the SHA-256 of the bytes.
pub open spec fn data_hash_mismatch(op: InstallOperation, data: Seq<u8>) -> bool {
    match op.data_sha256_hash {
        Some(h) => h@.len() > 0 && sha256_of(data) != h@,
        None => false,
    }
}

/// The image after a whole-buffer write at the first destination extent,
/// `None` when there is no extent or the write cannot fit in memory.
pub open spec fn replace_run(img: Seq<u8>, exts: Seq<Extent>, data: Seq<u8>, bs: int) -> Option<
    Seq<u8>,
> {
    if exts.len() == 0 {
        None
    } else if exts[0].start() * bs + data.len() > usize::MAX {
        None
    } else {
        Some(write_at_spec(img, exts[0].start() * bs, data))
    }
}

/// Write `data` in full at the first destination extent's start.
fn apply_replace(img: &mut Vec<u8>, exts: &Vec<Extent>, data: &[u8], bs: u64) -> (r: Result<
    (),
    OpError,
>)
    ensures
        r is Ok <==> replace_run(old(img)@, exts@, data@, bs as int) is Some,
        match r {
            Ok(()) => Some(final(img)@) == replace_run(old(img)@, exts@, data@, bs as int),
            Err(e) => {
                &&& final(img)@ == old(img)@
                &&& e == if exts@.len() == 0 {
                    OpError::MissingDstExtents
                } else {
                    OpError::WriteTooLarge
                }
            },
        },
{
    if exts.len() == 0 {
        return Err(OpError::MissingDstExtents);
    }
    let off = match exts[0].start_value().checked_mul(bs) {
        Some(o) => o,
        None => {
            return Err(OpError::WriteTooLarge);
        },
    };
    let end = match off.checked_add(data.len() as u64) {
        Some(e) => e,
        None => {
            return Err(OpError::WriteTooLarge);
        },
    };
    if end > usize::MAX as u64 {
        return Err(OpError::WriteTooLarge);
    }
    write_at(img, off as usize, data);
    Ok(())
}

/// The number of bytes the extents cover, in order.
pub open spec fn sum_extent_bytes(exts: Seq<Extent>, bs: int) -> int
    decreases exts.len(),
{
    if exts.len() == 0 {
        0
    } else {
        exts[0].blocks() * bs + sum_extent_bytes(exts.drop_first(), bs)
    }
}

/// With a non-negative block size no extent covers a negative number of
/// bytes, so the covered total is non-negative.
pub proof fn lemma_sum_extent_bytes_nonneg(exts: Seq<Extent>, bs: int)
    requires
        bs >= 0,
    ensures
        sum_extent_bytes(exts, bs) >= 0,
    decreases exts.len(),
{
    if exts.len() > 0 {
        lemma_sum_extent_bytes_nonneg(exts.drop_first(), bs);
    }
}

/// The image after distributing `data` across the extents in order,
/// starting at `pos` within `data`: each extent takes its covered number
/// of bytes; an extent the remaining bytes cannot fill stops the walk
/// with the image as written so far. `None` when a write cannot fit in
/// memory.
pub open spec fn distribute_run(
    img: Seq<u8>,
    exts: Seq<Extent>,
    data: Seq<u8>,
    pos: int,
    bs: int,
) -> Option<Seq<u8>>
    decreases exts.len(),
{
    if exts.len() == 0 {
        Some(img)
    } else {
        let sz = exts[0].blocks() * bs;
        if pos + sz > data.len() {
            Some(img)
        } else if exts[0].start() * bs + sz > usize::MAX {
            None
        } else {
            distribute_run(
                write_at_spec(img, exts[0].start() * bs, data.subrange(pos, pos + sz)),
                exts.drop_first(),
                data,
                pos + sz,
                bs,
            )
        }
    }
}

/// Distribute `data` across the extents in order, an extent's covered
/// size at a time; report whether the data reached through every extent.
fn apply_distribute(img: &mut Vec<u8>, exts: &Vec<Extent>, data: &[u8], bs: u64) -> (r: Result<
    bool,
    OpError,
>)
    ensures
        r is Ok <==> distribute_run(old(img)@, exts@, data@, 0, bs as int) is Some,
        match r {
            Ok(complete) => {
                &&& Some(final(img)@) == distribute_run(old(img)@, exts@, data@, 0, bs as int)
                &&& complete == (sum_extent_bytes(exts@, bs as int) <= data@.len())
            },
            Err(e) => e == OpError::WriteTooLarge,
        },
{
    let dlen = data.len();
    let mut i: usize = 0;
    let mut pos: usize = 0;
    proof {
        assert(exts@.skip(0) =~= exts@);
    }
    while i < exts.len()
        invariant
            i <= exts@.len(),
            pos <= dlen,
            dlen == data@.len(),
            distribute_run(old(img)@, exts@, data@, 0, bs as int) == distribute_run(
                img@,
                exts@.skip(i as int),
                data@,
                pos as int,
                bs as int,
            ),
            sum_extent_bytes(exts@, bs as int) <= data@.len() <==> pos + sum_extent_bytes(
                exts@.skip(i as int),
                bs as int,
            ) <= data@.len(),
        decreases exts@.len() - i,
    {
        let ghost tail = exts@.skip(i as int);
        proof {
            assert(tail[0] == exts@[i as int]);
            assert(tail.drop_first() =~= exts@.skip(i as int + 1));
            lemma_sum_extent_bytes_nonneg(tail.drop_first(), bs as int);
        }
        let ext = exts[i];
        let sz_u64 = match ext.blocks_value().checked_mul(bs) {
            Some(s) => s,
            None => {
                return Ok(false);
            },
        };
        if sz_u64 > (dlen - pos) as u64 {
            return Ok(false);
        }
        let sz = sz_u64 as usize;
        let off_u64 = match ext.start_value().checked_mul(bs) {
            Some(o) => o,
            None => {
                return Err(OpError::WriteTooLarge);
            },
        };
        let end_u64 = match off_u64.checked_add(sz_u64) {
            Some(e) => e,
            None => {
                return Err(OpError::WriteTooLarge);
            },
        };
        if end_u64 > usize::MAX as u64 {
            return Err(OpError::WriteTooLarge);
        }
        let part = vstd::slice::slice_subrange(data, pos, pos + sz);
        write_at(img, off_u64 as usize, part);
        pos = pos + sz;
        i = i + 1;
    }
    proof {
        assert(exts@.skip(i as int) =~= Seq::<Extent>::empty());
        lemma_sum_extent_bytes_nonneg(exts@.skip(i as int), bs as int);
    }
    Ok(true)
}

/// The image after writing the covered number of zero bytes at each
/// extent, in order; `None` when a write cannot fit in memory.
pub open spec fn zero_run(img: Seq<u8>, exts: Seq<Extent>, bs: int) -> Option<Seq<u8>>
    decreases exts.len(),
{
    if exts.len() == 0 {
        Some(img)
    } else {
        let sz = exts[0].blocks() * bs;
        if exts[0].start() * bs + sz > usize::MAX {
            None
        } else {
            zero_run(write_at_spec(img, exts[0].start() * bs, zeros(sz)), exts.drop_first(), bs)
        }
    }
}

/// Write zeros over every extent, in order.
fn apply_zero(img: &mut Vec<u8>, exts: &Vec<Extent>, bs: u64) -> (r: Result<(), OpError>)
    ensures
        r is Ok <==> zero_run(old(img)@, exts@, bs as int) is Some,
        match r {
            Ok(()) => Some(final(img)@) == zero_run(old(img)@, exts@, bs as int),
            Err(e) => e == OpError::WriteTooLarge,
        },
{
    let mut i: usize = 0;
    proof {
        assert(exts@.skip(0) =~= exts@);
    }
    while i < exts.len()
        invariant
            i <= exts@.len(),
            zero_run(old(img)@, exts@, bs as int) == zero_run(
                img@,
                exts@.skip(i as int),
                bs as int,
            ),
        decreases exts@.len() - i,
    {
        let ghost tail = exts@.skip(i as int);
        proof {
            assert(tail[0] == exts@[i as int]);
            assert(tail.drop_first() =~= exts@.skip(i as int + 1));
        }
        let ext = exts[i];
        let sz_u64 = match ext.blocks_value().checked_mul(bs) {
            Some(s) => s,
            None => {
                return Err(OpError::WriteTooLarge);
            },
        };
        let off_u64 = match ext.start_value().checked_mul(bs) {
            Some(o) => o,
            None => {
                return Err(OpError::WriteTooLarge);
            },
        };
        let end_u64 = match off_u64.checked_add(sz_u64) {
            Some(e) => e,
            None => {
                return Err(OpError::WriteTooLarge);
            },
        };
        if end_u64 > usize::MAX as u64 {
            return Err(OpError::WriteTooLarge);
        }
        let block = vec![0u8; sz_u64 as usize];
        proof {
            assert(block@ =~= zeros(tail[0].blocks() * bs as int));
        }
        write_at(img, off_u64 as usize, block.as_slice());
        i = i + 1;
    }
    proof {
        assert(exts@.skip(i as int) =~= Seq::<Extent>::empty());
    }
    Ok(())
}

/// Every source extent lies within the old image.
pub open spec fn src_extents_in_bounds(old_len: int, exts: Seq<Extent>, bs: int) -> bool {
    forall|i: int|
        0 <= i < exts.len() ==> (#[trigger] exts[i]).start() * bs + exts[i].blocks() * bs
            <= old_len
}

/// The source extents' bytes out of the old image, concatenated in order.
pub open spec fn src_concat(old_img: Seq<u8>, exts: Seq<Extent>, bs: int) -> Seq<u8>
    decreases exts.len(),
{
    if exts.len() == 0 {
        Seq::empty()
    } else {
        old_img.subrange(exts[0].start() * bs, exts[0].start() * bs + exts[0].blocks() * bs)
            + src_concat(old_img, exts.drop_first(), bs)
    }
}

/// Read and concatenate the source extents out of the old image, or fail
/// when one lies outside it.
fn read_src_extents(old_img: &[u8], exts: &Vec<Extent>, bs: u64) -> (r: Result<Vec<u8>, OpError>)
    ensures
        r is Ok <==> src_extents_in_bounds(old_img@.len() as int, exts@, bs as int),
        match r {
            Ok(v) => v@ == src_concat(old_img@, exts@, bs as int),
            Err(e) => e == OpError::SourceExtentOutOfRange,
        },
{
    let olen = old_img.len();
    let mut out: Vec<u8> = Vec::new();
    let mut i: usize = 0;
    proof {
        assert(exts@.skip(0) =~= exts@);
        assert(out@ + src_concat(old_img@, exts@, bs as int) =~= src_concat(
            old_img@,
            exts@,
            bs as int,
        ));
    }
    while i < exts.len()
        invariant
            i <= exts@.len(),
            olen == old_img@.len(),
            src_concat(old_img@, exts@, bs as int) == out@ + src_concat(
                old_img@,
                exts@.skip(i as int),
                bs as int,
            ),
            forall|k: int|
                0 <= k < i ==> (#[trigger] exts@[k]).start() * bs + exts@[k].blocks() * bs
                    <= olen,
        decreases exts@.len() - i,
    {
        let ghost tail = exts@.skip(i as int);
        proof {
            assert(tail[0] == exts@[i as int]);
            assert(tail.drop_first() =~= exts@.skip(i as int + 1));
        }
        let ext = exts[i];
        let off_u64 = match ext.start_value().checked_mul(bs) {
            Some(o) => o,
            None => {
                return Err(OpError::SourceExtentOutOfRange);
            },
        };
        let sz_u64 = match ext.blocks_value().checked_mul(bs) {
            Some(s) => s,
            None => {
                return Err(OpError::SourceExtentOutOfRange);
            },
        };
        let end_u64 = match off_u64.checked_add(sz_u64) {
            Some(e) => e,
            None => {
                return Err(OpError::SourceExtentOutOfRange);
            },
        };
        if end_u64 > olen as u64 {
            return Err(OpError::SourceExtentOutOfRange);
        }
        let part = vstd::slice::slice_subrange(old_img, off_u64 as usize, end_u64 as usize);
        let ghost prev = out@;
        out.extend_from_slice(part);
        proof {
            assert(prev + (part@ + src_concat(old_img@, exts@.skip(i as int + 1), bs as int))
                =~= out@ + src_concat(old_img@, exts@.skip(i as int + 1), bs as int));
        }
        i = i + 1;
    }
    proof {
        assert(exts@.skip(i as int) =~= Seq::<Extent>::empty());
        assert(out@ + Seq::<u8>::empty() =~= out@);
    }
    Ok(out)
}

/// The byte view of an optional old image.
pub open spec fn view_opt(old_image: Option<&Vec<u8>>) -> Option<Seq<u8>> {
    match old_image {
        Some(v) => Some(v@),
        None => None,
    }
}

/// The image one operation leaves behind, `None` when the operation
/// fails fatally: its bytes lie outside the payload, it needs an old
/// image it does not have, a source extent lies outside the old image,
/// an operation that writes at its first destination extent has none, or
/// a write cannot fit in memory. A skipped operation — hash mismatch,
/// malformed stream or patch, unknown type — leaves the image as it is;
/// a short decoded buffer leaves the extents written as far as it
/// reached.
pub open spec fn op_step(
    img: Seq<u8>,
    op: InstallOperation,
    payload: Seq<u8>,
    data_offset: int,
    bs: int,
    old_img: Option<Seq<u8>>,
) -> Option<Seq<u8>> {
    if !op_data_in_bounds(payload, data_offset, op) {
        None
    } else {
        let data = op_data_spec(payload, data_offset, op);
        if data_hash_mismatch(op, data) {
            Some(img)
        } else {
            match spec_op_type(op.op_type) {
                None => Some(img),
                Some(OpType::Replace) => replace_run(img, op.dst_extents@, data, bs),
                Some(OpType::ReplaceXz) => match xz_decoded(data) {
                    None => Some(img),
                    Some(d) => replace_run(img, op.dst_extents@, d, bs),
                },
                Some(OpType::ReplaceBz) => match bz2_decoded(data) {
                    None => Some(img),
                    Some(d) => replace_run(img, op.dst_extents@, d, bs),
                },
                Some(OpType::Zstd) => match zstd_decoded(data) {
                    None => Some(img),
                    Some(d) => distribute_run(img, op.dst_extents@, d, 0, bs),
                },
                Some(OpType::SourceCopy) => match old_img {
                    None => None,
                    Some(o) => if !src_extents_in_bounds(o.len() as int, op.src_extents@, bs) {
                        None
                    } else {
                        replace_run(img, op.dst_extents@, src_concat(o, op.src_extents@, bs), bs)
                    },
                },
                Some(OpType::SourceBsdiff) | Some(OpType::BrotliBsdiff) => match old_img {
                    None => None,
                    Some(o) => if !src_extents_in_bounds(o.len() as int, op.src_extents@, bs) {
                        None
                    } else {
                        match bspatch_applied(src_concat(o, op.src_extents@, bs), data) {
                            None => Some(img),
                            Some(nd) => distribute_run(img, op.dst_extents@, nd, 0, bs),
                        }
                    },
                },
                Some(OpType::Zero) => zero_run(img, op.dst_extents@, bs),
            }
        }
    }
}

/// Which fatal error a failing operation reports, by the first failing
/// check in the interpreter's order: the data slice's bounds, then — for
/// the differential kinds — the old image's presence and its source
/// extents, then the destination write.
pub open spec fn op_error_of(
    op: InstallOperation,
    payload: Seq<u8>,
    data_offset: int,
    bs: int,
    old_img: Option<Seq<u8>>,
) -> OpError
    recommends
        op_step(
            Seq::empty(),
            op,
            payload,
            data_offset,
            bs,
            old_img,
        ) is None,
{
    if !op_data_in_bounds(payload, data_offset, op) {
        OpError::DataOutOfRange
    } else {
        match spec_op_type(op.op_type) {
            Some(OpType::SourceCopy) => match old_img {
                None => OpError::MissingOldImage,
                Some(o) => if !src_extents_in_bounds(o.len() as int, op.src_extents@, bs) {
                    OpError::SourceExtentOutOfRange
                } else if op.dst_extents@.len() == 0 {
                    OpError::MissingDstExtents
                } else {
                    OpError::WriteTooLarge
                },
            },
            Some(OpType::SourceBsdiff) | Some(OpType::BrotliBsdiff) => match old_img {
                None => OpError::MissingOldImage,
                Some(o) => if !src_extents_in_bounds(o.len() as int, op.src_extents@, bs) {
                    OpError::SourceExtentOutOfRange
                } else {
                    OpError::WriteTooLarge
                },
            },
            Some(OpType::Replace) | Some(OpType::ReplaceXz) | Some(OpType::ReplaceBz) => (
            if op.dst_extents@.len() == 0 {
                OpError::MissingDstExtents
            } else {
                OpError::WriteTooLarge
            }),
            Some(OpType::Zstd) | Some(OpType::Zero) => OpError::WriteTooLarge,
            // An unknown type is skipped, never fatal; no call reaches
            // this arm with a failing step.
            None => OpError::DataOutOfRange,
        }
    }
}

/// How the operation ends when it does not fail fatally. The outcome
/// depends on the operation, the payload and the old image alone, never
/// on the image being written; where the step fails — a differential
/// kind with no old image, among others — the value is meaningless.
pub open spec fn op_outcome(
    op: InstallOperation,
    payload: Seq<u8>,
    data_offset: int,
    bs: int,
    old_img: Option<Seq<u8>>,
) -> OpOutcome {
    let data = op_data_spec(payload, data_offset, op);
    if data_hash_mismatch(op, data) {
        OpOutcome::DataHashMismatch
    } else {
        match spec_op_type(op.op_type) {
            None => OpOutcome::UnknownType,
            Some(OpType::Replace) => OpOutcome::Applied,
            Some(OpType::ReplaceXz) => if xz_decoded(data) is None {
                OpOutcome::DecompressFailed
            } else {
                OpOutcome::Applied
            },
            Some(OpType::ReplaceBz) => if bz2_decoded(data) is None {
                OpOutcome::DecompressFailed
            } else {
                OpOutcome::Applied
            },
            Some(OpType::Zstd) => match zstd_decoded(data) {
                None => OpOutcome::DecompressFailed,
                Some(d) => if sum_extent_bytes(op.dst_extents@, bs) <= d.len() {
                    OpOutcome::Applied
                } else {
                    OpOutcome::InsufficientData
                },
            },
            Some(OpType::SourceCopy) => OpOutcome::Applied,
            Some(OpType::SourceBsdiff) | Some(OpType::BrotliBsdiff) => match old_img {
                // A missing old image fails the step, so no outcome is
                // ever reported for this arm; the value is a placeholder.
                None => OpOutcome::Applied,
                Some(o) => match bspatch_applied(src_concat(o, op.src_extents@, bs), data) {
                    None => OpOutcome::PatchFailed,
                    Some(nd) => if sum_extent_bytes(op.dst_extents@, bs) <= nd.len() {
                        OpOutcome::Applied
                    } else {
                        OpOutcome::InsufficientData
                    },
                },
            },
            Some(OpType::Zero) => OpOutcome::Applied,
        }
    }
}

/// Interpret one install operation against the in-memory output image.
///
/// The operation's bytes are fetched from the payload at
/// `data_offset + op.data_offset`, checked against the operation's hash
/// when one is present, decoded as the type asks, and written at the
/// destination extents. `Ok` reports how the operation ended — applied
/// or skipped, and why — and the image then holds exactly what the
/// operation's step function says; `Err` reports a failure that is fatal
/// for the partition.
pub fn process_operation(
    op: &InstallOperation,
    data_offset: u64,
    block_size: u64,
    payload: &[u8],
    out_image: &mut Vec<u8>,
    old_image: Option<&Vec<u8>>,
) -> (r: Result<OpOutcome, OpError>)
    ensures
        r is Ok <==> op_step(
            old(out_image)@,
            *op,
            payload@,
            data_offset as int,
            block_size as int,
            view_opt(old_image),
        ) is Some,
        match r {
            Ok(outcome) => {
                &&& Some(final(out_image)@) == op_step(
                    old(out_image)@,
                    *op,
                    payload@,
                    data_offset as int,
                    block_size as int,
                    view_opt(old_image),
                )
                &&& outcome == op_outcome(
                    *op,
                    payload@,
                    data_offset as int,
                    block_size as int,
                    view_opt(old_image),
                )
            },
            Err(e) => e == op_error_of(
                *op,
                payload@,
                data_offset as int,
                block_size as int,
                view_opt(old_image),
            ),
        },
{
    let data = match op_data(payload, data_offset, op) {
        Ok(d) => d,
        Err(e) => {
            return Err(e);
        },
    };
    let has_hash = match &op.data_sha256_hash {
        Some(h) => h.len() > 0,
        None => false,
    };
    if has_hash {
        let expected = match &op.data_sha256_hash {
            Some(h) => h.as_slice(),
            None => data,
        };
        if !verify_hash(data, expected) {
            return Ok(OpOutcome::DataHashMismatch);
        }
    }
    match op.kind_value() {
        None => Ok(OpOutcome::UnknownType),
        Some(OpType::Replace) => {
            match apply_replace(out_image, &op.dst_extents, data, block_size) {
                Ok(()) => Ok(OpOutcome::Applied),
                Err(e) => Err(e),
            }
        },
        Some(OpType::ReplaceXz) => {
            match xz_decompress(data) {
                None => Ok(OpOutcome::DecompressFailed),
                Some(d) => {
                    match apply_replace(out_image, &op.dst_extents, d.as_slice(), block_size) {
                        Ok(()) => Ok(OpOutcome::Applied),
                        Err(e) => Err(e),
                    }
                },
            }
        },
        Some(OpType::ReplaceBz) => {
            match bz2_decompress(data) {
                None => Ok(OpOutcome::DecompressFailed),
                Some(d) => {
                    match apply_replace(out_image, &op.dst_extents, d.as_slice(), block_size) {
                        Ok(()) => Ok(OpOutcome::Applied),
                        Err(e) => Err(e),
                    }
                },
            }
        },
        Some(OpType::Zstd) => {
            match zstd_decompress(data) {
                None => Ok(OpOutcome::DecompressFailed),
                Some(d) => {
                    match apply_distribute(out_image, &op.dst_extents, d.as_slice(), block_size) {
                        Ok(true) => Ok(OpOutcome::Applied),
                        Ok(false) => Ok(OpOutcome::InsufficientData),
                        Err(e) => Err(e),
                    }
                },
            }
        },
        Some(OpType::SourceCopy) => {
            let old_img = match old_image {
                Some(o) => o,
                None => {
                    return Err(OpError::MissingOldImage);
                },
            };
            let gathered = match read_src_extents(old_img.as_slice(), &op.src_extents, block_size) {
                Ok(v) => v,
                Err(e) => {
                    return Err(e);
                },
            };
            match apply_replace(out_image, &op.dst_extents, gathered.as_slice(), block_size) {
                Ok(()) => Ok(OpOutcome::Applied),
                Err(e) => Err(e),
            }
        },
        Some(OpType::SourceBsdiff) | Some(OpType::BrotliBsdiff) => {
            let old_img = match old_image {
                Some(o) => o,
                None => {
                    return Err(OpError::MissingOldImage);
                },
            };
            let gathered = match read_src_extents(old_img.as_slice(), &op.src_extents, block_size) {
                Ok(v) => v,
                Err(e) => {
                    return Err(e);
                },
            };
            match bspatch(gathered.as_slice(), data) {
                None => Ok(OpOutcome::PatchFailed),
                Some(nd) => {
                    match apply_distribute(out_image, &op.dst_extents, nd.as_slice(), block_size) {
                        Ok(true) => Ok(OpOutcome::Applied),
                        Ok(false) => Ok(OpOutcome::InsufficientData),
                        Err(e) => Err(e),
                    }
                },
            }
        },
        Some(OpType::Zero) => {
            match apply_zero(out_image, &op.dst_extents, block_size) {
                Ok(()) => Ok(OpOutcome::Applied),
                Err(e) => Err(e),
            }
        },
    }
}

} // verus!
