//! Laws the extraction pipeline obeys, stated over the same spec
//! functions its contracts use.

use vstd::prelude::*;

verus! {

use crate::extract::initial_size;
use crate::extract::run_ops;
use crate::hashing::sha256_of;
use crate::manifest::Extent;
use crate::manifest::InstallOperation;
use crate::manifest::OpType;
use crate::manifest::PartitionUpdate;
use crate::manifest::spec_op_type;
use crate::ops::data_hash_mismatch;
use crate::ops::op_data_in_bounds;
use crate::ops::op_data_spec;
use crate::ops::op_outcome;
use crate::ops::op_step;
use crate::ops::src_concat;
use crate::ops::src_extents_in_bounds;
use crate::ops::write_at_spec;
use crate::ops::zero_run;
use crate::ops::zeros;
use crate::verify::image_mismatches;

/// Extraction is a function of the payload, the manifest entry and the
/// old image: two runs over the same inputs leave the same image.
pub proof fn lemma_extraction_deterministic(
    r1: Option<Seq<u8>>,
    r2: Option<Seq<u8>>,
    partition: PartitionUpdate,
    payload: Seq<u8>,
    data_offset: int,
    bs: int,
    old_img: Option<Seq<u8>>,
)
    requires
        r1 == run_ops(
            zeros(initial_size(partition)),
            partition.operations@,
            payload,
            data_offset,
            bs,
            old_img,
        ),
        r2 == run_ops(
            zeros(initial_size(partition)),
            partition.operations@,
            payload,
            data_offset,
            bs,
            old_img,
        ),
    ensures
        r1 == r2,
{
}

/// Writes to disjoint byte ranges commute: applying them in either
/// order leaves the same image.
pub proof fn lemma_disjoint_writes_commute(
    img: Seq<u8>,
    off1: int,
    d1: Seq<u8>,
    off2: int,
    d2: Seq<u8>,
)
    requires
        off1 >= 0,
        off2 >= 0,
        off1 + d1.len() <= off2 || off2 + d2.len() <= off1,
    ensures
        write_at_spec(write_at_spec(img, off1, d1), off2, d2) == write_at_spec(
            write_at_spec(img, off2, d2),
            off1,
            d1,
        ),
{
    assert(write_at_spec(write_at_spec(img, off1, d1), off2, d2) =~= write_at_spec(
        write_at_spec(img, off2, d2),
        off1,
        d1,
    ));
}

/// Reading back the range a write covered returns exactly the written
/// bytes.
pub proof fn lemma_write_read_back(img: Seq<u8>, off: int, data: Seq<u8>)
    requires
        off >= 0,
    ensures
        write_at_spec(img, off, data).subrange(off, off + data.len()) == data,
{
    assert(write_at_spec(img, off, data).subrange(off, off + data.len()) =~= data);
}

/// A `SourceCopy` operation that is not skipped writes the old image's
/// source extents, concatenated in order, at the first destination
/// extent's start.
pub proof fn lemma_source_copy_concatenates(
    img: Seq<u8>,
    op: InstallOperation,
    payload: Seq<u8>,
    data_offset: int,
    bs: int,
    old_img: Seq<u8>,
)
    requires
        spec_op_type(op.op_type) == Some(OpType::SourceCopy),
        op_data_in_bounds(payload, data_offset, op),
        !data_hash_mismatch(op, op_data_spec(payload, data_offset, op)),
        src_extents_in_bounds(old_img.len() as int, op.src_extents@, bs),
        op.dst_extents@.len() > 0,
        op.dst_extents@[0].start() * bs + src_concat(old_img, op.src_extents@, bs).len()
            <= usize::MAX,
    ensures
        op_step(img, op, payload, data_offset, bs, Some(old_img)) == Some(
            write_at_spec(
                img,
                op.dst_extents@[0].start() * bs,
                src_concat(old_img, op.src_extents@, bs),
            ),
        ),
{
}

/// Writing zeros over extents only grows the image, and any byte range
/// that read as zeros before still does.
proof fn lemma_zero_run_preserves_zeros(img: Seq<u8>, exts: Seq<Extent>, bs: int, lo: int, hi: int)
    requires
        bs >= 0,
        0 <= lo <= hi <= img.len(),
        forall|i: int| lo <= i < hi ==> img[i] == 0u8,
        zero_run(img, exts, bs) is Some,
    ensures
        zero_run(img, exts, bs)->Some_0.len() >= img.len(),
        forall|i: int| lo <= i < hi ==> zero_run(img, exts, bs)->Some_0[i] == 0u8,
    decreases exts.len(),
{
    if exts.len() > 0 {
        let next = write_at_spec(img, exts[0].start() * bs, zeros(exts[0].blocks() * bs));
        assert(forall|i: int| lo <= i < hi ==> next[i] == 0u8);
        lemma_zero_run_preserves_zeros(next, exts.drop_first(), bs, lo, hi);
    }
}

/// After a `Zero` run, every extent's byte range reads as zeros, so its
/// SHA-256 is the SHA-256 of that many zero bytes.
pub proof fn lemma_zero_extent_reads_zeros(img: Seq<u8>, exts: Seq<Extent>, bs: int, j: int)
    requires
        bs >= 0,
        0 <= j < exts.len(),
        zero_run(img, exts, bs) is Some,
    ensures
        ({
            let res = zero_run(img, exts, bs)->Some_0;
            let lo = exts[j].start() * bs;
            let hi = exts[j].start() * bs + exts[j].blocks() * bs;
            &&& hi <= res.len()
            &&& res.subrange(lo, hi) == zeros(exts[j].blocks() * bs)
            &&& sha256_of(res.subrange(lo, hi)) == sha256_of(zeros(exts[j].blocks() * bs))
        }),
    decreases exts.len(),
{
    let next = write_at_spec(img, exts[0].start() * bs, zeros(exts[0].blocks() * bs));
    if j == 0 {
        let lo = exts[0].start() * bs;
        let hi = exts[0].start() * bs + exts[0].blocks() * bs;
        assert(hi <= next.len());
        assert(forall|i: int| lo <= i < hi ==> next[i] == 0u8);
        lemma_zero_run_preserves_zeros(next, exts.drop_first(), bs, lo, hi);
        let res = zero_run(img, exts, bs)->Some_0;
        assert(res.subrange(lo, hi) =~= zeros(exts[0].blocks() * bs));
    } else {
        lemma_zero_extent_reads_zeros(next, exts.drop_first(), bs, j - 1);
        assert(exts.drop_first()[j - 1] == exts[j]);
    }
}

/// Byte ranges of distinct extents never overlap.
pub open spec fn extents_disjoint(exts: Seq<Extent>, bs: int) -> bool {
    forall|i: int, j: int|
        #![trigger exts[i], exts[j]]
        0 <= i < j < exts.len() ==> exts[i].start() * bs + exts[i].blocks() * bs <= exts[j].start()
            * bs || exts[j].start() * bs + exts[j].blocks() * bs <= exts[i].start() * bs
}

/// Distributing data over extents only grows the image, and a byte range
/// disjoint from every extent keeps its values.
proof fn lemma_distribute_preserves_range(
    img: Seq<u8>,
    exts: Seq<Extent>,
    data: Seq<u8>,
    pos: int,
    bs: int,
    lo: int,
    hi: int,
)
    requires
        bs >= 0,
        0 <= pos,
        0 <= lo <= hi <= img.len(),
        forall|k: int|
            0 <= k < exts.len() ==> hi <= (#[trigger] exts[k]).start() * bs || exts[k].start()
                * bs + exts[k].blocks() * bs <= lo,
        crate::ops::distribute_run(img, exts, data, pos, bs) is Some,
    ensures
        crate::ops::distribute_run(img, exts, data, pos, bs)->Some_0.len() >= img.len(),
        forall|i: int|
            lo <= i < hi ==> crate::ops::distribute_run(img, exts, data, pos, bs)->Some_0[i]
                == img[i],
    decreases exts.len(),
{
    if exts.len() > 0 {
        let sz = exts[0].blocks() * bs;
        if pos + sz <= data.len() {
            vstd::arithmetic::mul::lemma_mul_nonnegative(exts[0].blocks(), bs);
            vstd::arithmetic::mul::lemma_mul_nonnegative(exts[0].start(), bs);
            let next = write_at_spec(img, exts[0].start() * bs, data.subrange(pos, pos + sz));
            assert(hi <= exts[0].start() * bs || exts[0].start() * bs + exts[0].blocks() * bs
                <= lo);
            assert(data.subrange(pos, pos + sz).len() == sz);
            assert forall|i: int| lo <= i < hi implies next[i] == img[i] by {
                assert(i < img.len());
                assert(next.len() >= img.len());
                if hi <= exts[0].start() * bs {
                    assert(i < exts[0].start() * bs);
                } else {
                    assert(exts[0].start() * bs + sz <= lo);
                }
            }
            assert(forall|k: int|
                0 <= k < exts.drop_first().len() ==> exts.drop_first()[k] == exts[k + 1]);
            assert(crate::ops::distribute_run(img, exts, data, pos, bs)
                == crate::ops::distribute_run(next, exts.drop_first(), data, pos + sz, bs));
            lemma_distribute_preserves_range(
                next,
                exts.drop_first(),
                data,
                pos + sz,
                bs,
                lo,
                hi,
            );
        }
    }
}

/// Distribution writes the extents in order: when the extents are
/// pairwise disjoint and the data reaches through all of them, reading
/// back any extent's byte range returns exactly the slice of the data
/// that fell to it — the bytes after those the earlier extents took.
pub proof fn lemma_distribute_extent_read_back(
    img: Seq<u8>,
    exts: Seq<Extent>,
    data: Seq<u8>,
    pos: int,
    bs: int,
    j: int,
)
    requires
        bs >= 0,
        0 <= pos,
        0 <= j < exts.len(),
        extents_disjoint(exts, bs),
        pos + crate::ops::sum_extent_bytes(exts, bs) <= data.len(),
        crate::ops::distribute_run(img, exts, data, pos, bs) is Some,
    ensures
        ({
            let res = crate::ops::distribute_run(img, exts, data, pos, bs)->Some_0;
            let lo = exts[j].start() * bs;
            let sz = exts[j].blocks() * bs;
            let off = pos + crate::ops::sum_extent_bytes(exts.take(j), bs);
            &&& lo + sz <= res.len()
            &&& res.subrange(lo, lo + sz) == data.subrange(off, off + sz)
        }),
    decreases exts.len(),
{
    let sz0 = exts[0].blocks() * bs;
    let s0 = exts[0].start() * bs;
    vstd::arithmetic::mul::lemma_mul_nonnegative(exts[0].blocks(), bs);
    vstd::arithmetic::mul::lemma_mul_nonnegative(exts[0].start(), bs);
    crate::ops::lemma_sum_extent_bytes_nonneg(exts.drop_first(), bs);
    assert(pos + sz0 <= data.len());
    let next = write_at_spec(img, s0, data.subrange(pos, pos + sz0));
    assert(crate::ops::distribute_run(img, exts, data, pos, bs) == crate::ops::distribute_run(
        next,
        exts.drop_first(),
        data,
        pos + sz0,
        bs,
    ));
    if j == 0 {
        assert(s0 + sz0 <= next.len());
        assert(forall|i: int| s0 <= i < s0 + sz0 ==> next[i] == data[pos + (i - s0)]);
        assert(forall|k: int|
            0 <= k < exts.drop_first().len() ==> exts.drop_first()[k] == exts[k + 1]);
        assert(forall|k: int|
            0 <= k < exts.drop_first().len() ==> s0 + sz0 <= (
            #[trigger] exts.drop_first()[k]).start() * bs || exts.drop_first()[k].start() * bs
                + exts.drop_first()[k].blocks() * bs <= s0);
        lemma_distribute_preserves_range(
            next,
            exts.drop_first(),
            data,
            pos + sz0,
            bs,
            s0,
            s0 + sz0,
        );
        let res = crate::ops::distribute_run(img, exts, data, pos, bs)->Some_0;
        let rest = crate::ops::distribute_run(next, exts.drop_first(), data, pos + sz0, bs)
            ->Some_0;
        assert(res == rest);
        assert(exts.take(0) =~= Seq::<Extent>::empty());
        assert(data.subrange(pos, pos + sz0).len() == sz0);
        assert forall|k: int|
            0 <= k < sz0 implies #[trigger] res.subrange(s0, s0 + sz0)[k] == data.subrange(
            pos,
            pos + sz0,
        )[k] by {
            assert(rest[s0 + k] == next[s0 + k]);
            assert(next[s0 + k] == data.subrange(pos, pos + sz0)[k]);
        }
        assert(res.subrange(s0, s0 + sz0) =~= data.subrange(pos, pos + sz0));
    } else {
        assert(forall|k: int|
            0 <= k < exts.drop_first().len() ==> exts.drop_first()[k] == exts[k + 1]);
        lemma_distribute_extent_read_back(next, exts.drop_first(), data, pos + sz0, bs, j - 1);
        assert(exts.drop_first()[j - 1] == exts[j]);
        assert(exts.take(j).drop_first() =~= exts.drop_first().take(j - 1));
        assert(exts.take(j)[0] == exts[0]);
        assert(crate::ops::sum_extent_bytes(exts.take(j), bs) == sz0
            + crate::ops::sum_extent_bytes(exts.drop_first().take(j - 1), bs));
    }
}

/// An operation that carries a non-empty hash and is not reported as a
/// hash mismatch fetched bytes whose SHA-256 equals that hash.
pub proof fn lemma_operation_hash_gate(
    op: InstallOperation,
    payload: Seq<u8>,
    data_offset: int,
    bs: int,
    old_img: Option<Seq<u8>>,
)
    requires
        op.data_sha256_hash is Some,
        op.data_sha256_hash->Some_0@.len() > 0,
        op_outcome(op, payload, data_offset, bs, old_img)
            != crate::ops::OpOutcome::DataHashMismatch,
    ensures
        sha256_of(op_data_spec(payload, data_offset, op)) == op.data_sha256_hash->Some_0@,
{
}

/// When the bulk verifier reports no failed names, no partition's
/// produced image fails its recorded hash: for every partition with a
/// non-empty new-image hash, the image's SHA-256 equals it.
pub proof fn lemma_bulk_verify_clean(
    parts: Seq<PartitionUpdate>,
    images: Seq<Vec<u8>>,
    i: int,
)
    requires
        parts.len() == images.len(),
        crate::verify::failed_name_views(parts, images).len() == 0,
        0 <= i < parts.len(),
    ensures
        !image_mismatches(parts[i], images[i]@),
    decreases parts.len(),
{
    if i > 0 {
        lemma_bulk_verify_clean(parts.drop_first(), images.drop_first(), i - 1);
    }
}

/// A partition that passes verification and records a non-empty
/// new-image hash produced an image whose SHA-256 equals that hash.
pub proof fn lemma_verified_image_hash(p: PartitionUpdate, image: Seq<u8>)
    requires
        !image_mismatches(p, image),
        p.new_partition_info is Some,
        p.new_partition_info->Some_0.hash is Some,
        p.new_partition_info->Some_0.hash->Some_0@.len() > 0,
    ensures
        sha256_of(image) == p.new_partition_info->Some_0.hash->Some_0@,
{
}

} // verus!
