//! Per-partition extraction: run every install operation, in order,
//! against an in-memory output image.
//!
//! The image starts as zeros of the announced new size, so an operation
//! set that leaves gaps leaves them zero — the in-memory counterpart of a
//! pre-sized sparse file. When the manifest announces no size the image
//! starts empty and ends at whatever size the operations produce.

use vstd::prelude::*;

verus! {

use crate::hashing::sha256;
use crate::hashing::sha256_of;
use crate::hashing::verify_hash;
use crate::manifest::PartitionInfo;
use crate::manifest::PartitionUpdate;
use crate::ops::OpError;
use crate::ops::OpOutcome;
use crate::ops::op_outcome;
use crate::ops::op_step;
use crate::ops::process_operation;
use crate::ops::view_opt;
use crate::ops::zeros;

/// A failure that abandons one partition; other partitions go on.
#[derive(Clone, Copy, Debug, PartialEq, Eq, Structural)]
pub enum PartitionError {
    /// The provided old image does not match `old_partition_info.hash`.
    OldHashMismatch,
    /// The announced new size does not fit in memory.
    ImageTooLarge,
    /// The operation at `index` failed fatally.
    Operation { index: usize, error: OpError },
}

/// What extracting one partition produced.
pub struct DumpResult {
    /// The produced partition image.
    pub image: Vec<u8>,
    /// How each operation ended, in operation order.
    pub outcomes: Vec<OpOutcome>,
    /// The image's SHA-256, computed for display exactly when the
    /// manifest carries no non-empty expected hash for the new image.
    pub unverified_hash: Option<Vec<u8>>,
}

/// The image every operation of the sequence leaves behind, each
/// starting from the last, `None` as soon as one fails fatally.
pub open spec fn run_ops(
    img: Seq<u8>,
    ops: Seq<crate::manifest::InstallOperation>,
    payload: Seq<u8>,
    data_offset: int,
    bs: int,
    old_img: Option<Seq<u8>>,
) -> Option<Seq<u8>>
    decreases ops.len(),
{
    if ops.len() == 0 {
        Some(img)
    } else {
        match op_step(img, ops[0], payload, data_offset, bs, old_img) {
            None => None,
            Some(next) => run_ops(next, ops.drop_first(), payload, data_offset, bs, old_img),
        }
    }
}

/// The size the output image starts at: the announced new size when one
/// is present and positive, otherwise zero.
pub open spec fn initial_size(p: PartitionUpdate) -> int {
    match p.new_partition_info {
        Some(info) => match info.size {
            Some(s) => s as int,
            None => 0,
        },
        None => 0,
    }
}

/// Whether the provided old image passes the manifest's old-image hash:
/// no old image, no recorded info, or no non-empty hash passes; a
/// non-empty hash must equal the old image's SHA-256.
pub open spec fn old_check_ok(old_img: Option<Seq<u8>>, info: Option<PartitionInfo>) -> bool {
    match (old_img, info) {
        (Some(o), Some(pi)) => match pi.hash {
            Some(h) => h@.len() == 0 || sha256_of(o) == h@,
            None => true,
        },
        _ => true,
    }
}

/// Whether the partition's new-image hash is absent or empty, in which
/// case extraction reports the produced image's digest for display only.
pub open spec fn wants_display_hash(p: PartitionUpdate) -> bool {
    match p.new_partition_info {
        Some(info) => match info.hash {
            Some(h) => h@.len() == 0,
            None => true,
        },
        None => false,
    }
}

/// Extract one partition: check the old image against its recorded hash,
/// start from zeros of the announced size, and run every operation in
/// manifest order. `Ok` holds the produced image — exactly what the
/// operations' step functions, chained, say it is — with each
/// operation's outcome; `Err` names the first check or operation that
/// failed the partition.
pub fn dump_partition(
    partition: &PartitionUpdate,
    data_offset: u64,
    block_size: u64,
    payload: &[u8],
    old_image: Option<&Vec<u8>>,
) -> (r: Result<DumpResult, PartitionError>)
    ensures
        r is Ok <==> {
            &&& old_check_ok(view_opt(old_image), partition.old_partition_info)
            &&& initial_size(*partition) <= usize::MAX
            &&& run_ops(
                zeros(initial_size(*partition)),
                partition.operations@,
                payload@,
                data_offset as int,
                block_size as int,
                view_opt(old_image),
            ) is Some
        },
        match r {
            Ok(res) => {
                &&& Some(res.image@) == run_ops(
                    zeros(initial_size(*partition)),
                    partition.operations@,
                    payload@,
                    data_offset as int,
                    block_size as int,
                    view_opt(old_image),
                )
                &&& res.outcomes@.len() == partition.operations@.len()
                &&& forall|i: int|
                    0 <= i < res.outcomes@.len() ==> res.outcomes@[i] == op_outcome(
                        #[trigger] partition.operations@[i],
                        payload@,
                        data_offset as int,
                        block_size as int,
                        view_opt(old_image),
                    )
                &&& match res.unverified_hash {
                    Some(h) => wants_display_hash(*partition) && h@ == sha256_of(res.image@),
                    None => !wants_display_hash(*partition),
                }
            },
            Err(e) => match e {
                PartitionError::OldHashMismatch => !old_check_ok(
                    view_opt(old_image),
                    partition.old_partition_info,
                ),
                PartitionError::ImageTooLarge => {
                    &&& old_check_ok(view_opt(old_image), partition.old_partition_info)
                    &&& initial_size(*partition) > usize::MAX
                },
                PartitionError::Operation { index, error } => {
                    &&& old_check_ok(view_opt(old_image), partition.old_partition_info)
                    &&& initial_size(*partition) <= usize::MAX
                    &&& index < partition.operations@.len()
                    &&& error == crate::ops::op_error_of(
                        partition.operations@[index as int],
                        payload@,
                        data_offset as int,
                        block_size as int,
                        view_opt(old_image),
                    )
                    &&& {
                        let upto = run_ops(
                            zeros(initial_size(*partition)),
                            partition.operations@.take(index as int),
                            payload@,
                            data_offset as int,
                            block_size as int,
                            view_opt(old_image),
                        );
                        &&& upto is Some
                        &&& op_step(
                            upto->Some_0,
                            partition.operations@[index as int],
                            payload@,
                            data_offset as int,
                            block_size as int,
                            view_opt(old_image),
                        ) is None
                    }
                },
            },
        },
{
    let old_ok = match (old_image, &partition.old_partition_info) {
        (Some(o), Some(pi)) => match &pi.hash {
            Some(h) => verify_hash(o.as_slice(), h.as_slice()),
            None => true,
        },
        _ => true,
    };
    if !old_ok {
        return Err(PartitionError::OldHashMismatch);
    }
    let announced: u64 = match &partition.new_partition_info {
        Some(info) => match info.size {
            Some(s) => s,
            None => 0,
        },
        None => 0,
    };
    if announced > usize::MAX as u64 {
        return Err(PartitionError::ImageTooLarge);
    }
    let mut image: Vec<u8> = vec![0u8; announced as usize];
    proof {
        assert(image@ =~= zeros(initial_size(*partition)));
    }
    let mut outcomes: Vec<OpOutcome> = Vec::new();
    let mut i: usize = 0;
    let ghost img0 = image@;
    proof {
        assert(partition.operations@.skip(0) =~= partition.operations@);
    }
    while i < partition.operations.len()
        invariant
            i <= partition.operations@.len(),
            outcomes@.len() == i,
            img0 == zeros(initial_size(*partition)),
            old_check_ok(view_opt(old_image), partition.old_partition_info),
            initial_size(*partition) <= usize::MAX,
            run_ops(
                img0,
                partition.operations@,
                payload@,
                data_offset as int,
                block_size as int,
                view_opt(old_image),
            ) == run_ops(
                image@,
                partition.operations@.skip(i as int),
                payload@,
                data_offset as int,
                block_size as int,
                view_opt(old_image),
            ),
            Some(image@) == run_ops(
                img0,
                partition.operations@.take(i as int),
                payload@,
                data_offset as int,
                block_size as int,
                view_opt(old_image),
            ),
            forall|k: int|
                0 <= k < i ==> outcomes@[k] == op_outcome(
                    #[trigger] partition.operations@[k],
                    payload@,
                    data_offset as int,
                    block_size as int,
                    view_opt(old_image),
                ),
        decreases partition.operations@.len() - i,
    {
        let ghost tail = partition.operations@.skip(i as int);
        proof {
            assert(tail[0] == partition.operations@[i as int]);
            assert(tail.drop_first() =~= partition.operations@.skip(i as int + 1));
        }
        let op = &partition.operations[i];
        let ghost before = image@;
        match process_operation(op, data_offset, block_size, payload, &mut image, old_image) {
            Ok(outcome) => {
                outcomes.push(outcome);
                proof {
                    assert(run_ops(
                        img0,
                        partition.operations@.take(i as int),
                        payload@,
                        data_offset as int,
                        block_size as int,
                        view_opt(old_image),
                    ) == Some(before));
                    assert(partition.operations@.take(i as int).push(
                        partition.operations@[i as int],
                    ) =~= partition.operations@.take(i as int + 1));
                    lemma_run_ops_snoc(
                        img0,
                        partition.operations@.take(i as int),
                        partition.operations@[i as int],
                        payload@,
                        data_offset as int,
                        block_size as int,
                        view_opt(old_image),
                    );
                }
                i = i + 1;
            },
            Err(e) => {
                proof {
                    assert(op_step(
                        before,
                        partition.operations@[i as int],
                        payload@,
                        data_offset as int,
                        block_size as int,
                        view_opt(old_image),
                    ) is None);
                    assert(run_ops(
                        before,
                        partition.operations@.skip(i as int),
                        payload@,
                        data_offset as int,
                        block_size as int,
                        view_opt(old_image),
                    ) is None);
                    assert(run_ops(
                        img0,
                        partition.operations@.take(i as int),
                        payload@,
                        data_offset as int,
                        block_size as int,
                        view_opt(old_image),
                    ) == Some(before));
                }
                return Err(PartitionError::Operation { index: i, error: e });
            },
        }
    }
    proof {
        assert(partition.operations@.skip(i as int) =~= Seq::<
            crate::manifest::InstallOperation,
        >::empty());
    }
    let unverified_hash = match &partition.new_partition_info {
        Some(info) => {
            let hash_missing = match &info.hash {
                Some(h) => h.len() == 0,
                None => true,
            };
            if hash_missing {
                Some(sha256(image.as_slice()))
            } else {
                None
            }
        },
        None => None,
    };
    Ok(DumpResult { image, outcomes, unverified_hash })
}

/// Chaining one more operation onto a run applies its step to whatever
/// the run produced.
pub proof fn lemma_run_ops_snoc(
    img: Seq<u8>,
    ops: Seq<crate::manifest::InstallOperation>,
    op: crate::manifest::InstallOperation,
    payload: Seq<u8>,
    data_offset: int,
    bs: int,
    old_img: Option<Seq<u8>>,
)
    ensures
        run_ops(img, ops.push(op), payload, data_offset, bs, old_img) == match run_ops(
            img,
            ops,
            payload,
            data_offset,
            bs,
            old_img,
        ) {
            None => None,
            Some(m) => op_step(m, op, payload, data_offset, bs, old_img),
        },
    decreases ops.len(),
{
    if ops.len() == 0 {
        reveal_with_fuel(run_ops, 3);
        assert(ops.push(op)[0] == op);
        assert(ops.push(op).drop_first() =~= Seq::<crate::manifest::InstallOperation>::empty());
        assert(run_ops(img, ops.push(op), payload, data_offset, bs, old_img) == op_step(
            img,
            op,
            payload,
            data_offset,
            bs,
            old_img,
        ));
    } else {
        assert(ops.push(op).drop_first() =~= ops.drop_first().push(op));
        match op_step(img, ops[0], payload, data_offset, bs, old_img) {
            None => {},
            Some(next) => {
                lemma_run_ops_snoc(next, ops.drop_first(), op, payload, data_offset, bs, old_img);
            },
        }
    }
}

} // verus!
