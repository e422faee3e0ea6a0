//! The decoded manifest model: partitions, install operations and extents.
//!
//! Fields that the encoded manifest may omit are `Option`s; absent numeric
//! fields count as zero and an absent block size counts as 4096, as the
//! payload format prescribes.

use vstd::prelude::*;

verus! {

/// A contiguous run of blocks within a partition image.
#[derive(Clone, Copy, Debug)]
pub struct Extent {
    pub start_block: Option<u64>,
    pub num_blocks: Option<u64>,
}

impl Extent {
    /// The first block, absent meaning zero.
    pub open spec fn start(self) -> int {
        match self.start_block {
            Some(b) => b as int,
            None => 0,
        }
    }

    /// The run length in blocks, absent meaning zero.
    pub open spec fn blocks(self) -> int {
        match self.num_blocks {
            Some(b) => b as int,
            None => 0,
        }
    }

    /// The first block, as executable code reads it.
    pub fn start_value(&self) -> (r: u64)
        ensures
            r as int == self.start(),
    {
        match self.start_block {
            Some(b) => b,
            None => 0,
        }
    }

    /// The run length in blocks, as executable code reads it.
    pub fn blocks_value(&self) -> (r: u64)
        ensures
            r as int == self.blocks(),
    {
        match self.num_blocks {
            Some(b) => b,
            None => 0,
        }
    }
}

/// Size and hash of a partition image, either side of the update.
#[derive(Clone, Debug)]
pub struct PartitionInfo {
    pub size: Option<u64>,
    pub hash: Option<Vec<u8>>,
}

/// The kinds of install operation this crate interprets.
#[derive(Clone, Copy, Debug, PartialEq, Eq, Structural)]
pub enum OpType {
    Replace,
    ReplaceBz,
    ReplaceXz,
    Zstd,
    SourceCopy,
    SourceBsdiff,
    BrotliBsdiff,
    Zero,
}

/// The interpreted kind for a numeric operation type, `None` for a code
/// this crate does not handle.
pub open spec fn spec_op_type(code: i32) -> Option<OpType> {
    if code == 0 {
        Some(OpType::Replace)
    } else if code == 1 {
        Some(OpType::ReplaceBz)
    } else if code == 4 {
        Some(OpType::SourceCopy)
    } else if code == 5 {
        Some(OpType::SourceBsdiff)
    } else if code == 6 {
        Some(OpType::Zero)
    } else if code == 8 {
        Some(OpType::ReplaceXz)
    } else if code == 10 {
        Some(OpType::BrotliBsdiff)
    } else if code == 14 {
        Some(OpType::Zstd)
    } else {
        None
    }
}

/// Whether a numeric operation type reads from the old partition image.
pub open spec fn is_differential_code(code: i32) -> bool {
    spec_op_type(code) == Some(OpType::SourceCopy)
        || spec_op_type(code) == Some(OpType::SourceBsdiff)
        || spec_op_type(code) == Some(OpType::BrotliBsdiff)
}

/// One step of a partition's installation.
#[derive(Clone, Debug)]
pub struct InstallOperation {
    /// The operation type's wire code.
    pub op_type: i32,
    pub data_offset: Option<u64>,
    pub data_length: Option<u64>,
    pub data_sha256_hash: Option<Vec<u8>>,
    pub src_extents: Vec<Extent>,
    pub dst_extents: Vec<Extent>,
}

impl InstallOperation {
    /// Offset of this operation's bytes within the data region.
    pub open spec fn spec_data_offset(self) -> int {
        match self.data_offset {
            Some(o) => o as int,
            None => 0,
        }
    }

    /// Length of this operation's bytes.
    pub open spec fn spec_data_length(self) -> int {
        match self.data_length {
            Some(l) => l as int,
            None => 0,
        }
    }

    /// The interpreted kind of this operation.
    pub open spec fn kind(self) -> Option<OpType> {
        spec_op_type(self.op_type)
    }

    /// The interpreted kind, as executable code reads it.
    pub fn kind_value(&self) -> (r: Option<OpType>)
        ensures
            r == self.kind(),
    {
        if self.op_type == 0 {
            Some(OpType::Replace)
        } else if self.op_type == 1 {
            Some(OpType::ReplaceBz)
        } else if self.op_type == 4 {
            Some(OpType::SourceCopy)
        } else if self.op_type == 5 {
            Some(OpType::SourceBsdiff)
        } else if self.op_type == 6 {
            Some(OpType::Zero)
        } else if self.op_type == 8 {
            Some(OpType::ReplaceXz)
        } else if self.op_type == 10 {
            Some(OpType::BrotliBsdiff)
        } else if self.op_type == 14 {
            Some(OpType::Zstd)
        } else {
            None
        }
    }

    /// Offset of this operation's bytes, as executable code reads it.
    pub fn data_offset_value(&self) -> (r: u64)
        ensures
            r as int == self.spec_data_offset(),
    {
        match self.data_offset {
            Some(o) => o,
            None => 0,
        }
    }

    /// Length of this operation's bytes, as executable code reads it.
    pub fn data_length_value(&self) -> (r: u64)
        ensures
            r as int == self.spec_data_length(),
    {
        match self.data_length {
            Some(l) => l,
            None => 0,
        }
    }
}

/// One partition's update: its name, the operations that build its new
/// image, and the image descriptions on either side.
#[derive(Clone, Debug)]
pub struct PartitionUpdate {
    pub partition_name: String,
    pub operations: Vec<InstallOperation>,
    pub old_partition_info: Option<PartitionInfo>,
    pub new_partition_info: Option<PartitionInfo>,
}

/// The decoded payload manifest.
#[derive(Clone, Debug)]
pub struct DeltaArchiveManifest {
    pub block_size: Option<u32>,
    pub partitions: Vec<PartitionUpdate>,
    pub security_patch_level: Option<String>,
}

impl DeltaArchiveManifest {
    /// The block size, absent meaning 4096.
    pub open spec fn spec_block_size(self) -> int {
        match self.block_size {
            Some(b) => b as int,
            None => 4096,
        }
    }

    /// A payload is differential when any operation of any partition reads
    /// from the old image.
    pub open spec fn spec_is_differential(self) -> bool {
        exists|i: int, j: int|
            0 <= i < self.partitions@.len() && 0 <= j < self.partitions@[i].operations@.len()
                && is_differential_code(#[trigger] self.partitions@[i].operations@[j].op_type)
    }
}

/// The block size to interpret extents with, absent meaning 4096.
pub fn effective_block_size(manifest: &DeltaArchiveManifest) -> (r: u32)
    ensures
        r as int == manifest.spec_block_size(),
{
    match manifest.block_size {
        Some(b) => b,
        None => 4096,
    }
}

/// Whether any operation of `partition` reads from the old image.
fn partition_has_differential_op(partition: &PartitionUpdate) -> (r: bool)
    ensures
        r == exists|j: int|
            0 <= j < partition.operations@.len() && is_differential_code(
                #[trigger] partition.operations@[j].op_type,
            ),
{
    let mut j: usize = 0;
    while j < partition.operations.len()
        invariant
            j <= partition.operations@.len(),
            forall|k: int|
                0 <= k < j ==> !is_differential_code(
                    #[trigger] partition.operations@[k].op_type,
                ),
        decreases partition.operations@.len() - j,
    {
        let code = partition.operations[j].op_type;
        if code == 4 || code == 5 || code == 10 {
            assert(is_differential_code(partition.operations@[j as int].op_type));
            return true;
        }
        j = j + 1;
    }
    false
}

/// The total destination blocks a run of extents covers.
pub open spec fn sum_dst_blocks(exts: Seq<Extent>) -> int
    decreases exts.len(),
{
    if exts.len() == 0 {
        0
    } else {
        exts[0].blocks() + sum_dst_blocks(exts.drop_first())
    }
}

/// No extent covers a negative number of blocks.
pub proof fn lemma_sum_dst_blocks_nonneg(exts: Seq<Extent>)
    ensures
        sum_dst_blocks(exts) >= 0,
    decreases exts.len(),
{
    if exts.len() > 0 {
        lemma_sum_dst_blocks_nonneg(exts.drop_first());
    }
}

/// The total destination blocks a partition's operations cover.
pub open spec fn partition_blocks(ops: Seq<InstallOperation>) -> int
    decreases ops.len(),
{
    if ops.len() == 0 {
        0
    } else {
        sum_dst_blocks(ops[0].dst_extents@) + partition_blocks(ops.drop_first())
    }
}

/// Operations cover a non-negative number of blocks.
pub proof fn lemma_partition_blocks_nonneg(ops: Seq<InstallOperation>)
    ensures
        partition_blocks(ops) >= 0,
    decreases ops.len(),
{
    if ops.len() > 0 {
        lemma_sum_dst_blocks_nonneg(ops[0].dst_extents@);
        lemma_partition_blocks_nonneg(ops.drop_first());
    }
}

/// Add, stopping at the largest representable value.
fn saturating_add_u64(a: u64, b: u64) -> (r: u64)
    ensures
        r as int == vstd::math::min(a + b, u64::MAX as int),
{
    match a.checked_add(b) {
        Some(s) => s,
        None => u64::MAX,
    }
}

/// The destination blocks one operation covers, held at `u64::MAX`.
fn op_dst_block_count(op: &InstallOperation) -> (r: u64)
    ensures
        r as int == vstd::math::min(sum_dst_blocks(op.dst_extents@), u64::MAX as int),
{
    let mut acc: u64 = 0;
    let mut i: usize = 0;
    let ghost exts = op.dst_extents@;
    proof {
        assert(exts.skip(0) =~= exts);
        lemma_sum_dst_blocks_nonneg(exts);
    }
    while i < op.dst_extents.len()
        invariant
            i <= exts.len(),
            exts == op.dst_extents@,
            acc as int == vstd::math::min(
                sum_dst_blocks(exts) - sum_dst_blocks(exts.skip(i as int)),
                u64::MAX as int,
            ),
            sum_dst_blocks(exts) - sum_dst_blocks(exts.skip(i as int)) >= 0,
        decreases exts.len() - i,
    {
        let ghost tail = exts.skip(i as int);
        proof {
            assert(tail[0] == exts[i as int]);
            assert(tail.drop_first() =~= exts.skip(i as int + 1));
            lemma_sum_dst_blocks_nonneg(exts.skip(i as int + 1));
        }
        acc = saturating_add_u64(acc, op.dst_extents[i].blocks_value());
        i = i + 1;
    }
    proof {
        assert(exts.skip(i as int) =~= Seq::<Extent>::empty());
    }
    acc
}

/// One line of the partition listing.
#[derive(Clone, Debug)]
pub struct PartitionEntry {
    pub name: String,
    /// Total destination blocks, held at `u64::MAX`.
    pub blocks: u64,
    /// `blocks` at `block_size` bytes each, held at `u64::MAX`.
    pub bytes: u64,
}

/// The listing of a manifest's partitions: each partition's name, its
/// total destination blocks, and the bytes those blocks cover at the
/// given block size, totals held at `u64::MAX`.
pub fn list_partitions(manifest: &DeltaArchiveManifest, block_size: u64) -> (r: Vec<
    PartitionEntry,
>)
    ensures
        r@.len() == manifest.partitions@.len(),
        forall|i: int|
            0 <= i < r@.len() ==> {
                let p = #[trigger] manifest.partitions@[i];
                &&& r@[i].name@ == p.partition_name@
                &&& r@[i].blocks as int == vstd::math::min(
                    partition_blocks(p.operations@),
                    u64::MAX as int,
                )
                &&& r@[i].bytes as int == vstd::math::min(
                    r@[i].blocks * block_size,
                    u64::MAX as int,
                )
            },
{
    let mut out: Vec<PartitionEntry> = Vec::new();
    let mut pi: usize = 0;
    while pi < manifest.partitions.len()
        invariant
            pi <= manifest.partitions@.len(),
            out@.len() == pi,
            forall|i: int|
                0 <= i < pi ==> {
                    let p = #[trigger] manifest.partitions@[i];
                    &&& out@[i].name@ == p.partition_name@
                    &&& out@[i].blocks as int == vstd::math::min(
                        partition_blocks(p.operations@),
                        u64::MAX as int,
                    )
                    &&& out@[i].bytes as int == vstd::math::min(
                        out@[i].blocks * block_size,
                        u64::MAX as int,
                    )
                },
        decreases manifest.partitions@.len() - pi,
    {
        let p = &manifest.partitions[pi];
        let mut blocks: u64 = 0;
        let mut oi: usize = 0;
        let ghost ops = p.operations@;
        proof {
            assert(ops.skip(0) =~= ops);
            lemma_partition_blocks_nonneg(ops);
        }
        while oi < p.operations.len()
            invariant
                oi <= ops.len(),
                ops == p.operations@,
                blocks as int == vstd::math::min(
                    partition_blocks(ops) - partition_blocks(ops.skip(oi as int)),
                    u64::MAX as int,
                ),
                partition_blocks(ops) - partition_blocks(ops.skip(oi as int)) >= 0,
            decreases ops.len() - oi,
        {
            let ghost tail = ops.skip(oi as int);
            proof {
                assert(tail[0] == ops[oi as int]);
                assert(tail.drop_first() =~= ops.skip(oi as int + 1));
                lemma_partition_blocks_nonneg(ops.skip(oi as int + 1));
                lemma_sum_dst_blocks_nonneg(ops[oi as int].dst_extents@);
            }
            blocks = saturating_add_u64(blocks, op_dst_block_count(&p.operations[oi]));
            oi = oi + 1;
        }
        proof {
            assert(ops.skip(oi as int) =~= Seq::<InstallOperation>::empty());
        }
        let bytes = match blocks.checked_mul(block_size) {
            Some(b) => b,
            None => u64::MAX,
        };
        out.push(PartitionEntry { name: p.partition_name.clone(), blocks, bytes });
        pi = pi + 1;
    }
    out
}

/// Whether the name filter admits a partition: an empty filter admits
/// all, otherwise the name must be listed.
pub open spec fn name_selected(names: Seq<String>, name: Seq<char>) -> bool {
    names.len() == 0 || exists|j: int| 0 <= j < names.len() && names[j]@ == name
}

/// Whether `name` occurs in `names`.
fn name_in_list(name: &String, names: &Vec<String>) -> (r: bool)
    ensures
        r == exists|j: int| 0 <= j < names@.len() && names@[j]@ == name@,
{
    let mut j: usize = 0;
    while j < names.len()
        invariant
            j <= names@.len(),
            forall|k: int| 0 <= k < j ==> names@[k]@ != name@,
        decreases names@.len() - j,
    {
        let found = names[j].eq(name);
        if found {
            proof {
                assert(names@[j as int]@ == name@);
            }
            return true;
        }
        j = j + 1;
    }
    false
}

/// The indices of the partitions the name filter admits, in manifest
/// order; an empty filter admits all.
pub fn filter_partition_indices(manifest: &DeltaArchiveManifest, names: &Vec<String>) -> (r: Vec<
    usize,
>)
    ensures
        forall|k: int|
            0 <= k < r@.len() ==> #[trigger] r@[k] < manifest.partitions@.len() && name_selected(
                names@,
                manifest.partitions@[r@[k] as int].partition_name@,
            ),
        forall|k1: int, k2: int| 0 <= k1 < k2 < r@.len() ==> r@[k1] < r@[k2],
        forall|i: int|
            0 <= i < manifest.partitions@.len() && name_selected(
                names@,
                (#[trigger] manifest.partitions@[i]).partition_name@,
            ) ==> exists|k: int| 0 <= k < r@.len() && r@[k] == i,
{
    let mut out: Vec<usize> = Vec::new();
    let mut i: usize = 0;
    let take_all = names.len() == 0;
    while i < manifest.partitions.len()
        invariant
            i <= manifest.partitions@.len(),
            take_all == (names@.len() == 0),
            forall|k: int|
                0 <= k < out@.len() ==> #[trigger] out@[k] < i && name_selected(
                    names@,
                    manifest.partitions@[out@[k] as int].partition_name@,
                ),
            forall|k1: int, k2: int| 0 <= k1 < k2 < out@.len() ==> out@[k1] < out@[k2],
            forall|p: int|
                0 <= p < i && name_selected(
                    names@,
                    (#[trigger] manifest.partitions@[p]).partition_name@,
                ) ==> exists|k: int| 0 <= k < out@.len() && out@[k] == p,
        decreases manifest.partitions@.len() - i,
    {
        let selected = if take_all {
            true
        } else {
            name_in_list(&manifest.partitions[i].partition_name, names)
        };
        if selected {
            let ghost oldout = out@;
            out.push(i);
            proof {
                assert(out@[out@.len() - 1] == i);
                assert(forall|k: int| 0 <= k < oldout.len() ==> out@[k] == oldout[k]);
            }
        }
        i = i + 1;
    }
    out
}

/// Refuse a differential payload unless the caller opted in.
pub fn check_differential_allowed(manifest: &DeltaArchiveManifest, diff: bool) -> (r: Result<
    (),
    crate::errors::PayloadError,
>)
    ensures
        r is Ok <==> !(manifest.spec_is_differential() && !diff),
        r is Err ==> r->Err_0 == crate::errors::PayloadError::DifferentialNotEnabled,
{
    if is_differential_ota(manifest) && !diff {
        Err(crate::errors::PayloadError::DifferentialNotEnabled)
    } else {
        Ok(())
    }
}

/// A payload is differential exactly when some operation's type is
/// `SourceCopy`, `SourceBsdiff` or `BrotliBsdiff`.
pub fn is_differential_ota(manifest: &DeltaArchiveManifest) -> (r: bool)
    ensures
        r == manifest.spec_is_differential(),
{
    let mut i: usize = 0;
    while i < manifest.partitions.len()
        invariant
            i <= manifest.partitions@.len(),
            forall|p: int, q: int|
                0 <= p < i && 0 <= q < manifest.partitions@[p].operations@.len()
                    ==> !is_differential_code(
                    #[trigger] manifest.partitions@[p].operations@[q].op_type,
                ),
        decreases manifest.partitions@.len() - i,
    {
        if partition_has_differential_op(&manifest.partitions[i]) {
            return true;
        }
        i = i + 1;
    }
    false
}

} // verus!
