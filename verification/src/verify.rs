//! Post-extraction verification of produced images, and the old-image
//! check for differential extraction.

use vstd::prelude::*;

pub use crate::hashing::verify_hash;

verus! {

use crate::extract::old_check_ok;
use crate::hashing::sha256_of;
use crate::manifest::PartitionInfo;
use crate::manifest::PartitionUpdate;

/// How verifying one produced image ended.
#[derive(Clone, Copy, Debug, PartialEq, Eq, Structural)]
pub enum VerifyOutcome {
    /// No non-empty expected hash is recorded; treated as success.
    NoHash,
    /// The image's SHA-256 equals the expected hash.
    Matched,
    /// The image's SHA-256 differs from the expected hash.
    Mismatched,
}

/// Whether the produced image fails its recorded new-image hash: a
/// non-empty hash is present and differs from the image's SHA-256.
pub open spec fn image_mismatches(p: PartitionUpdate, image: Seq<u8>) -> bool {
    match p.new_partition_info {
        Some(info) => match info.hash {
            Some(h) => h@.len() > 0 && sha256_of(image) != h@,
            None => false,
        },
        None => false,
    }
}

/// Check one produced image against its expected hash. An absent or
/// empty expectation reports `NoHash` and counts as success; a non-empty
/// one reports whether the image's SHA-256 equals it.
pub fn verify_partition_hash(image: &[u8], expected_hash: Option<&Vec<u8>>) -> (r: VerifyOutcome)
    ensures
        r == match expected_hash {
            None => VerifyOutcome::NoHash,
            Some(h) => if h@.len() == 0 {
                VerifyOutcome::NoHash
            } else if sha256_of(image@) == h@ {
                VerifyOutcome::Matched
            } else {
                VerifyOutcome::Mismatched
            },
        },
{
    match expected_hash {
        None => VerifyOutcome::NoHash,
        Some(h) => {
            if h.len() == 0 {
                VerifyOutcome::NoHash
            } else if verify_hash(image, h.as_slice()) {
                VerifyOutcome::Matched
            } else {
                VerifyOutcome::Mismatched
            }
        },
    }
}

/// Check a provided old image against the manifest's recorded old-image
/// info; an absent or empty hash passes.
pub fn verify_old_partition(old_image: &[u8], info: &PartitionInfo) -> (r: Result<(), ()>)
    ensures
        r is Ok <==> old_check_ok(Some(old_image@), Some(*info)),
{
    let ok = match &info.hash {
        Some(h) => verify_hash(old_image, h.as_slice()),
        None => true,
    };
    if ok {
        Ok(())
    } else {
        Err(())
    }
}

/// The buffer size the bulk verifier reads a file of `file_size` bytes
/// with: 64 KiB under 1 MiB, 1 MiB under 100 MiB, 8 MiB above.
pub fn buffer_size_for(file_size: u64) -> (r: usize)
    ensures
        r == if file_size < 0x100000 {
            0x10000int
        } else if file_size < 0x6400000 {
            0x100000int
        } else {
            0x800000int
        },
{
    if file_size < 1024 * 1024 {
        64 * 1024
    } else if file_size < 100 * 1024 * 1024 {
        1024 * 1024
    } else {
        8 * 1024 * 1024
    }
}

/// The names of the partitions whose produced image fails its recorded
/// hash, in partition order.
pub open spec fn failed_name_views(parts: Seq<PartitionUpdate>, images: Seq<Vec<u8>>) -> Seq<
    Seq<char>,
>
    decreases parts.len(),
{
    if parts.len() == 0 {
        Seq::empty()
    } else {
        let rest = failed_name_views(parts.drop_first(), images.drop_first());
        if image_mismatches(parts[0], images[0]@) {
            seq![parts[0].partition_name@] + rest
        } else {
            rest
        }
    }
}

/// Check every produced image against its partition's recorded hash and
/// collect the names that failed, in partition order; with `skip_check`
/// nothing is checked and nothing fails.
pub fn verify_partitions_hash(
    partitions: &Vec<PartitionUpdate>,
    images: &Vec<Vec<u8>>,
    skip_check: bool,
) -> (r: Vec<String>)
    requires
        partitions@.len() == images@.len(),
    ensures
        skip_check ==> r@.len() == 0,
        !skip_check ==> r@.map_values(|s: String| s@) == failed_name_views(partitions@, images@),
{
    if skip_check {
        return Vec::new();
    }
    let mut failed: Vec<String> = Vec::new();
    let mut i: usize = 0;
    proof {
        assert(partitions@.skip(0) =~= partitions@);
        assert(images@.skip(0) =~= images@);
        assert(failed@.map_values(|s: String| s@) + failed_name_views(partitions@, images@)
            =~= failed_name_views(partitions@, images@));
    }
    while i < partitions.len()
        invariant
            i <= partitions@.len(),
            partitions@.len() == images@.len(),
            failed_name_views(partitions@, images@) == failed@.map_values(|s: String| s@)
                + failed_name_views(partitions@.skip(i as int), images@.skip(i as int)),
        decreases partitions@.len() - i,
    {
        let ghost ptail = partitions@.skip(i as int);
        let ghost itail = images@.skip(i as int);
        proof {
            assert(ptail[0] == partitions@[i as int]);
            assert(itail[0] == images@[i as int]);
            assert(ptail.drop_first() =~= partitions@.skip(i as int + 1));
            assert(itail.drop_first() =~= images@.skip(i as int + 1));
        }
        let part = &partitions[i];
        let expected = match &part.new_partition_info {
            Some(info) => match &info.hash {
                Some(h) => Some(h),
                None => None,
            },
            None => None,
        };
        let outcome = verify_partition_hash(images[i].as_slice(), expected);
        let ghost prev = failed@;
        if outcome == VerifyOutcome::Mismatched {
            failed.push(part.partition_name.clone());
            proof {
                assert(failed@.map_values(|s: String| s@) =~= prev.map_values(|s: String| s@)
                    + seq![partitions@[i as int].partition_name@]);
                assert(prev.map_values(|s: String| s@) + (seq![
                    partitions@[i as int].partition_name@,
                ] + failed_name_views(partitions@.skip(i as int + 1), images@.skip(i as int + 1)))
                    =~= failed@.map_values(|s: String| s@) + failed_name_views(
                    partitions@.skip(i as int + 1),
                    images@.skip(i as int + 1),
                ));
            }
        }
        i = i + 1;
    }
    proof {
        assert(partitions@.skip(i as int) =~= Seq::<PartitionUpdate>::empty());
        assert(failed@.map_values(|s: String| s@) + Seq::<Seq<char>>::empty() =~= failed@
            .map_values(|s: String| s@));
    }
    failed
}

} // verus!
