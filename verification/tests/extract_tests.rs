use payload_dumper::extract::{dump_partition, PartitionError};
use payload_dumper::header::parse_payload_header;
use payload_dumper::manifest::{Extent, InstallOperation, PartitionInfo, PartitionUpdate};
use payload_dumper::ops::{OpError, OpOutcome};
use payload_dumper::verify::{verify_partition_hash, verify_partitions_hash, VerifyOutcome};
use sha2::Digest;

fn extent(start: u64, blocks: u64) -> Extent {
    Extent {
        start_block: Some(start),
        num_blocks: Some(blocks),
    }
}

fn sha(data: &[u8]) -> Vec<u8> {
    let mut h = sha2::Sha256::new();
    h.update(data);
    h.finalize().to_vec()
}

fn be64(v: u64) -> Vec<u8> {
    (0..8).rev().map(|s| ((v >> (8 * s)) & 0xff) as u8).collect()
}

fn replace_op(data_offset: u64, data_length: u64, dst: Vec<Extent>) -> InstallOperation {
    InstallOperation {
        op_type: 0,
        data_offset: Some(data_offset),
        data_length: Some(data_length),
        data_sha256_hash: None,
        src_extents: Vec::new(),
        dst_extents: dst,
    }
}

#[test]
fn hello_world_full_payload() {
    // A complete payload file: header, empty manifest and signature, one
    // Replace operation's 4096 zero bytes as the data region.
    let mut file = Vec::new();
    file.extend_from_slice(b"CrAU");
    file.extend_from_slice(&be64(2));
    file.extend_from_slice(&be64(0));
    file.extend_from_slice(&[0, 0, 0, 0]);
    let data_region_start = file.len() as u64;
    file.extend_from_slice(&[0u8; 4096]);

    let header = parse_payload_header(&file).unwrap();
    assert_eq!(header.data_offset, data_region_start);

    let zeros_hash = sha(&[0u8; 4096]);
    let partition = PartitionUpdate {
        partition_name: "boot".to_string(),
        operations: vec![replace_op(0, 4096, vec![extent(0, 1)])],
        old_partition_info: None,
        new_partition_info: Some(PartitionInfo {
            size: Some(4096),
            hash: Some(zeros_hash.clone()),
        }),
    };
    let res = dump_partition(&partition, header.data_offset, 4096, &file, None).unwrap();
    assert_eq!(res.image, vec![0u8; 4096]);
    assert_eq!(res.outcomes, vec![OpOutcome::Applied]);
    assert_eq!(res.unverified_hash, None);
    assert_eq!(
        verify_partition_hash(&res.image, Some(&zeros_hash)),
        VerifyOutcome::Matched
    );
}

#[test]
fn zstd_distributes_across_two_extents() {
    let plain = vec![0x55u8; 8192];
    let compressed = zstd::encode_all(std::io::Cursor::new(&plain), 3).unwrap();
    let payload = compressed.clone();
    let op = InstallOperation {
        op_type: 14,
        data_offset: Some(0),
        data_length: Some(compressed.len() as u64),
        data_sha256_hash: None,
        src_extents: Vec::new(),
        dst_extents: vec![extent(0, 1), extent(2, 1)],
    };
    let partition = PartitionUpdate {
        partition_name: "boot".to_string(),
        operations: vec![op],
        old_partition_info: None,
        new_partition_info: Some(PartitionInfo {
            size: Some(12288),
            hash: None,
        }),
    };
    let res = dump_partition(&partition, 0, 4096, &payload, None).unwrap();
    assert_eq!(res.outcomes, vec![OpOutcome::Applied]);
    assert_eq!(res.image.len(), 12288);
    assert_eq!(&res.image[0..4096], &[0x55u8; 4096][..]);
    assert_eq!(&res.image[4096..8192], &[0u8; 4096][..]);
    assert_eq!(&res.image[8192..12288], &[0x55u8; 4096][..]);
    // No recorded hash: the digest is computed for display.
    assert_eq!(res.unverified_hash, Some(sha(&res.image)));
}

#[test]
fn bsdiff_with_matching_old_hash() {
    let old: Vec<u8> = (0..4096u32).map(|i| (i % 251) as u8).collect();
    let mut new = old.clone();
    new[100] = 0xaa;
    new[2048] = 0xbb;
    let mut patch = Vec::new();
    bsdiff::diff(&old, &new, &mut patch).unwrap();

    let op = InstallOperation {
        op_type: 5,
        data_offset: Some(0),
        data_length: Some(patch.len() as u64),
        data_sha256_hash: Some(sha(&patch)),
        src_extents: vec![extent(0, 1)],
        dst_extents: vec![extent(0, 1)],
    };
    let partition = PartitionUpdate {
        partition_name: "vendor".to_string(),
        operations: vec![op],
        old_partition_info: Some(PartitionInfo {
            size: Some(4096),
            hash: Some(sha(&old)),
        }),
        new_partition_info: Some(PartitionInfo {
            size: Some(4096),
            hash: Some(sha(&new)),
        }),
    };
    let res = dump_partition(&partition, 0, 4096, &patch, Some(&old)).unwrap();
    assert_eq!(res.outcomes, vec![OpOutcome::Applied]);
    assert_eq!(res.image, new);
    assert_eq!(
        verify_partition_hash(&res.image, Some(&sha(&new))),
        VerifyOutcome::Matched
    );
}

#[test]
fn bsdiff_without_old_image_fails_partition() {
    let op = InstallOperation {
        op_type: 5,
        data_offset: Some(0),
        data_length: Some(0),
        data_sha256_hash: None,
        src_extents: vec![extent(0, 1)],
        dst_extents: vec![extent(0, 1)],
    };
    let partition = PartitionUpdate {
        partition_name: "vendor".to_string(),
        operations: vec![op],
        old_partition_info: None,
        new_partition_info: None,
    };
    let r = dump_partition(&partition, 0, 4096, &[], None);
    assert_eq!(
        r.err(),
        Some(PartitionError::Operation {
            index: 0,
            error: OpError::MissingOldImage
        })
    );
}

#[test]
fn mismatched_old_hash_fails_partition() {
    let old = vec![1u8; 64];
    let mut wrong = sha(&old);
    wrong[0] ^= 1;
    let partition = PartitionUpdate {
        partition_name: "boot".to_string(),
        operations: Vec::new(),
        old_partition_info: Some(PartitionInfo {
            size: Some(64),
            hash: Some(wrong),
        }),
        new_partition_info: None,
    };
    let r = dump_partition(&partition, 0, 4096, &[], Some(&old));
    assert_eq!(r.err(), Some(PartitionError::OldHashMismatch));
}

#[test]
fn unset_new_size_yields_whatever_operations_produce() {
    let payload = vec![3u8; 100];
    let partition = PartitionUpdate {
        partition_name: "misc".to_string(),
        operations: vec![replace_op(0, 100, vec![extent(0, 1)])],
        old_partition_info: None,
        new_partition_info: None,
    };
    let res = dump_partition(&partition, 0, 4096, &payload, None).unwrap();
    assert_eq!(res.image.len(), 100);
    assert_eq!(res.image, vec![3u8; 100]);
    assert_eq!(res.unverified_hash, None);
}

#[test]
fn corrupt_operation_is_skipped_and_reported_by_bulk_verify() {
    // Two Replace operations; the first one's bytes are flipped after its
    // hash was recorded, the second is intact.
    let good = vec![4u8; 8];
    let mut payload = vec![1u8; 8];
    payload.extend_from_slice(&good);
    let mut op1 = replace_op(0, 8, vec![extent(0, 1)]);
    op1.data_sha256_hash = Some(sha(&[9u8; 8]));
    let mut op2 = replace_op(8, 8, vec![extent(1, 1)]);
    op2.data_sha256_hash = Some(sha(&good));
    let expected = sha(&[7u8; 16]);
    let partition = PartitionUpdate {
        partition_name: "boot".to_string(),
        operations: vec![op1, op2],
        old_partition_info: None,
        new_partition_info: Some(PartitionInfo {
            size: Some(16),
            hash: Some(expected),
        }),
    };
    let res = dump_partition(&partition, 0, 8, &payload, None).unwrap();
    assert_eq!(
        res.outcomes,
        vec![OpOutcome::DataHashMismatch, OpOutcome::Applied]
    );
    // First extent untouched, second written.
    assert_eq!(&res.image[0..8], &[0u8; 8][..]);
    assert_eq!(&res.image[8..16], &[4u8; 8][..]);
    let failed = verify_partitions_hash(&vec![partition], &vec![res.image], false);
    assert_eq!(failed, vec!["boot".to_string()]);
}

#[test]
fn bulk_verify_skipped_reports_nothing() {
    let partition = PartitionUpdate {
        partition_name: "boot".to_string(),
        operations: Vec::new(),
        old_partition_info: None,
        new_partition_info: Some(PartitionInfo {
            size: None,
            hash: Some(vec![1, 2, 3]),
        }),
    };
    let failed = verify_partitions_hash(&vec![partition], &vec![Vec::new()], true);
    assert_eq!(failed, Vec::<String>::new());
}

#[test]
fn repeated_runs_are_byte_identical() {
    let payload = vec![8u8; 32];
    let partition = PartitionUpdate {
        partition_name: "boot".to_string(),
        operations: vec![replace_op(0, 32, vec![extent(0, 1)])],
        old_partition_info: None,
        new_partition_info: Some(PartitionInfo {
            size: Some(64),
            hash: None,
        }),
    };
    let a = dump_partition(&partition, 0, 16, &payload, None).unwrap();
    let b = dump_partition(&partition, 0, 16, &payload, None).unwrap();
    assert_eq!(a.image, b.image);
    assert_eq!(a.outcomes, b.outcomes);
}
