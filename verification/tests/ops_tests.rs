use payload_dumper::manifest::{Extent, InstallOperation};
use payload_dumper::ops::{process_operation, OpError, OpOutcome};
use sha2::Digest;

fn extent(start: u64, blocks: u64) -> Extent {
    Extent {
        start_block: Some(start),
        num_blocks: Some(blocks),
    }
}

fn op_with_data(ty: i32, data_offset: u64, data_length: u64) -> InstallOperation {
    InstallOperation {
        op_type: ty,
        data_offset: Some(data_offset),
        data_length: Some(data_length),
        data_sha256_hash: None,
        src_extents: Vec::new(),
        dst_extents: Vec::new(),
    }
}

fn sha(data: &[u8]) -> Vec<u8> {
    let mut h = sha2::Sha256::new();
    h.update(data);
    h.finalize().to_vec()
}

#[test]
fn replace_writes_data_and_reads_back() {
    let payload: Vec<u8> = vec![9, 9, 1, 2, 3, 4];
    let mut op = op_with_data(0, 0, 4);
    op.dst_extents.push(extent(1, 1));
    let mut image = vec![0u8; 8];
    let outcome = process_operation(&op, 2, 4, &payload, &mut image, None).unwrap();
    assert_eq!(outcome, OpOutcome::Applied);
    assert_eq!(image, vec![0, 0, 0, 0, 1, 2, 3, 4]);
    assert_eq!(&image[4..8], &[1, 2, 3, 4]);
}

#[test]
fn replace_grows_image_past_announced_size() {
    let payload: Vec<u8> = vec![5; 100];
    let mut op = op_with_data(0, 0, 100);
    op.dst_extents.push(extent(0, 1));
    let mut image: Vec<u8> = Vec::new();
    process_operation(&op, 0, 4096, &payload, &mut image, None).unwrap();
    assert_eq!(image.len(), 100);
    assert_eq!(image, vec![5; 100]);
}

#[test]
fn zero_zeroes_extents_and_hashes_like_zeros() {
    let payload: Vec<u8> = Vec::new();
    let mut op = op_with_data(6, 0, 0);
    op.dst_extents.push(extent(0, 1));
    op.dst_extents.push(extent(2, 1));
    let mut image = vec![0xffu8; 12];
    let outcome = process_operation(&op, 0, 4, &payload, &mut image, None).unwrap();
    assert_eq!(outcome, OpOutcome::Applied);
    assert_eq!(image, vec![0, 0, 0, 0, 0xff, 0xff, 0xff, 0xff, 0, 0, 0, 0]);
    assert_eq!(sha(&image[8..12]), sha(&[0u8; 4]));
}

#[test]
fn source_copy_concatenates_old_extents() {
    let payload: Vec<u8> = Vec::new();
    let old: Vec<u8> = vec![1, 1, 2, 2, 3, 3, 4, 4];
    let mut op = op_with_data(4, 0, 0);
    op.src_extents.push(extent(3, 1));
    op.src_extents.push(extent(0, 1));
    op.dst_extents.push(extent(0, 2));
    let mut image: Vec<u8> = Vec::new();
    let outcome = process_operation(&op, 0, 2, &payload, &mut image, Some(&old)).unwrap();
    assert_eq!(outcome, OpOutcome::Applied);
    assert_eq!(image, vec![4, 4, 1, 1]);
}

#[test]
fn source_copy_without_old_image_is_fatal() {
    let payload: Vec<u8> = Vec::new();
    let mut op = op_with_data(4, 0, 0);
    op.dst_extents.push(extent(0, 1));
    let mut image: Vec<u8> = Vec::new();
    let r = process_operation(&op, 0, 4, &payload, &mut image, None);
    assert_eq!(r, Err(OpError::MissingOldImage));
}

#[test]
fn data_hash_mismatch_skips_and_leaves_image() {
    let payload: Vec<u8> = vec![1, 2, 3, 4];
    let mut op = op_with_data(0, 0, 4);
    op.dst_extents.push(extent(0, 1));
    let mut wrong = sha(&payload);
    wrong[0] ^= 0xff;
    op.data_sha256_hash = Some(wrong);
    let mut image = vec![7u8; 4];
    let outcome = process_operation(&op, 0, 4, &payload, &mut image, None).unwrap();
    assert_eq!(outcome, OpOutcome::DataHashMismatch);
    assert_eq!(image, vec![7, 7, 7, 7]);
}

#[test]
fn matching_data_hash_applies() {
    let payload: Vec<u8> = vec![1, 2, 3, 4];
    let mut op = op_with_data(0, 0, 4);
    op.dst_extents.push(extent(0, 1));
    op.data_sha256_hash = Some(sha(&payload));
    let mut image = vec![0u8; 4];
    let outcome = process_operation(&op, 0, 4, &payload, &mut image, None).unwrap();
    assert_eq!(outcome, OpOutcome::Applied);
    assert_eq!(image, vec![1, 2, 3, 4]);
}

#[test]
fn empty_data_hash_is_not_checked() {
    let payload: Vec<u8> = vec![1, 2, 3, 4];
    let mut op = op_with_data(0, 0, 4);
    op.dst_extents.push(extent(0, 1));
    op.data_sha256_hash = Some(Vec::new());
    let mut image = vec![0u8; 4];
    let outcome = process_operation(&op, 0, 4, &payload, &mut image, None).unwrap();
    assert_eq!(outcome, OpOutcome::Applied);
}

#[test]
fn unknown_type_is_skipped() {
    let payload: Vec<u8> = vec![1, 2, 3];
    let mut op = op_with_data(97, 0, 3);
    op.dst_extents.push(extent(0, 1));
    let mut image = vec![9u8; 4];
    let outcome = process_operation(&op, 0, 4, &payload, &mut image, None).unwrap();
    assert_eq!(outcome, OpOutcome::UnknownType);
    assert_eq!(image, vec![9, 9, 9, 9]);
}

#[test]
fn data_outside_payload_is_fatal() {
    let payload: Vec<u8> = vec![1, 2];
    let mut op = op_with_data(0, 0, 4);
    op.dst_extents.push(extent(0, 1));
    let mut image: Vec<u8> = Vec::new();
    let r = process_operation(&op, 0, 4, &payload, &mut image, None);
    assert_eq!(r, Err(OpError::DataOutOfRange));
}

#[test]
fn overlapping_writes_apply_in_order() {
    let payload: Vec<u8> = vec![1, 1, 1, 1, 2, 2, 2, 2];
    let mut first = op_with_data(0, 0, 4);
    first.dst_extents.push(extent(0, 1));
    let mut second = op_with_data(0, 4, 4);
    second.dst_extents.push(extent(0, 1));
    let mut image = vec![0u8; 4];
    process_operation(&first, 0, 4, &payload, &mut image, None).unwrap();
    process_operation(&second, 0, 4, &payload, &mut image, None).unwrap();
    assert_eq!(image, vec![2, 2, 2, 2]);
}

#[test]
fn disjoint_writes_land_in_place() {
    let payload: Vec<u8> = vec![1, 1, 2, 2];
    let mut low = op_with_data(0, 0, 2);
    low.dst_extents.push(extent(0, 1));
    let mut high = op_with_data(0, 2, 2);
    high.dst_extents.push(extent(3, 1));
    let mut image = vec![9u8; 8];
    process_operation(&low, 0, 2, &payload, &mut image, None).unwrap();
    process_operation(&high, 0, 2, &payload, &mut image, None).unwrap();
    assert_eq!(image, vec![1, 1, 9, 9, 9, 9, 2, 2]);
}

#[test]
fn source_extent_outside_old_image_is_fatal() {
    let payload: Vec<u8> = Vec::new();
    let old: Vec<u8> = vec![0u8; 8];
    let mut op = op_with_data(4, 0, 0);
    op.src_extents.push(extent(5, 1));
    op.dst_extents.push(extent(0, 1));
    let mut image: Vec<u8> = Vec::new();
    let r = process_operation(&op, 0, 4, &payload, &mut image, Some(&old));
    assert_eq!(r, Err(OpError::SourceExtentOutOfRange));
}

#[test]
fn replace_without_destination_extent_is_fatal() {
    let payload: Vec<u8> = vec![1, 2, 3, 4];
    let op = op_with_data(0, 0, 4);
    let mut image: Vec<u8> = Vec::new();
    let r = process_operation(&op, 0, 4, &payload, &mut image, None);
    assert_eq!(r, Err(OpError::MissingDstExtents));
}

#[test]
fn write_position_overflow_is_fatal() {
    let payload: Vec<u8> = vec![1, 2, 3, 4];
    let mut op = op_with_data(0, 0, 4);
    op.dst_extents.push(extent(u64::MAX, 1));
    let mut image: Vec<u8> = Vec::new();
    let r = process_operation(&op, 0, 4096, &payload, &mut image, None);
    assert_eq!(r, Err(OpError::WriteTooLarge));
}
