use payload_dumper::hashing::verify_hash;
use payload_dumper::manifest::PartitionInfo;
use payload_dumper::verify::{
    buffer_size_for, verify_old_partition, verify_partition_hash, VerifyOutcome,
};

fn hex(s: &str) -> Vec<u8> {
    let b = s.as_bytes();
    let mut out = Vec::new();
    let mut i = 0;
    while i < b.len() {
        let hi = (b[i] as char).to_digit(16).unwrap() as u8;
        let lo = (b[i + 1] as char).to_digit(16).unwrap() as u8;
        out.push(hi * 16 + lo);
        i += 2;
    }
    out
}

#[test]
fn sha256_of_known_inputs() {
    // The digest of no bytes, and of 4096 zero bytes.
    let empty = hex("e3b0c44298fc1c149afbf4c8996fb92427ae41e4649b934ca495991b7852b855");
    assert!(verify_hash(&[], &empty));
    let zeros = hex("ad7facb2586fc6e966c004d7d1d16b024f5805ff7cb47c7a85dabd8b48892ca7");
    assert!(verify_hash(&[0u8; 4096], &zeros));
    assert!(!verify_hash(&[1u8; 4096], &zeros));
    assert!(!verify_hash(&[0u8; 4095], &zeros));
}

#[test]
fn empty_expected_hash_always_passes() {
    assert!(verify_hash(&[1, 2, 3], &[]));
    assert!(verify_hash(&[], &[]));
}

#[test]
fn partition_hash_outcomes() {
    let zeros = hex("ad7facb2586fc6e966c004d7d1d16b024f5805ff7cb47c7a85dabd8b48892ca7");
    assert_eq!(
        verify_partition_hash(&[0u8; 4096], Some(&zeros)),
        VerifyOutcome::Matched
    );
    assert_eq!(
        verify_partition_hash(&[1u8; 4096], Some(&zeros)),
        VerifyOutcome::Mismatched
    );
    assert_eq!(
        verify_partition_hash(&[1u8; 4096], Some(&Vec::new())),
        VerifyOutcome::NoHash
    );
    assert_eq!(verify_partition_hash(&[1u8; 4096], None), VerifyOutcome::NoHash);
}

#[test]
fn old_partition_check() {
    let zeros = hex("ad7facb2586fc6e966c004d7d1d16b024f5805ff7cb47c7a85dabd8b48892ca7");
    let good = PartitionInfo {
        size: Some(4096),
        hash: Some(zeros),
    };
    assert_eq!(verify_old_partition(&[0u8; 4096], &good), Ok(()));
    assert_eq!(verify_old_partition(&[1u8; 4096], &good), Err(()));
    let empty = PartitionInfo {
        size: None,
        hash: Some(Vec::new()),
    };
    assert_eq!(verify_old_partition(&[1u8; 10], &empty), Ok(()));
    let absent = PartitionInfo {
        size: None,
        hash: None,
    };
    assert_eq!(verify_old_partition(&[1u8; 10], &absent), Ok(()));
}

#[test]
fn buffer_size_tiers() {
    assert_eq!(buffer_size_for(0), 64 * 1024);
    assert_eq!(buffer_size_for(1024 * 1024 - 1), 64 * 1024);
    assert_eq!(buffer_size_for(1024 * 1024), 1024 * 1024);
    assert_eq!(buffer_size_for(100 * 1024 * 1024 - 1), 1024 * 1024);
    assert_eq!(buffer_size_for(100 * 1024 * 1024), 8 * 1024 * 1024);
    assert_eq!(buffer_size_for(u64::MAX), 8 * 1024 * 1024);
}
