use payload_dumper::args::Args;
use payload_dumper::errors::PayloadError;
use payload_dumper::manifest::{
    check_differential_allowed, effective_block_size, filter_partition_indices,
    is_differential_ota, list_partitions, DeltaArchiveManifest, Extent, InstallOperation, OpType,
    PartitionUpdate,
};

fn op_of_type(ty: i32, dst: Vec<Extent>) -> InstallOperation {
    InstallOperation {
        op_type: ty,
        data_offset: None,
        data_length: None,
        data_sha256_hash: None,
        src_extents: Vec::new(),
        dst_extents: dst,
    }
}

fn partition(name: &str, ops: Vec<InstallOperation>) -> PartitionUpdate {
    PartitionUpdate {
        partition_name: name.to_string(),
        operations: ops,
        old_partition_info: None,
        new_partition_info: None,
    }
}

fn manifest(parts: Vec<PartitionUpdate>) -> DeltaArchiveManifest {
    DeltaArchiveManifest {
        block_size: None,
        partitions: parts,
        security_patch_level: None,
    }
}

#[test]
fn block_size_defaults_to_4096() {
    assert_eq!(effective_block_size(&manifest(Vec::new())), 4096);
    let mut m = manifest(Vec::new());
    m.block_size = Some(8192);
    assert_eq!(effective_block_size(&m), 8192);
}

#[test]
fn operation_kinds_by_wire_code() {
    assert_eq!(op_of_type(0, Vec::new()).kind_value(), Some(OpType::Replace));
    assert_eq!(op_of_type(1, Vec::new()).kind_value(), Some(OpType::ReplaceBz));
    assert_eq!(op_of_type(4, Vec::new()).kind_value(), Some(OpType::SourceCopy));
    assert_eq!(op_of_type(5, Vec::new()).kind_value(), Some(OpType::SourceBsdiff));
    assert_eq!(op_of_type(6, Vec::new()).kind_value(), Some(OpType::Zero));
    assert_eq!(op_of_type(8, Vec::new()).kind_value(), Some(OpType::ReplaceXz));
    assert_eq!(op_of_type(10, Vec::new()).kind_value(), Some(OpType::BrotliBsdiff));
    assert_eq!(op_of_type(14, Vec::new()).kind_value(), Some(OpType::Zstd));
    assert_eq!(op_of_type(2, Vec::new()).kind_value(), None);
    assert_eq!(op_of_type(99, Vec::new()).kind_value(), None);
}

#[test]
fn differential_detection() {
    let full = manifest(vec![partition("boot", vec![op_of_type(0, Vec::new())])]);
    assert!(!is_differential_ota(&full));
    for ty in [4, 5, 10] {
        let diff = manifest(vec![
            partition("boot", vec![op_of_type(0, Vec::new())]),
            partition("system", vec![op_of_type(ty, Vec::new())]),
        ]);
        assert!(is_differential_ota(&diff));
    }
    let zero_only = manifest(vec![partition("boot", vec![op_of_type(6, Vec::new())])]);
    assert!(!is_differential_ota(&zero_only));
}

#[test]
fn differential_gate_message() {
    let diff = manifest(vec![partition("boot", vec![op_of_type(4, Vec::new())])]);
    assert_eq!(check_differential_allowed(&diff, true), Ok(()));
    let err = check_differential_allowed(&diff, false).unwrap_err();
    assert_eq!(err, PayloadError::DifferentialNotEnabled);
    assert_eq!(
        err.message(),
        "This appears to be a differential OTA package. Use --diff argument and provide the original partitions directory with --old <path>"
    );
    let full = manifest(vec![partition("boot", vec![op_of_type(0, Vec::new())])]);
    assert_eq!(check_differential_allowed(&full, false), Ok(()));
}

#[test]
fn listing_counts_destination_blocks() {
    let ext = |s: u64, n: u64| Extent {
        start_block: Some(s),
        num_blocks: Some(n),
    };
    let m = manifest(vec![
        partition(
            "boot",
            vec![
                op_of_type(0, vec![ext(0, 2), ext(4, 3)]),
                op_of_type(6, vec![ext(10, 5)]),
            ],
        ),
        partition("empty", Vec::new()),
    ]);
    let entries = list_partitions(&m, 4096);
    assert_eq!(entries.len(), 2);
    assert_eq!(entries[0].name, "boot");
    assert_eq!(entries[0].blocks, 10);
    assert_eq!(entries[0].bytes, 10 * 4096);
    assert_eq!(entries[1].name, "empty");
    assert_eq!(entries[1].blocks, 0);
    assert_eq!(entries[1].bytes, 0);
}

#[test]
fn empty_filter_selects_all_partitions() {
    let m = manifest(vec![partition("a", Vec::new()), partition("b", Vec::new())]);
    let idx = filter_partition_indices(&m, &Vec::new());
    assert_eq!(idx, vec![0, 1]);
}

#[test]
fn filter_selects_named_partitions_in_order() {
    let m = manifest(vec![
        partition("boot", Vec::new()),
        partition("system", Vec::new()),
        partition("vendor", Vec::new()),
    ]);
    let names = vec!["vendor".to_string(), "boot".to_string()];
    let idx = filter_partition_indices(&m, &names);
    assert_eq!(idx, vec![0, 2]);
    let none = filter_partition_indices(&m, &vec!["nope".to_string()]);
    assert_eq!(none, Vec::<usize>::new());
}

#[test]
fn args_defaults() {
    let a = Args::new("payload.bin".to_string());
    assert_eq!(a.payload_path, "payload.bin");
    assert_eq!(a.out, "output");
    assert_eq!(a.old, "old");
    assert!(!a.diff);
    assert!(a.partitions.is_empty());
    assert_eq!(a.threads, None);
    assert!(!a.list);
    assert!(!a.metadata);
    assert!(!a.no_parallel);
    assert!(!a.skip_verify);
    let b = payload_dumper::module::args::Args::new("p.bin".to_string());
    assert_eq!(b.out, "output");
    assert_eq!(b.images, "");
}
