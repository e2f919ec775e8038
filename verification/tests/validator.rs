use std::collections::HashMap;

use iceberg_transaction::data_file::{
    DataContentType, DataFile, DataFileFormat, Literal, PartitionSet, Struct,
};
use iceberg_transaction::error::ErrorKind;
use iceberg_transaction::manifest::{ManifestEntry, ManifestStatus};
use iceberg_transaction::snapshot::{Operation, Snapshot, Summary};
use iceberg_transaction::validator::{RewriteValidator, SnapshotValidator};

fn create_test_snapshot(snapshot_id: i64, sequence_number: i64) -> Snapshot {
    Snapshot {
        snapshot_id,
        parent_snapshot_id: None,
        sequence_number,
        timestamp_ms: 1000,
        manifest_list: "s3://bucket/metadata/snap.avro".to_string(),
        summary: Summary { operation: Operation::Append, additional_properties: HashMap::new() },
    }
}

fn create_test_data_file(path: &str) -> DataFile {
    DataFile {
        content: DataContentType::Data,
        file_path: path.to_string(),
        file_format: DataFileFormat::Parquet,
        partition: Struct::empty(),
        record_count: 100,
        file_size_in_bytes: 1024,
        partition_spec_id: 0,
    }
}

#[test]
fn test_rewrite_validator_same_snapshot() {
    let snapshot = create_test_snapshot(1, 1);
    let file = create_test_data_file("file1.parquet");
    let validator = RewriteValidator::new(vec![file]);

    assert!(validator.validate(&snapshot, &snapshot).is_ok());
}

#[test]
fn test_rewrite_validator_sequence_number_change_basic() {
    let base = create_test_snapshot(1, 1);
    let current = create_test_snapshot(2, 2);
    let file = create_test_data_file("file1.parquet");

    let validator = RewriteValidator::new(vec![file.clone()]);
    assert!(validator.validate(&base, &current).is_ok());
}

#[test]
fn test_rewrite_validator_with_partition_validation_detects_change() {
    let base = create_test_snapshot(1, 1);
    let current = create_test_snapshot(2, 2);
    let file = create_test_data_file("file1.parquet");

    let validator =
        RewriteValidator::new(vec![file.clone()]).with_partition_validation(&[file]);

    let result = validator.validate(&base, &current);
    assert!(result.is_err());
    assert!(result.unwrap_err().message().contains("Concurrent modification detected"));
}

#[test]
fn test_rewrite_validator_with_concurrent_delete_check() {
    let base = create_test_snapshot(1, 1);
    let current = create_test_snapshot(2, 2);
    let file = create_test_data_file("file1.parquet");

    let validator = RewriteValidator::new(vec![file]).with_concurrent_delete_check();

    let result = validator.validate(&base, &current);
    assert!(result.is_err());
    assert!(result.unwrap_err().message().contains("Concurrent modification detected"));
}

#[test]
fn conflict_message_names_both_sequence_numbers() {
    let validator = RewriteValidator::new(vec![]).with_concurrent_delete_check();
    let error = validator
        .validate(&create_test_snapshot(1, 17), &create_test_snapshot(2, 1030))
        .unwrap_err();
    assert_eq!(
        error.message(),
        "Concurrent modification detected: base sequence 17 != current sequence 1030. \
         Files may have been added, removed, or modified in affected partitions."
    );
}

fn entry(status: ManifestStatus, path: &str) -> ManifestEntry {
    ManifestEntry {
        status,
        snapshot_id: None,
        sequence_number: None,
        file_sequence_number: None,
        data_file: create_test_data_file(path),
    }
}

#[test]
fn files_to_remove_must_exist() {
    let files = || vec![create_test_data_file("a"), create_test_data_file("b")];
    let both = [entry(ManifestStatus::Existing, "b"), entry(ManifestStatus::Added, "a")];
    let deleted = [entry(ManifestStatus::Added, "a"), entry(ManifestStatus::Deleted, "b")];
    for validator in [
        RewriteValidator::new(files()).with_concurrent_delete_check(),
        RewriteValidator::new(files()).with_partition_validation(&files()),
    ] {
        assert!(validator.validate_files(&both).is_ok());
        let error = validator.validate_files(&deleted).unwrap_err();
        assert_eq!(error.kind(), ErrorKind::DataInvalid);
        assert_eq!(
            error.message(),
            "Concurrent modification detected: \
             file to remove 'b' does not exist in the current snapshot"
        );
        assert_eq!(
            validator.validate_files(&[]).unwrap_err().message(),
            "Concurrent modification detected: \
             file to remove 'a' does not exist in the current snapshot"
        );
    }
    assert!(RewriteValidator::new(files()).validate_files(&[]).is_ok());
    assert!(RewriteValidator::new(vec![])
        .with_concurrent_delete_check()
        .validate_files(&[])
        .is_ok());
}

#[test]
fn no_file_may_be_added_to_affected_partitions() {
    let in_partition = |status: ManifestStatus, path: &str, value: i64| ManifestEntry {
        data_file: DataFile {
            partition: Struct { fields: vec![Some(Literal::long(value))] },
            ..create_test_data_file(path)
        },
        ..entry(status, path)
    };
    let old = in_partition(ManifestStatus::Existing, "old", 1);
    let files = vec![old.data_file.clone()];
    let base = [old.clone(), in_partition(ManifestStatus::Deleted, "back", 1)];
    let validator =
        RewriteValidator::new(files.clone()).with_partition_validation(&files);

    assert!(validator.validate_partitions(&base, &base).is_ok());
    let elsewhere = [old.clone(), in_partition(ManifestStatus::Added, "new", 2)];
    assert!(validator.validate_partitions(&base, &elsewhere).is_ok());
    let gone = [in_partition(ManifestStatus::Deleted, "new", 1)];
    assert!(validator.validate_partitions(&base, &gone).is_ok());
    let added = [
        old,
        in_partition(ManifestStatus::Added, "new", 1),
        in_partition(ManifestStatus::Added, "newer", 1),
    ];
    let error = validator.validate_partitions(&base, &added).unwrap_err();
    assert_eq!(error.kind(), ErrorKind::DataInvalid);
    assert_eq!(
        error.message(),
        "Concurrent modification detected: file 'new' was added to an affected partition"
    );
    let back = [in_partition(ManifestStatus::Existing, "back", 1)];
    assert!(validator.validate_partitions(&base, &back).is_err());

    let deletes_only = RewriteValidator::new(files).with_concurrent_delete_check();
    assert!(deletes_only.validate_partitions(&base, &added).is_ok());
    assert!(RewriteValidator::new(vec![]).validate_partitions(&base, &added).is_ok());
}

#[test]
fn a_partition_is_found_in_its_set() {
    let set = PartitionSet::of(&[create_test_data_file("a")]);
    assert!(set.contains(&Struct::empty()));
    assert!(!set.contains(&Struct { fields: vec![None] }));
}

#[test]
fn a_rollback_is_told_by_the_files() {
    let base = create_test_snapshot(1, 5);
    let file = create_test_data_file("f");
    let validator = RewriteValidator::new(vec![file]).with_concurrent_delete_check();
    assert!(validator.validate(&base, &create_test_snapshot(2, 6)).is_err());
    assert!(validator.validate(&base, &create_test_snapshot(2, 4)).is_ok());
    assert!(validator.validate_files(&[entry(ManifestStatus::Added, "g")]).is_err());
    assert!(validator.validate_files(&[entry(ManifestStatus::Added, "f")]).is_ok());
}

#[test]
fn checks_can_be_enabled_in_either_order() {
    let file = create_test_data_file("a");
    let base = create_test_snapshot(1, 1);
    let current = create_test_snapshot(2, 2);
    let one = RewriteValidator::new(vec![])
        .with_partition_validation(&[file.clone()])
        .with_concurrent_delete_check();
    let other = RewriteValidator::new(vec![])
        .with_concurrent_delete_check()
        .with_partition_validation(&[file]);
    assert_eq!(
        one.validate(&base, &current).unwrap_err().message(),
        other.validate(&base, &current).unwrap_err().message()
    );
}

#[test]
fn a_partition_stands_in_a_set_once() {
    let in_partition = |value: Option<Literal>| DataFile {
        partition: Struct { fields: vec![value] },
        ..create_test_data_file("f")
    };
    let files = vec![
        in_partition(Some(Literal::long(300))),
        in_partition(Some(Literal::Int(300))),
        in_partition(Some(Literal::long(300))),
        in_partition(None),
        in_partition(Some(Literal::Binary(vec![1, 2]))),
        in_partition(Some(Literal::Binary(vec![1, 2]))),
        in_partition(Some(Literal::Binary(vec![1, 3]))),
        in_partition(Some(Literal::String("x".to_string()))),
        in_partition(None),
        create_test_data_file("unpartitioned"),
    ];
    let set = PartitionSet::of(&files);
    assert_eq!(format!("{:?}", set).matches("Struct").count(), 7);
    assert_eq!(format!("{:?}", set.clone()), format!("{:?}", set));
}

/// A validator of another kind.
struct NeverValid;

impl SnapshotValidator for NeverValid {
    fn validate(
        &self,
        _base_snapshot: &Snapshot,
        _current_snapshot: &Snapshot,
    ) -> Result<(), iceberg_transaction::error::Error> {
        Err(iceberg_transaction::error::Error::new(
            iceberg_transaction::error::ErrorKind::DataInvalid,
            "never".to_string(),
        ))
    }
}

#[test]
fn other_validators_can_be_written() {
    let validators: Vec<Box<dyn SnapshotValidator>> =
        vec![Box::new(RewriteValidator::new(vec![])), Box::new(NeverValid)];
    let snapshot = create_test_snapshot(1, 1);
    assert!(validators[0].validate(&snapshot, &snapshot).is_ok());
    assert!(validators[1].validate(&snapshot, &snapshot).is_err());
}
