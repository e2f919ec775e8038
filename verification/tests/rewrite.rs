use std::collections::HashMap;

use iceberg_transaction::data_file::{
    DataContentType, DataFile, DataFileFormat, Literal, Struct,
};
use iceberg_transaction::error::ErrorKind;
use iceberg_transaction::ids::Uuid;
use iceberg_transaction::manifest::{
    ManifestContentType, ManifestEntry, ManifestFile, ManifestStatus,
};
use iceberg_transaction::metadata::{FormatVersion, Table, TableMetadata};
use iceberg_transaction::producer::{SnapshotProducer, WrittenSnapshot};
use iceberg_transaction::refs::{SnapshotRetention, MAIN_BRANCH};
use iceberg_transaction::rewrite::RewriteFilesAction;
use iceberg_transaction::rewrite_operation::{
    ManifestStep, ManifestWriteRequest, ManifestWriterKind, RewriteOperation,
};
use iceberg_transaction::snapshot::{Operation, Snapshot, Summary};
use iceberg_transaction::update::{ActionCommit, TableRequirement, TableUpdate};

const TABLE_UUID: u128 = 0x9c12d441_03fe_4693_9a96_a0705ddf69c1;

fn metadata(version: FormatVersion) -> TableMetadata {
    TableMetadata::new(version, Uuid { value: TABLE_UUID }, "s3://bucket/test/location", 4, 0)
}

fn make_v2_minimal_table() -> Table {
    Table::new(metadata(FormatVersion::V2))
}

fn snapshot(id: i64, sequence_number: i64) -> Snapshot {
    Snapshot {
        snapshot_id: id,
        parent_snapshot_id: None,
        sequence_number,
        timestamp_ms: 1000,
        manifest_list: format!("list-{}", id),
        summary: Summary { operation: Operation::Append, additional_properties: HashMap::new() },
    }
}

fn data_file(path: &str, record_count: u64, size: u64) -> DataFile {
    DataFile {
        content: DataContentType::Data,
        file_path: path.to_string(),
        file_format: DataFileFormat::Parquet,
        partition: Struct { fields: vec![Some(Literal::long(300))] },
        record_count,
        file_size_in_bytes: size,
        partition_spec_id: 0,
    }
}

fn create_test_data_file(path: &str) -> DataFile {
    data_file(path, 10, 1024)
}

fn rejection(action: RewriteFilesAction, table: &Table) -> String {
    let error = action.commit(table).err().unwrap();
    assert_eq!(error.kind(), ErrorKind::DataInvalid);
    error.message().to_string()
}

fn entry(status: ManifestStatus, path: &str, snapshot_id: Option<i64>) -> ManifestEntry {
    ManifestEntry {
        status,
        snapshot_id,
        sequence_number: Some(3),
        file_sequence_number: Some(4),
        data_file: create_test_data_file(path),
    }
}

fn manifest(path: &str, added: bool, existing: bool) -> ManifestFile {
    ManifestFile {
        manifest_path: path.to_string(),
        content: ManifestContentType::Data,
        has_added_files: added,
        has_existing_files: existing,
    }
}

type Driven = (Vec<ManifestFile>, Vec<(ManifestContentType, Vec<ManifestEntry>)>);

/// Answers every step and returns the manifests together with what was written.
fn drive(
    operation: RewriteOperation,
    table: &Table,
    lists: &HashMap<String, Vec<ManifestFile>>,
    manifests: &HashMap<String, Vec<ManifestEntry>>,
) -> Driven {
    try_drive(operation, table, lists, manifests).unwrap()
}

/// Answers every step; an action that is refused gives the message.
fn try_drive(
    operation: RewriteOperation,
    table: &Table,
    lists: &HashMap<String, Vec<ManifestFile>>,
    manifests: &HashMap<String, Vec<ManifestEntry>>,
) -> Result<Driven, String> {
    let mut written = vec![];
    let mut step = operation.existing_manifest(table);
    loop {
        step = match step {
            ManifestStep::Done { manifests } => return Ok((manifests, written)),
            ManifestStep::Refused { error } => {
                assert_eq!(error.kind(), ErrorKind::DataInvalid);
                return Err(error.message().to_string());
            }
            ManifestStep::LoadBaseManifestList { manifest_list, state } => {
                state.loaded(lists[&manifest_list].clone())
            }
            ManifestStep::LoadBaseManifest { state } => {
                let entries = manifests[&state.manifest().manifest_path].clone();
                state.loaded(entries)
            }
            ManifestStep::LoadManifestList { manifest_list, state } => {
                state.loaded(lists[&manifest_list].clone())
            }
            ManifestStep::LoadManifest { state } => {
                let entries = manifests[&state.manifest().manifest_path].clone();
                state.loaded(entries)
            }
            ManifestStep::WriteManifest { entries, content, state } => {
                written.push((content, entries));
                state.written(manifest(&format!("written-{}", written.len()), true, true))
            }
        };
    }
}

fn accepted(action: RewriteFilesAction, table: &Table) -> (SnapshotProducer, RewriteOperation) {
    match action.commit(table) {
        Ok(prepared) => prepared,
        Err(error) => panic!("rejected: {}", error.message()),
    }
}

fn committed(action: RewriteFilesAction, table: &Table) -> ActionCommit {
    let (producer, operation) = accepted(action, table);
    let kind = operation.operation();
    assert!(operation.delete_entries().is_empty());
    match operation.existing_manifest(table) {
        ManifestStep::Done { manifests } => assert!(manifests.is_empty()),
        _ => panic!("a table without a snapshot has no manifests"),
    }
    producer.commit(
        table,
        kind,
        WrittenSnapshot {
            snapshot_id: 77,
            sequence_number: 1,
            timestamp_ms: 5,
            manifest_list: "new-list".to_string(),
        },
    )
}

#[test]
fn test_rewrite_files_requires_deletes() {
    let table = make_v2_minimal_table();
    let new_file = create_test_data_file("test/new.parquet");

    let action = RewriteFilesAction::new().add_files(vec![new_file]);
    let result = action.commit(&table);
    assert!(result.is_err());
    assert!(result.err().unwrap().message().contains("at least one file to delete"));
}

#[test]
fn test_rewrite_files_requires_adds() {
    let table = make_v2_minimal_table();
    let old_file = create_test_data_file("test/old.parquet");

    let action = RewriteFilesAction::new().delete_files(vec![old_file]);
    let result = action.commit(&table);
    assert!(result.is_err());
    assert!(result.err().unwrap().message().contains("at least one file to add"));
}

#[test]
fn test_rewrite_files_action_basic() {
    let table = make_v2_minimal_table();
    let old_file = DataFile {
        partition_spec_id: table.metadata().default_partition_spec_id(),
        ..data_file("test/old.parquet", 5, 512)
    };
    let new_file = DataFile {
        partition_spec_id: table.metadata().default_partition_spec_id(),
        ..data_file("test/new.parquet", 10, 1024)
    };

    let action =
        RewriteFilesAction::new().delete_files(vec![old_file]).add_files(vec![new_file.clone()]);

    let mut action_commit = committed(action, &table);
    let updates = action_commit.take_updates();
    let requirements = action_commit.take_requirements();

    assert!(
        matches!((&updates[0],&updates[1]), (TableUpdate::AddSnapshot { snapshot },TableUpdate::SetSnapshotRef { reference,ref_name }) if snapshot.snapshot_id() == reference.snapshot_id && ref_name == MAIN_BRANCH)
    );

    let new_snapshot = if let TableUpdate::AddSnapshot { snapshot } = &updates[0] {
        snapshot
    } else {
        unreachable!()
    };
    assert_eq!(new_snapshot.summary().operation, Operation::Replace);

    assert!(requirements.iter().any(|r| matches!(
        r,
        TableRequirement::UuidMatch { uuid } if *uuid == table.metadata().uuid()
    )));
    assert!(requirements.iter().any(|r| matches!(
        r,
        TableRequirement::RefSnapshotIdMatch { ref_name, snapshot_id }
        if ref_name == MAIN_BRANCH && *snapshot_id == table.metadata().current_snapshot_id()
    )));
}

#[test]
fn test_rewrite_files_with_snapshot_properties() {
    let table = make_v2_minimal_table();
    let old_file = data_file("test/old.parquet", 5, 512);
    let new_file = data_file("test/new.parquet", 10, 1024);

    let mut snapshot_properties = HashMap::new();
    snapshot_properties.insert("compaction.reason".to_string(), "small-files".to_string());

    let action = RewriteFilesAction::new()
        .delete_files(vec![old_file])
        .add_files(vec![new_file])
        .set_snapshot_properties(snapshot_properties);

    let mut action_commit = committed(action, &table);
    let updates = action_commit.take_updates();

    let new_snapshot = if let TableUpdate::AddSnapshot { snapshot } = &updates[0] {
        snapshot
    } else {
        unreachable!()
    };

    assert_eq!(
        new_snapshot.summary().additional_properties.get("compaction.reason").unwrap(),
        "small-files"
    );
}

#[test]
fn added_files_are_checked_in_order() {
    let table = make_v2_minimal_table();
    let deletes = DataFile {
        content: DataContentType::PositionDeletes,
        ..create_test_data_file("deletes")
    };
    let foreign = DataFile { partition_spec_id: 9, ..create_test_data_file("foreign") };
    let base = || RewriteFilesAction::new().delete_files(vec![create_test_data_file("old")]);
    assert_eq!(
        rejection(base().add_files(vec![deletes.clone(), foreign.clone()]), &table),
        "Only data content type is allowed for rewrite files"
    );
    assert_eq!(
        rejection(base().add_files(vec![foreign, deletes]), &table),
        "Data file partition spec id does not match table default partition spec id"
    );
    let both = DataFile {
        content: DataContentType::EqualityDeletes,
        partition_spec_id: 9,
        ..create_test_data_file("both")
    };
    assert_eq!(
        rejection(base().add_files(vec![create_test_data_file("fine"), both]), &table),
        "Only data content type is allowed for rewrite files"
    );
}

fn table_with_later_snapshot() -> Table {
    Table::new(
        metadata(FormatVersion::V2)
            .with_snapshot(snapshot(1, 1))
            .with_snapshot(snapshot(2, 2))
            .with_current_snapshot_id(2),
    )
}

fn replacing() -> RewriteFilesAction {
    RewriteFilesAction::new()
        .delete_files(vec![create_test_data_file("old")])
        .add_files(vec![create_test_data_file("new")])
}

#[test]
fn validation_detects_a_later_snapshot() {
    let table = table_with_later_snapshot();
    assert_eq!(
        rejection(replacing().validate_from_snapshot(Some(1)), &table),
        "Concurrent modification detected: base sequence 1 != current sequence 2. \
         Files may have been added, removed, or modified in affected partitions."
    );
    assert!(replacing().validate_from_snapshot(Some(2)).commit(&table).is_ok());
    assert!(replacing().validate_from_snapshot(Some(3)).commit(&table).is_ok());
    assert!(replacing().validate_from_snapshot(None).commit(&table).is_ok());
    assert!(replacing()
        .validate_from_snapshot(Some(1))
        .validate_no_concurrent_deletes()
        .commit(&table)
        .is_err());
}

#[test]
fn validation_can_be_asked_for_first() {
    let table = table_with_later_snapshot();
    let files_last = |action: RewriteFilesAction| {
        action
            .delete_files(vec![create_test_data_file("old")])
            .add_files(vec![create_test_data_file("new")])
    };
    assert_eq!(
        rejection(files_last(RewriteFilesAction::new().validate_from_snapshot(Some(1))), &table),
        rejection(replacing().validate_from_snapshot(Some(1)), &table)
    );
    assert!(files_last(RewriteFilesAction::new().validate_from_snapshot(Some(2)))
        .commit(&table)
        .is_ok());
    assert!(files_last(
        RewriteFilesAction::new().validate_from_snapshot(Some(1)).validate_from_snapshot(None)
    )
    .commit(&table)
    .is_ok());
}

/// Drives the action on the table whose current snapshot has one manifest with
/// the given entries.
fn refusal(action: RewriteFilesAction, table: &Table, entries: Vec<ManifestEntry>) -> Option<String> {
    let (_, operation) = accepted(action, table);
    let mut lists = HashMap::new();
    lists.insert("list-1".to_string(), vec![manifest("m", true, true)]);
    lists.insert("list-2".to_string(), vec![manifest("m", true, true)]);
    let mut manifests = HashMap::new();
    manifests.insert("m".to_string(), entries);
    try_drive(operation, table, &lists, &manifests).err()
}

const OLD_IS_MISSING: &str = "Concurrent modification detected: \
    file to remove 'old' does not exist in the current snapshot";

#[test]
fn delete_check_alone_detects_removed_files() {
    let table = table_with_later_snapshot();
    let live = || vec![entry(ManifestStatus::Existing, "old", None)];
    let deleted = || vec![entry(ManifestStatus::Deleted, "old", None)];
    let other = || vec![entry(ManifestStatus::Added, "other", None)];

    let checking = || replacing().validate_no_concurrent_deletes();
    assert_eq!(refusal(checking(), &table, live()), None);
    assert_eq!(refusal(checking(), &table, deleted()), Some(OLD_IS_MISSING.to_string()));
    assert_eq!(refusal(checking(), &table, other()), Some(OLD_IS_MISSING.to_string()));

    let checking_first = || {
        RewriteFilesAction::new()
            .validate_no_concurrent_deletes()
            .delete_files(vec![create_test_data_file("old")])
            .add_files(vec![create_test_data_file("new")])
    };
    assert_eq!(refusal(checking_first(), &table, live()), None);
    assert_eq!(refusal(checking_first(), &table, deleted()), Some(OLD_IS_MISSING.to_string()));

    assert_eq!(refusal(replacing(), &table, deleted()), None);
    assert_eq!(refusal(replacing(), &table, other()), None);
}

#[test]
fn validation_detects_removed_files_after_a_rollback() {
    let rolled_back = Table::new(
        metadata(FormatVersion::V2)
            .with_snapshot(snapshot(1, 1))
            .with_snapshot(snapshot(2, 2))
            .with_current_snapshot_id(1),
    );
    let validating = || replacing().validate_from_snapshot(Some(2));
    assert_eq!(
        refusal(validating(), &rolled_back, vec![entry(ManifestStatus::Added, "other", None)]),
        Some(OLD_IS_MISSING.to_string())
    );
    assert_eq!(
        refusal(validating(), &rolled_back, vec![entry(ManifestStatus::Added, "old", None)]),
        None
    );
}

#[test]
fn validation_detects_added_files_without_later_sequence_numbers() {
    let table = Table::new(
        metadata(FormatVersion::V1)
            .with_snapshot(snapshot(1, 0))
            .with_snapshot(snapshot(2, 0))
            .with_current_snapshot_id(2),
    );
    let mut lists = HashMap::new();
    lists.insert("list-1".to_string(), vec![manifest("m1", true, true)]);
    lists.insert(
        "list-2".to_string(),
        vec![manifest("m1", true, true), manifest("m2", true, true)],
    );
    let drive_with = |action: RewriteFilesAction, added: DataFile| {
        let mut manifests = HashMap::new();
        manifests.insert("m1".to_string(), vec![entry(ManifestStatus::Existing, "old", None)]);
        manifests.insert(
            "m2".to_string(),
            vec![ManifestEntry {
                data_file: added,
                ..entry(ManifestStatus::Added, "more", None)
            }],
        );
        let (_, operation) = accepted(action, &table);
        try_drive(operation, &table, &lists, &manifests).err()
    };
    let in_partition = create_test_data_file("more");
    let elsewhere = DataFile {
        partition: Struct { fields: vec![Some(Literal::long(301))] },
        ..create_test_data_file("more")
    };
    let validating = || replacing().validate_from_snapshot(Some(1));
    assert_eq!(
        drive_with(validating(), in_partition.clone()),
        Some(
            "Concurrent modification detected: file 'more' was added to an affected partition"
                .to_string()
        )
    );
    assert_eq!(drive_with(validating(), elsewhere), None);
    for lenient in [
        replacing().validate_from_snapshot(Some(2)),
        replacing().validate_from_snapshot(Some(3)),
        replacing().validate_no_concurrent_deletes(),
        replacing(),
    ] {
        assert_eq!(drive_with(lenient, in_partition.clone()), None);
    }
}

#[test]
fn checked_files_may_be_in_different_manifests() {
    let table = table_with_later_snapshot();
    let operation = || {
        accepted(
            RewriteFilesAction::new()
                .delete_files(vec![create_test_data_file("a"), create_test_data_file("b")])
                .add_files(vec![create_test_data_file("new")])
                .validate_no_concurrent_deletes(),
            &table,
        )
        .1
    };
    let mut lists = HashMap::new();
    lists.insert(
        "list-2".to_string(),
        vec![manifest("m1", true, true), manifest("m2", true, true)],
    );
    let mut manifests = HashMap::new();
    manifests.insert("m1".to_string(), vec![entry(ManifestStatus::Added, "b", None)]);
    manifests.insert("m2".to_string(), vec![entry(ManifestStatus::Existing, "a", None)]);
    let (result, written) = drive(operation(), &table, &lists, &manifests);
    assert_eq!(result.len(), 2);
    assert_eq!(written.len(), 2);

    manifests.insert("m2".to_string(), vec![entry(ManifestStatus::Added, "c", None)]);
    assert_eq!(
        try_drive(operation(), &table, &lists, &manifests).err().unwrap(),
        "Concurrent modification detected: \
         file to remove 'a' does not exist in the current snapshot"
    );
}

#[test]
fn checked_files_need_a_current_snapshot() {
    let no_current = Table::new(metadata(FormatVersion::V2).with_snapshot(snapshot(1, 1)));
    for action in [
        replacing().validate_no_concurrent_deletes(),
        replacing().validate_from_snapshot(Some(1)),
    ] {
        let (_, operation) = accepted(action, &no_current);
        let result = try_drive(operation, &no_current, &HashMap::new(), &HashMap::new());
        assert_eq!(result.err().unwrap(), OLD_IS_MISSING);
    }
    let (_, operation) = accepted(replacing(), &no_current);
    assert!(try_drive(operation, &no_current, &HashMap::new(), &HashMap::new()).is_ok());
}

#[test]
fn prepared_commit_carries_everything_on() {
    let table = make_v2_minimal_table();
    let mut properties = HashMap::new();
    properties.insert("k".to_string(), "v".to_string());
    let action = || {
        RewriteFilesAction::new()
            .delete_files(vec![create_test_data_file("a")])
            .delete_files(vec![create_test_data_file("b")])
            .add_files(vec![create_test_data_file("c")])
            .add_files(vec![create_test_data_file("d")])
            .set_key_metadata(vec![1, 2, 3])
            .set_snapshot_properties(properties.clone())
    };
    let (producer, _) = accepted(action().set_commit_uuid(Uuid { value: 42 }), &table);
    assert_eq!(producer.commit_uuid, Uuid { value: 42 });
    assert_eq!(producer.key_metadata, Some(vec![1, 2, 3]));
    assert_eq!(producer.snapshot_properties["k"], "v");
    let paths: Vec<&str> =
        producer.added_data_files.iter().map(|f| f.file_path.as_str()).collect();
    assert_eq!(paths, vec!["c", "d"]);

    let given = Uuid { value: 99 };
    let (producer, _) = action().commit_as(&table, given).ok().unwrap();
    assert_eq!(producer.commit_uuid, given);
    let own = Uuid { value: 43 };
    let (producer, _) = action().set_commit_uuid(own).commit_as(&table, given).ok().unwrap();
    assert_eq!(producer.commit_uuid, own);
}

#[test]
fn fresh_commit_ids_are_ordered_by_time() {
    let table = make_v2_minimal_table();
    let first = accepted(replacing(), &table).0.commit_uuid.value;
    let second = accepted(replacing(), &table).0.commit_uuid.value;
    assert_eq!(uuid::Uuid::from_u128(first).get_version_num(), 7);
    assert_eq!(uuid::Uuid::from_u128(first).get_variant(), uuid::Variant::RFC4122);
    assert!(first < second);
}

#[test]
fn produced_snapshot_follows_the_current_one() {
    let table = table_with_later_snapshot();
    let (producer, operation) = accepted(replacing(), &table);
    let mut commit = producer.commit(
        &table,
        operation.operation(),
        WrittenSnapshot {
            snapshot_id: 3,
            sequence_number: 3,
            timestamp_ms: 1234,
            manifest_list: "list-3".to_string(),
        },
    );
    let updates = commit.take_updates();
    assert_eq!(updates.len(), 2);
    match &updates[0] {
        TableUpdate::AddSnapshot { snapshot } => {
            assert_eq!(snapshot.snapshot_id, 3);
            assert_eq!(snapshot.parent_snapshot_id, Some(2));
            assert_eq!(snapshot.sequence_number(), 3);
            assert_eq!(snapshot.timestamp_ms, 1234);
            assert_eq!(snapshot.manifest_list, "list-3");
        }
        _ => panic!("Expected AddSnapshot update"),
    }
    match &updates[1] {
        TableUpdate::SetSnapshotRef { ref_name, reference } => {
            assert_eq!(ref_name, "main");
            assert_eq!(reference.snapshot_id, 3);
            assert_eq!(reference.retention, SnapshotRetention::branch(None, None, None));
        }
        _ => panic!("Expected SetSnapshotRef update"),
    }
    let requirements = commit.take_requirements();
    assert_eq!(requirements.len(), 2);
    assert!(matches!(
        &requirements[1],
        TableRequirement::RefSnapshotIdMatch { ref_name, snapshot_id: Some(2) } if ref_name == "main"
    ));
}

#[test]
fn manifests_are_kept_rewritten_or_left_out() {
    let table = table_with_later_snapshot();
    let action = RewriteFilesAction::new()
        .delete_files(vec![create_test_data_file("gone"), create_test_data_file("also-gone")])
        .add_files(vec![create_test_data_file("new")]);
    let (_, operation) = accepted(action, &table);

    let mut lists = HashMap::new();
    lists.insert(
        "list-2".to_string(),
        vec![
            manifest("untouched", true, false),
            manifest("mixed", true, true),
            manifest("empty", false, false),
            ManifestFile {
                content: ManifestContentType::Deletes,
                ..manifest("all-removed", false, false)
            },
            manifest("old-news", false, true),
        ],
    );
    let mut manifests = HashMap::new();
    manifests.insert(
        "untouched".to_string(),
        vec![entry(ManifestStatus::Added, "stays", None)],
    );
    manifests.insert(
        "mixed".to_string(),
        vec![
            entry(ManifestStatus::Existing, "kept", Some(1)),
            entry(ManifestStatus::Added, "gone", None),
            entry(ManifestStatus::Deleted, "forgotten", Some(1)),
            entry(ManifestStatus::Added, "kept-too", None),
            entry(ManifestStatus::Existing, "also-gone", Some(1)),
        ],
    );
    manifests.insert("empty".to_string(), vec![entry(ManifestStatus::Deleted, "x", None)]);
    manifests.insert(
        "all-removed".to_string(),
        vec![entry(ManifestStatus::Existing, "gone", None)],
    );
    manifests.insert(
        "old-news".to_string(),
        vec![entry(ManifestStatus::Deleted, "gone", Some(1))],
    );

    let (result, written) = drive(operation, &table, &lists, &manifests);
    let paths: Vec<&str> = result.iter().map(|m| m.manifest_path.as_str()).collect();
    assert_eq!(paths, vec!["untouched", "written-1", "written-2", "old-news"]);

    assert_eq!(written.len(), 2);
    assert_eq!(written[0].0, ManifestContentType::Data);
    let rows: Vec<(ManifestStatus, &str, Option<i64>)> = written[0]
        .1
        .iter()
        .map(|e| (e.status, e.data_file.file_path.as_str(), e.snapshot_id))
        .collect();
    assert_eq!(
        rows,
        vec![
            (ManifestStatus::Existing, "kept", Some(1)),
            (ManifestStatus::Deleted, "gone", Some(2)),
            (ManifestStatus::Added, "kept-too", None),
            (ManifestStatus::Deleted, "also-gone", Some(1)),
        ]
    );
    assert!(written[0].1.iter().all(|e| e.sequence_number == Some(3)));
    assert!(written[0].1.iter().all(|e| e.file_sequence_number == Some(4)));
    assert_eq!(written[1].0, ManifestContentType::Deletes);
    assert_eq!(written[1].1.len(), 1);
    assert_eq!(written[1].1[0].status, ManifestStatus::Deleted);
    assert!(!written[1].1[0].is_alive());
}

#[test]
fn unaffected_manifests_stay_as_they_are() {
    let table = table_with_later_snapshot();
    let (_, operation) = accepted(replacing(), &table);
    let list = vec![manifest("m1", true, false), manifest("m2", false, true)];
    let mut lists = HashMap::new();
    lists.insert("list-2".to_string(), list.clone());
    let mut manifests = HashMap::new();
    manifests.insert("m1".to_string(), vec![entry(ManifestStatus::Added, "a", None)]);
    manifests.insert("m2".to_string(), vec![entry(ManifestStatus::Existing, "b", None)]);
    let (result, written) = drive(operation, &table, &lists, &manifests);
    assert_eq!(result, list);
    assert!(written.is_empty());
}

#[test]
fn manifest_request_is_made_from_the_table() {
    let table = make_v2_minimal_table();
    let uuid = Uuid { value: 0x0123456789abcdef_fedcba9876543210 };
    let entries = vec![entry(ManifestStatus::Added, "a", None)];
    let request =
        ManifestWriteRequest::new(&table, entries, ManifestContentType::Data, uuid, 1700000000123);
    assert_eq!(
        request.path,
        "s3://bucket/test/location/metadata/01234567-89ab-cdef-fedc-ba9876543210-m1700000000123.avro"
    );
    assert_eq!(request.writer, ManifestWriterKind::V2Data);
    assert_eq!(request.snapshot_id, None);
    assert_eq!(request.key_metadata, None);
    assert_eq!(request.schema_id, 4);
    assert_eq!(request.partition_spec_id, 0);
    assert_eq!(request.entries.len(), 1);
}

#[test]
fn writer_goes_by_format_and_content() {
    let data = ManifestContentType::Data;
    let deletes = ManifestContentType::Deletes;
    for (version, content, writer) in [
        (FormatVersion::V1, data, ManifestWriterKind::V1),
        (FormatVersion::V1, deletes, ManifestWriterKind::V1),
        (FormatVersion::V2, data, ManifestWriterKind::V2Data),
        (FormatVersion::V2, deletes, ManifestWriterKind::V2Deletes),
        (FormatVersion::V3, data, ManifestWriterKind::V3Data),
        (FormatVersion::V3, deletes, ManifestWriterKind::V3Deletes),
    ] {
        let table = Table::new(metadata(version));
        let request = ManifestWriteRequest::new(&table, vec![], content, Uuid { value: 1 }, 0);
        assert_eq!(request.writer, writer);
    }
}

#[test]
fn fresh_manifest_paths_differ() {
    let table = make_v2_minimal_table();
    let fresh = || {
        RewriteOperation::write_manifest_with_entries(&table, vec![], ManifestContentType::Data)
            .path
    };
    let path = fresh();
    assert_ne!(path, fresh());
    let rest = path.strip_prefix("s3://bucket/test/location/metadata/").unwrap();
    let (id, millis) = rest.strip_suffix(".avro").unwrap().split_at(36);
    let id = uuid::Uuid::parse_str(id).unwrap();
    assert_eq!(id.get_version_num(), 4);
    assert_eq!(id.get_variant(), uuid::Variant::RFC4122);
    let millis: i64 = millis.strip_prefix("-m").unwrap().parse().unwrap();
    assert!(millis > 1_600_000_000_000);
}

#[test]
fn a_second_removal_finds_nothing() {
    let table = table_with_later_snapshot();
    let mut lists = HashMap::new();
    lists.insert("list-2".to_string(), vec![manifest("m", true, true)]);
    let mut manifests = HashMap::new();
    manifests.insert(
        "m".to_string(),
        vec![
            entry(ManifestStatus::Added, "old", None),
            entry(ManifestStatus::Existing, "kept", None),
        ],
    );
    let (_, operation) = accepted(replacing(), &table);
    let (_, mut written) = drive(operation, &table, &lists, &manifests);
    assert_eq!(written.len(), 1);
    manifests.insert("m".to_string(), written.remove(0).1);
    let (_, operation) = accepted(replacing(), &table);
    let (result, written) = drive(operation, &table, &lists, &manifests);
    assert!(written.is_empty());
    assert_eq!(result, vec![manifest("m", true, true)]);
}
