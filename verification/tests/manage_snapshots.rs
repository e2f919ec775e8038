use std::collections::HashMap;

use iceberg_transaction::error::ErrorKind;
use iceberg_transaction::ids::Uuid;
use iceberg_transaction::manage_snapshots::ManageSnapshotsAction;
use iceberg_transaction::metadata::{FormatVersion, Table, TableMetadata};
use iceberg_transaction::refs::{SnapshotReference, SnapshotRetention};
use iceberg_transaction::snapshot::{Operation, Snapshot, Summary};
use iceberg_transaction::update::{ActionCommit, TableRequirement, TableUpdate};

const TABLE_UUID: u128 = 0x9c12d441_03fe_4693_9a96_a0705ddf69c1;
const FIRST: i64 = 3051729675574597004;
const SECOND: i64 = 3055729675574597004;

fn snapshot(id: i64, parent: Option<i64>, sequence_number: i64) -> Snapshot {
    Snapshot {
        snapshot_id: id,
        parent_snapshot_id: parent,
        sequence_number,
        timestamp_ms: 1515100955770,
        manifest_list: format!("s3://a/b/{}.avro", id),
        summary: Summary { operation: Operation::Append, additional_properties: HashMap::new() },
    }
}

fn branch_at(snapshot_id: i64) -> SnapshotReference {
    SnapshotReference::new(snapshot_id, SnapshotRetention::branch(None, None, None))
}

fn tag_at(snapshot_id: i64) -> SnapshotReference {
    SnapshotReference::new(snapshot_id, SnapshotRetention::Tag { max_ref_age_ms: None })
}

fn bare_metadata() -> TableMetadata {
    TableMetadata::new(
        FormatVersion::V2,
        Uuid { value: TABLE_UUID },
        "s3://bucket/test/location",
        1,
        0,
    )
}

fn make_v2_table() -> Table {
    Table::new(
        bare_metadata()
            .with_snapshot(snapshot(FIRST, None, 0))
            .with_snapshot(snapshot(SECOND, Some(FIRST), 1))
            .with_ref("main", branch_at(SECOND))
            .with_current_snapshot_id(SECOND),
    )
}

/// A table as a catalog keeps it.
struct Catalog {
    snapshots: Vec<Snapshot>,
    refs: HashMap<String, SnapshotReference>,
}

impl Catalog {
    fn new() -> Catalog {
        Catalog { snapshots: vec![], refs: HashMap::new() }
    }

    fn append(&mut self, snapshot_id: i64, properties: HashMap<String, String>) {
        let parent = self.snapshots.last().map(|s| s.snapshot_id);
        let sequence_number = self.snapshots.len() as i64 + 1;
        let mut added = snapshot(snapshot_id, parent, sequence_number);
        added.summary.additional_properties = properties;
        self.snapshots.push(added);
        self.refs.insert("main".to_string(), branch_at(snapshot_id));
    }

    fn table(&self) -> Table {
        let mut metadata = bare_metadata();
        for s in &self.snapshots {
            metadata = metadata.with_snapshot(s.clone());
        }
        for (name, reference) in &self.refs {
            metadata = metadata.with_ref(name, *reference);
        }
        if let Some(last) = self.snapshots.last() {
            metadata = metadata.with_current_snapshot_id(last.snapshot_id);
        }
        Table::new(metadata)
    }

    fn apply(&mut self, mut commit: ActionCommit) {
        for update in commit.take_updates() {
            match update {
                TableUpdate::AddSnapshot { snapshot } => self.snapshots.push(snapshot),
                TableUpdate::SetSnapshotRef { ref_name, reference } => {
                    self.refs.insert(ref_name, reference);
                }
                TableUpdate::RemoveSnapshotRef { ref_name } => {
                    self.refs.remove(&ref_name);
                }
            }
        }
    }
}

fn rejection(action: ManageSnapshotsAction, table: &Table) -> String {
    let error = action.commit(table).err().unwrap();
    assert_eq!(error.kind(), ErrorKind::DataInvalid);
    error.message().to_string()
}

#[test]
fn test_create_tag() {
    let table = make_v2_table();
    let snapshot_id = table.metadata().current_snapshot_id().unwrap();

    let action = ManageSnapshotsAction::new().create_tag("my-tag", snapshot_id);
    let mut action_commit = action.commit(&table).unwrap();
    let updates = action_commit.take_updates();
    let requirements = action_commit.take_requirements();

    assert_eq!(updates.len(), 1);
    match &updates[0] {
        TableUpdate::SetSnapshotRef { ref_name, reference } => {
            assert_eq!(ref_name, "my-tag");
            assert_eq!(reference.snapshot_id, snapshot_id);
            assert!(matches!(reference.retention, SnapshotRetention::Tag { .. }));
        }
        _ => panic!("Expected SetSnapshotRef update"),
    }

    assert_eq!(requirements.len(), 1);
    assert!(matches!(requirements[0], TableRequirement::UuidMatch { .. }));
}

#[test]
fn test_create_tag_with_retention() {
    let table = make_v2_table();
    let snapshot_id = table.metadata().current_snapshot_id().unwrap();
    let max_age = 86400000i64;

    let action = ManageSnapshotsAction::new().create_tag_with_retention(
        "temp-tag",
        snapshot_id,
        max_age,
    );
    let mut action_commit = action.commit(&table).unwrap();
    let updates = action_commit.take_updates();

    match &updates[0] {
        TableUpdate::SetSnapshotRef { ref_name, reference } => {
            assert_eq!(ref_name, "temp-tag");
            match &reference.retention {
                SnapshotRetention::Tag { max_ref_age_ms } => {
                    assert_eq!(*max_ref_age_ms, Some(max_age));
                }
                _ => panic!("Expected Tag retention"),
            }
        }
        _ => panic!("Expected SetSnapshotRef update"),
    }
}

#[test]
fn test_create_branch() {
    let table = make_v2_table();
    let snapshot_id = table.metadata().current_snapshot_id().unwrap();

    let action = ManageSnapshotsAction::new().create_branch("feature-branch", snapshot_id);
    let mut action_commit = action.commit(&table).unwrap();
    let updates = action_commit.take_updates();

    assert_eq!(updates.len(), 1);
    match &updates[0] {
        TableUpdate::SetSnapshotRef { ref_name, reference } => {
            assert_eq!(ref_name, "feature-branch");
            assert_eq!(reference.snapshot_id, snapshot_id);
            assert!(matches!(reference.retention, SnapshotRetention::Branch { .. }));
        }
        _ => panic!("Expected SetSnapshotRef update"),
    }
}

#[test]
fn test_create_branch_with_retention() {
    let table = make_v2_table();
    let snapshot_id = table.metadata().current_snapshot_id().unwrap();

    let action = ManageSnapshotsAction::new().create_branch_with_retention(
        "experiment",
        snapshot_id,
        Some(86400000),
        Some(5),
        Some(604800000),
    );
    let mut action_commit = action.commit(&table).unwrap();
    let updates = action_commit.take_updates();

    match &updates[0] {
        TableUpdate::SetSnapshotRef { ref_name, reference } => {
            assert_eq!(ref_name, "experiment");
            match &reference.retention {
                SnapshotRetention::Branch {
                    min_snapshots_to_keep,
                    max_snapshot_age_ms,
                    max_ref_age_ms,
                } => {
                    assert_eq!(*min_snapshots_to_keep, Some(5));
                    assert_eq!(*max_snapshot_age_ms, Some(86400000));
                    assert_eq!(*max_ref_age_ms, Some(604800000));
                }
                _ => panic!("Expected Branch retention"),
            }
        }
        _ => panic!("Expected SetSnapshotRef update"),
    }
}

#[test]
fn test_multiple_operations() {
    let table = make_v2_table();
    let snapshot_id = table.metadata().current_snapshot_id().unwrap();

    let action = ManageSnapshotsAction::new()
        .create_tag("tag1", snapshot_id)
        .create_tag("tag2", snapshot_id)
        .create_branch("branch1", snapshot_id);

    let mut action_commit = action.commit(&table).unwrap();
    let updates = action_commit.take_updates();

    assert_eq!(updates.len(), 3);
}

#[test]
fn test_validation_snapshot_not_exists() {
    let table = make_v2_table();
    let non_existent_snapshot_id = 999999i64;

    let action = ManageSnapshotsAction::new().create_tag("my-tag", non_existent_snapshot_id);
    let result = action.commit(&table);

    assert!(result.is_err());
    if let Err(err) = result {
        assert!(err.message().contains("does not exist"));
    }
}

#[test]
fn test_atomic_append_and_tag() {
    let mut catalog = Catalog::new();
    catalog.append(11, HashMap::new());
    let first_snapshot_id = catalog.table().metadata().current_snapshot().unwrap().snapshot_id();

    catalog.append(12, HashMap::new());
    let tagging = ManageSnapshotsAction::new().create_tag("checkpoint-1", first_snapshot_id);
    let commit = tagging.commit(&catalog.table()).unwrap();
    catalog.apply(commit);

    let table = catalog.table();
    let current_snapshot = table.metadata().current_snapshot().unwrap();
    assert_ne!(current_snapshot.snapshot_id(), first_snapshot_id);

    let tag_ref = table.metadata().ref_by_name("checkpoint-1").unwrap();
    assert_eq!(tag_ref.snapshot_id, first_snapshot_id);
    assert!(matches!(tag_ref.retention, SnapshotRetention::Tag { .. }));
}

#[test]
fn test_atomic_append_with_multiple_tags_and_branches() {
    let mut catalog = Catalog::new();
    catalog.append(21, HashMap::new());
    let snapshot_id = catalog.table().metadata().current_snapshot().unwrap().snapshot_id();

    catalog.append(22, HashMap::new());
    let action = ManageSnapshotsAction::new()
        .create_tag("tag-1", snapshot_id)
        .create_tag("tag-2", snapshot_id)
        .create_branch("branch-1", snapshot_id)
        .create_branch_with_retention(
            "branch-2",
            snapshot_id,
            Some(86400000),
            Some(5),
            Some(604800000),
        );
    let commit = action.commit(&catalog.table()).unwrap();
    catalog.apply(commit);

    let table = catalog.table();
    assert!(table.metadata().ref_by_name("tag-1").is_some());
    assert!(table.metadata().ref_by_name("tag-2").is_some());
    assert!(table.metadata().ref_by_name("branch-1").is_some());
    assert!(table.metadata().ref_by_name("branch-2").is_some());

    let branch_2_ref = table.metadata().ref_by_name("branch-2").unwrap();
    match &branch_2_ref.retention {
        SnapshotRetention::Branch {
            min_snapshots_to_keep,
            max_snapshot_age_ms,
            max_ref_age_ms,
        } => {
            assert_eq!(*min_snapshots_to_keep, Some(5));
            assert_eq!(*max_snapshot_age_ms, Some(86400000));
            assert_eq!(*max_ref_age_ms, Some(604800000));
        }
        _ => panic!("Expected branch retention"),
    }
}

#[test]
fn test_create_tag_with_snapshot_properties() {
    let mut snapshot_props = HashMap::new();
    snapshot_props.insert("kafka.offsets".to_string(), r#"{"topic1:0": 12345}"#.to_string());
    let mut catalog = Catalog::new();
    catalog.append(31, snapshot_props);
    let snapshot_id = catalog.table().metadata().current_snapshot().unwrap().snapshot_id();

    let action = ManageSnapshotsAction::new().create_tag("kafka-checkpoint", snapshot_id);
    let commit = action.commit(&catalog.table()).unwrap();
    catalog.apply(commit);

    let table = catalog.table();
    let tag_ref = table.metadata().ref_by_name("kafka-checkpoint").unwrap();
    assert_eq!(tag_ref.snapshot_id, snapshot_id);

    let snapshot = table.metadata().snapshot_by_id(snapshot_id).unwrap();
    assert!(snapshot.summary().additional_properties.contains_key("kafka.offsets"));
}

#[test]
fn test_remove_tag_and_branch() {
    let mut catalog = Catalog::new();
    catalog.append(41, HashMap::new());
    let snapshot_id = catalog.table().metadata().current_snapshot().unwrap().snapshot_id();

    let action = ManageSnapshotsAction::new()
        .create_tag("temp-tag", snapshot_id)
        .create_branch("temp-branch", snapshot_id);
    let commit = action.commit(&catalog.table()).unwrap();
    catalog.apply(commit);

    assert!(catalog.table().metadata().ref_by_name("temp-tag").is_some());
    assert!(catalog.table().metadata().ref_by_name("temp-branch").is_some());

    let action = ManageSnapshotsAction::new().remove_tag("temp-tag").remove_branch("temp-branch");
    let commit = action.commit(&catalog.table()).unwrap();
    catalog.apply(commit);

    assert!(catalog.table().metadata().ref_by_name("temp-tag").is_none());
    assert!(catalog.table().metadata().ref_by_name("temp-branch").is_none());
    assert!(catalog.table().metadata().ref_by_name("main").is_some());
}

#[test]
fn commit_requires_the_same_table() {
    let table = make_v2_table();
    let mut commit = ManageSnapshotsAction::new().commit(&table).unwrap();
    assert!(commit.take_updates().is_empty());
    let requirements = commit.take_requirements();
    assert_eq!(requirements.len(), 1);
    match &requirements[0] {
        TableRequirement::UuidMatch { uuid } => assert_eq!(uuid.value, TABLE_UUID),
        _ => panic!("Expected UuidMatch requirement"),
    }
    assert!(commit.take_requirements().is_empty());
}

#[test]
fn each_rejection_has_its_message() {
    let table = Table::new(
        bare_metadata()
            .with_snapshot(snapshot(1, None, 1))
            .with_ref("b", branch_at(1))
            .with_ref("t", tag_at(1)),
    );
    let new = ManageSnapshotsAction::new;
    assert_eq!(
        rejection(new().create_tag("x", -7), &table),
        "Snapshot with ID -7 does not exist in table history"
    );
    assert_eq!(
        rejection(new().create_tag("b", 1), &table),
        "Reference 'b' already exists as a branch, cannot create tag"
    );
    assert_eq!(
        rejection(new().create_branch("x", i64::MIN), &table),
        "Snapshot with ID -9223372036854775808 does not exist in table history"
    );
    assert_eq!(
        rejection(new().create_branch("t", 1), &table),
        "Reference 't' already exists as a tag, cannot create branch"
    );
    assert_eq!(rejection(new().remove_tag("x"), &table), "Tag 'x' does not exist");
    assert_eq!(
        rejection(new().remove_tag("b"), &table),
        "Reference 'b' is not a tag, cannot remove as tag"
    );
    assert_eq!(rejection(new().remove_branch("x"), &table), "Branch 'x' does not exist");
    assert_eq!(
        rejection(new().remove_branch("t"), &table),
        "Reference 't' is not a branch, cannot remove as branch"
    );
    assert_eq!(
        rejection(new().replace_branch("b", 0), &table),
        "Snapshot with ID 0 does not exist in table history"
    );
    assert_eq!(rejection(new().replace_branch("x", 1), &table), "Branch 'x' does not exist");
    assert_eq!(
        rejection(new().replace_branch("t", 1), &table),
        "Reference 't' is not a branch, cannot replace"
    );
    assert_eq!(
        rejection(new().fast_forward("b", i64::MAX), &table),
        "Snapshot with ID 9223372036854775807 does not exist in table history"
    );
    assert_eq!(rejection(new().fast_forward("x", 1), &table), "Branch 'x' does not exist");
    assert_eq!(
        rejection(new().fast_forward("t", 1), &table),
        "Reference 't' is not a branch, cannot fast-forward"
    );
}

#[test]
fn first_rejected_operation_decides() {
    let table = make_v2_table();
    let action = ManageSnapshotsAction::new()
        .create_tag("fine", FIRST)
        .remove_tag("first")
        .remove_branch("second");
    assert_eq!(rejection(action, &table), "Tag 'first' does not exist");
}

#[test]
fn operations_do_not_see_one_another() {
    let table = make_v2_table();
    let action = ManageSnapshotsAction::new().create_tag("new", FIRST).remove_tag("new");
    assert_eq!(rejection(action, &table), "Tag 'new' does not exist");
}

#[test]
fn creating_an_existing_tag_moves_it() {
    let mut catalog = Catalog::new();
    catalog.append(1, HashMap::new());
    catalog.append(2, HashMap::new());
    for target in [1, 2, 2] {
        let action = ManageSnapshotsAction::new().create_tag("t", target);
        let commit = action.commit(&catalog.table()).unwrap();
        catalog.apply(commit);
        assert_eq!(catalog.refs["t"], tag_at(target));
    }
}

fn lineage_table(snapshots: Vec<Snapshot>, head: i64) -> Table {
    let retention = SnapshotRetention::branch(Some(3), Some(20), Some(30));
    let mut metadata = bare_metadata().with_ref("b", SnapshotReference::new(head, retention));
    for s in snapshots {
        metadata = metadata.with_snapshot(s);
    }
    Table::new(metadata)
}

fn fast_forwarded(table: &Table, to: i64) -> SnapshotReference {
    let mut commit = ManageSnapshotsAction::new().fast_forward("b", to).commit(table).unwrap();
    match &commit.take_updates()[0] {
        TableUpdate::SetSnapshotRef { ref_name, reference } => {
            assert_eq!(ref_name, "b");
            *reference
        }
        _ => panic!("Expected SetSnapshotRef update"),
    }
}

#[test]
fn fast_forward_follows_the_lineage() {
    let chain = || {
        vec![
            snapshot(1, None, 1),
            snapshot(2, Some(1), 2),
            snapshot(3, Some(2), 3),
            snapshot(4, Some(1), 4),
        ]
    };
    let table = lineage_table(chain(), 1);
    for to in [1, 2, 3, 4] {
        let reference = fast_forwarded(&table, to);
        assert_eq!(reference.snapshot_id, to);
        assert_eq!(reference.retention, SnapshotRetention::branch(Some(3), Some(20), Some(30)));
    }
    let table = lineage_table(chain(), 2);
    assert_eq!(fast_forwarded(&table, 3).snapshot_id, 3);
    assert_eq!(
        rejection(ManageSnapshotsAction::new().fast_forward("b", 4), &table),
        "Cannot fast-forward: snapshot 2 is not an ancestor of 4"
    );
    assert_eq!(
        rejection(ManageSnapshotsAction::new().fast_forward("b", 1), &table),
        "Cannot fast-forward: snapshot 2 is not an ancestor of 1"
    );
}

#[test]
fn fast_forward_stops_where_the_history_is_missing() {
    let table = lineage_table(vec![snapshot(2, Some(1), 2), snapshot(3, Some(2), 3)], 1);
    assert_eq!(
        rejection(ManageSnapshotsAction::new().fast_forward("b", 3), &table),
        "Parent snapshot 1 not found in history"
    );
    let table = lineage_table(vec![snapshot(2, Some(1), 2), snapshot(3, Some(2), 3)], 2);
    assert_eq!(fast_forwarded(&table, 3).snapshot_id, 3);
}

#[test]
fn fast_forward_ends_on_a_cyclic_history() {
    let cycle = || vec![snapshot(1, None, 1), snapshot(2, Some(3), 2), snapshot(3, Some(2), 3)];
    let table = lineage_table(cycle(), 1);
    assert_eq!(
        rejection(ManageSnapshotsAction::new().fast_forward("b", 3), &table),
        "Cannot fast-forward: snapshot 1 is not an ancestor of 3"
    );
    let table = lineage_table(cycle(), 2);
    assert_eq!(fast_forwarded(&table, 3).snapshot_id, 3);
}

#[test]
fn replacing_a_branch_keeps_its_retention() {
    let table = lineage_table(vec![snapshot(1, None, 1), snapshot(2, None, 2)], 1);
    let mut commit = ManageSnapshotsAction::new().replace_branch("b", 2).commit(&table).unwrap();
    match &commit.take_updates()[0] {
        TableUpdate::SetSnapshotRef { reference, .. } => {
            assert_eq!(reference.snapshot_id, 2);
            assert_eq!(
                reference.retention,
                SnapshotRetention::branch(Some(3), Some(20), Some(30))
            );
        }
        _ => panic!("Expected SetSnapshotRef update"),
    }
}

#[test]
fn last_operation_on_a_reference_decides() {
    let mut catalog = Catalog::new();
    catalog.append(1, HashMap::new());
    catalog.append(2, HashMap::new());
    let action = ManageSnapshotsAction::new()
        .create_tag("t", 2)
        .create_tag("other", 2)
        .create_tag_with_retention("t", 1, 9);
    let commit = action.commit(&catalog.table()).unwrap();
    catalog.apply(commit);
    assert_eq!(catalog.refs["t"].snapshot_id, 1);
    assert_eq!(catalog.refs["t"].retention, SnapshotRetention::Tag { max_ref_age_ms: Some(9) });
    assert_eq!(catalog.refs["other"], tag_at(2));
    assert_eq!(catalog.refs["main"], branch_at(2));
}

#[test]
fn fast_forward_is_a_replacement() {
    let table = lineage_table(vec![snapshot(1, None, 1), snapshot(2, Some(1), 2)], 1);
    let mut commit = ManageSnapshotsAction::new().replace_branch("b", 2).commit(&table).unwrap();
    match &commit.take_updates()[0] {
        TableUpdate::SetSnapshotRef { ref_name, reference } => {
            assert_eq!(ref_name, "b");
            assert_eq!(*reference, fast_forwarded(&table, 2));
        }
        _ => panic!("Expected SetSnapshotRef update"),
    }
}

#[test]
fn fast_forward_goes_one_way() {
    let history = || vec![snapshot(1, None, 1), snapshot(2, Some(1), 2)];
    assert_eq!(fast_forwarded(&lineage_table(history(), 1), 2).snapshot_id, 2);
    assert_eq!(
        rejection(
            ManageSnapshotsAction::new().fast_forward("b", 1),
            &lineage_table(history(), 2)
        ),
        "Cannot fast-forward: snapshot 2 is not an ancestor of 1"
    );
}

#[test]
fn fast_forward_depends_on_the_history_only() {
    let answer = |sequence_number: i64, current: i64, parent: Option<i64>| {
        let metadata = bare_metadata()
            .with_snapshot(snapshot(2, parent, sequence_number))
            .with_snapshot(snapshot(3, Some(2), sequence_number - 1))
            .with_ref("b", branch_at(7))
            .with_current_snapshot_id(current);
        rejection(ManageSnapshotsAction::new().fast_forward("b", 3), &Table::new(metadata))
    };
    assert_eq!(answer(1, 2, Some(1)), answer(90, 3, Some(1)));
    assert_eq!(answer(1, 2, None), answer(90, 3, None));
    assert_ne!(answer(1, 2, Some(1)), answer(1, 2, None));
}
