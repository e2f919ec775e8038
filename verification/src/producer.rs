//! Producing a snapshot from an action.

use std::collections::HashMap;

use vstd::prelude::*;

use crate::data_file::DataFile;
use crate::ids::Uuid;
use crate::metadata::{Table, TableMetadataView};
use crate::refs::{SnapshotReference, SnapshotRetention, MAIN_BRANCH};
use crate::snapshot::{Operation, Snapshot, Summary};
use crate::update::{
    requirements_view, updates_view, ActionCommit, ActionCommitView, TableRequirement,
    TableRequirementView, TableUpdate, TableUpdateView,
};

verus! {

/// What a new snapshot is to be produced from.
#[derive(Debug, Clone)]
pub struct SnapshotProducer {
    /// The id of the commit, from which the names of its files are made.
    pub commit_uuid: Uuid,
    /// Key metadata for the manifests that are written.
    pub key_metadata: Option<Vec<u8>>,
    /// Properties for the summary of the snapshot.
    pub snapshot_properties: HashMap<String, String>,
    /// The files that the snapshot adds.
    pub added_data_files: Vec<DataFile>,
}

/// What was decided when the manifests of a new snapshot were written.
#[derive(Debug, Clone)]
pub struct WrittenSnapshot {
    /// The id of the snapshot.
    pub snapshot_id: i64,
    /// The sequence number of the snapshot.
    pub sequence_number: i64,
    /// When the snapshot was made, in milliseconds since the epoch.
    pub timestamp_ms: i64,
    /// Where the list of the snapshot's manifests was written.
    pub manifest_list: String,
}

impl SnapshotProducer {
    /// The snapshot that follows the current one of the table.
    pub open spec fn snapshot(
        self,
        table: TableMetadataView,
        operation: Operation,
        written: WrittenSnapshot,
    ) -> Snapshot {
        Snapshot {
            snapshot_id: written.snapshot_id,
            parent_snapshot_id: table.current_snapshot_id,
            sequence_number: written.sequence_number,
            timestamp_ms: written.timestamp_ms,
            manifest_list: written.manifest_list,
            summary: Summary { operation, additional_properties: self.snapshot_properties },
        }
    }

    /// What producing the snapshot asks of the table: to add it and to make it
    /// the head of the main branch, on the table with the same id and while
    /// the main branch is where it was.
    pub open spec fn committed(
        self,
        table: TableMetadataView,
        operation: Operation,
        written: WrittenSnapshot,
    ) -> ActionCommitView {
        ActionCommitView {
            updates: seq![
                TableUpdateView::AddSnapshot {
                    snapshot: self.snapshot(table, operation, written),
                },
                TableUpdateView::SetSnapshotRef {
                    ref_name: MAIN_BRANCH@,
                    reference: SnapshotReference {
                        snapshot_id: written.snapshot_id,
                        retention: SnapshotRetention::Branch {
                            min_snapshots_to_keep: None,
                            max_snapshot_age_ms: None,
                            max_ref_age_ms: None,
                        },
                    },
                },
            ],
            requirements: seq![
                TableRequirementView::UuidMatch { uuid: table.uuid },
                TableRequirementView::RefSnapshotIdMatch {
                    ref_name: MAIN_BRANCH@,
                    snapshot_id: table.current_snapshot_id,
                },
            ],
        }
    }

    /// The updates that add the new snapshot to the table and make it the
    /// head of the main branch, on the table with the same id and while the
    /// main branch is where it was.
    pub fn commit(self, table: &Table, operation: Operation, written: WrittenSnapshot) -> (r:
        ActionCommit)
        ensures
            r@ == self.committed(table@, operation, written),
            r@.updates.len() == 2,
            r@.updates[0] == (TableUpdateView::AddSnapshot {
                snapshot: Snapshot {
                    snapshot_id: written.snapshot_id,
                    parent_snapshot_id: table@.current_snapshot_id,
                    sequence_number: written.sequence_number,
                    timestamp_ms: written.timestamp_ms,
                    manifest_list: written.manifest_list,
                    summary: Summary {
                        operation,
                        additional_properties: self.snapshot_properties,
                    },
                },
            }),
            r@.updates[1] == (TableUpdateView::SetSnapshotRef {
                ref_name: "main"@,
                reference: SnapshotReference {
                    snapshot_id: written.snapshot_id,
                    retention: SnapshotRetention::Branch {
                        min_snapshots_to_keep: None,
                        max_snapshot_age_ms: None,
                        max_ref_age_ms: None,
                    },
                },
            }),
            r@.requirements.len() == 2,
            r@.requirements[0] == (TableRequirementView::UuidMatch { uuid: table@.uuid }),
            r@.requirements[1] == (TableRequirementView::RefSnapshotIdMatch {
                ref_name: "main"@,
                snapshot_id: table@.current_snapshot_id,
            }),
    {
        let metadata = table.metadata();
        let snapshot_id = written.snapshot_id;
        let snapshot = Snapshot {
            snapshot_id,
            parent_snapshot_id: metadata.current_snapshot_id(),
            sequence_number: written.sequence_number,
            timestamp_ms: written.timestamp_ms,
            manifest_list: written.manifest_list,
            summary: Summary { operation, additional_properties: self.snapshot_properties },
        };
        let mut updates: Vec<TableUpdate> = Vec::new();
        updates.push(TableUpdate::AddSnapshot { snapshot });
        updates.push(
            TableUpdate::SetSnapshotRef {
                ref_name: MAIN_BRANCH.to_string(),
                reference: SnapshotReference::new(
                    snapshot_id,
                    SnapshotRetention::branch(None, None, None),
                ),
            },
        );
        let mut requirements: Vec<TableRequirement> = Vec::new();
        requirements.push(TableRequirement::UuidMatch { uuid: metadata.uuid() });
        requirements.push(
            TableRequirement::RefSnapshotIdMatch {
                ref_name: MAIN_BRANCH.to_string(),
                snapshot_id: metadata.current_snapshot_id(),
            },
        );
        let r = ActionCommit::new(updates, requirements);
        assert(updates_view(updates@).len() == 2);
        assert(requirements_view(requirements@).len() == 2);
        r
    }
}

} // verus!
