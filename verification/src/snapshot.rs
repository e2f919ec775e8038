//! Snapshots of a table.

use std::collections::HashMap;

use vstd::prelude::*;

verus! {

/// The operation that produced a snapshot.
#[derive(Debug, Clone, Copy, PartialEq, Eq, Structural)]
pub enum Operation {
    /// Files were added, none removed.
    Append,
    /// Files were removed and added without changing the table's rows.
    Replace,
    /// Rows were overwritten.
    Overwrite,
    /// Files were removed.
    Delete,
}

/// What a snapshot says about how it came to be.
#[derive(Debug, Clone)]
pub struct Summary {
    /// The operation that produced the snapshot.
    pub operation: Operation,
    /// Further properties of the snapshot.
    pub additional_properties: HashMap<String, String>,
}

/// The state of a table at one point in time.
#[derive(Debug, Clone)]
pub struct Snapshot {
    /// The id of the snapshot, unique in its table.
    pub snapshot_id: i64,
    /// The id of the snapshot that this one was made from, if any.
    pub parent_snapshot_id: Option<i64>,
    /// The order in which the snapshots of the table were committed.
    pub sequence_number: i64,
    /// When the snapshot was made, in milliseconds since the epoch.
    pub timestamp_ms: i64,
    /// The location of the list of the snapshot's manifests.
    pub manifest_list: String,
    /// How the snapshot came to be.
    pub summary: Summary,
}

impl Snapshot {
    /// The id of the snapshot.
    pub fn snapshot_id(&self) -> (r: i64)
        ensures
            r == self.snapshot_id,
    {
        self.snapshot_id
    }

    /// The sequence number of the snapshot.
    pub fn sequence_number(&self) -> (r: i64)
        ensures
            r == self.sequence_number,
    {
        self.sequence_number
    }

    /// The summary of the snapshot.
    pub fn summary(&self) -> (r: &Summary)
        ensures
            *r == self.summary,
    {
        &self.summary
    }
}

} // verus!
