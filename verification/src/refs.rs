//! Named references to snapshots: tags and branches.

use vstd::prelude::*;

verus! {

/// The name of the branch that holds the current state of a table.
pub const MAIN_BRANCH: &'static str = "main";

/// How long a reference, and the snapshots it keeps alive, are retained.
#[derive(Debug, Clone, Copy, PartialEq, Eq)]
pub enum SnapshotRetention {
    /// A branch: a reference that moves as snapshots are added to it.
    Branch {
        /// The number of snapshots to keep in the branch at least.
        min_snapshots_to_keep: Option<i32>,
        /// The age from which a snapshot of the branch may be expired.
        max_snapshot_age_ms: Option<i64>,
        /// The age from which the branch itself may be expired.
        max_ref_age_ms: Option<i64>,
    },
    /// A tag: a reference that stays at its snapshot.
    Tag {
        /// The age from which the tag may be expired.
        max_ref_age_ms: Option<i64>,
    },
}

impl SnapshotRetention {
    /// The retention policy of a branch.
    pub fn branch(
        min_snapshots_to_keep: Option<i32>,
        max_snapshot_age_ms: Option<i64>,
        max_ref_age_ms: Option<i64>,
    ) -> (r: SnapshotRetention)
        ensures
            r == (SnapshotRetention::Branch {
                min_snapshots_to_keep,
                max_snapshot_age_ms,
                max_ref_age_ms,
            }),
    {
        SnapshotRetention::Branch { min_snapshots_to_keep, max_snapshot_age_ms, max_ref_age_ms }
    }

    /// Whether this is the retention policy of a branch.
    pub fn is_branch(&self) -> (r: bool)
        ensures
            r == (*self is Branch),
    {
        match self {
            SnapshotRetention::Branch { .. } => true,
            SnapshotRetention::Tag { .. } => false,
        }
    }
}

/// A reference to a snapshot, with its retention policy.
#[derive(Debug, Clone, Copy, PartialEq, Eq)]
pub struct SnapshotReference {
    /// The snapshot that the reference points to.
    pub snapshot_id: i64,
    /// Whether the reference is a tag or a branch, and how long it is kept.
    pub retention: SnapshotRetention,
}

impl SnapshotReference {
    /// A reference to the given snapshot.
    pub fn new(snapshot_id: i64, retention: SnapshotRetention) -> (r: SnapshotReference)
        ensures
            r == (SnapshotReference { snapshot_id, retention }),
    {
        SnapshotReference { snapshot_id, retention }
    }
}

} // verus!
