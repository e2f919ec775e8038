//! The metadata of a table, as far as transactions read it.

use std::collections::HashMap;

use vstd::hash_map::StringHashMap;
use vstd::prelude::*;

use crate::ids::Uuid;
use crate::refs::SnapshotReference;
use crate::snapshot::Snapshot;

verus! {

broadcast use vstd::std_specs::hash::group_hash_axioms;

/// The version of the table format that a table is written in.
#[derive(Debug, Clone, Copy, PartialEq, Eq, Structural)]
pub enum FormatVersion {
    /// Version 1.
    V1,
    /// Version 2.
    V2,
    /// Version 3.
    V3,
}

/// The metadata of a table.
pub struct TableMetadata {
    format_version: FormatVersion,
    uuid: Uuid,
    location: String,
    current_schema_id: i32,
    default_partition_spec_id: i32,
    current_snapshot_id: Option<i64>,
    snapshots: HashMap<i64, Snapshot>,
    refs: StringHashMap<SnapshotReference>,
}

/// What the metadata of a table says.
pub struct TableMetadataView {
    /// The version of the table format.
    pub format_version: FormatVersion,
    /// The id of the table.
    pub uuid: Uuid,
    /// Where the table is stored.
    pub location: Seq<char>,
    /// The id of the schema that new files are written with.
    pub current_schema_id: i32,
    /// The id of the partition spec that new files are written with.
    pub default_partition_spec_id: i32,
    /// The id of the current snapshot, if there is one.
    pub current_snapshot_id: Option<i64>,
    /// The snapshots of the table by their ids.
    pub snapshots: Map<i64, Snapshot>,
    /// The tags and branches of the table by their names.
    pub refs: Map<Seq<char>, SnapshotReference>,
}

impl View for TableMetadata {
    type V = TableMetadataView;

    closed spec fn view(&self) -> TableMetadataView {
        TableMetadataView {
            format_version: self.format_version,
            uuid: self.uuid,
            location: self.location@,
            current_schema_id: self.current_schema_id,
            default_partition_spec_id: self.default_partition_spec_id,
            current_snapshot_id: self.current_snapshot_id,
            snapshots: self.snapshots@,
            refs: self.refs@,
        }
    }
}

impl TableMetadataView {
    /// Every snapshot stands under its own id, and there are finitely many.
    pub open spec fn wf(self) -> bool {
        &&& self.snapshots.dom().finite()
        &&& forall|id: i64| #[trigger]
            self.snapshots.contains_key(id) ==> self.snapshots[id].snapshot_id == id
    }

    /// The current snapshot, if there is one among the snapshots.
    pub open spec fn current_snapshot(self) -> Option<Snapshot> {
        match self.current_snapshot_id {
            Some(id) if self.snapshots.contains_key(id) => Some(self.snapshots[id]),
            _ => None,
        }
    }
}

impl TableMetadata {
    #[verifier::type_invariant]
    closed spec fn inv(self) -> bool {
        self@.wf()
    }

    /// The metadata of a table without snapshots and references.
    pub fn new(
        format_version: FormatVersion,
        uuid: Uuid,
        location: &str,
        current_schema_id: i32,
        default_partition_spec_id: i32,
    ) -> (r: TableMetadata)
        ensures
            r@ == (TableMetadataView {
                format_version,
                uuid,
                location: location@,
                current_schema_id,
                default_partition_spec_id,
                current_snapshot_id: None,
                snapshots: Map::empty(),
                refs: Map::empty(),
            }),
    {
        TableMetadata {
            format_version,
            uuid,
            location: location.to_string(),
            current_schema_id,
            default_partition_spec_id,
            current_snapshot_id: None,
            snapshots: HashMap::new(),
            refs: StringHashMap::new(),
        }
    }

    /// Adds a snapshot, in place of an earlier one with the same id.
    pub fn with_snapshot(self, snapshot: Snapshot) -> (r: TableMetadata)
        ensures
            r@ == (TableMetadataView {
                snapshots: self@.snapshots.insert(snapshot.snapshot_id, snapshot),
                ..self@
            }),
    {
        proof {
            use_type_invariant(&self);
        }
        let mut snapshots = self.snapshots;
        snapshots.insert(snapshot.snapshot_id, snapshot);
        TableMetadata { snapshots, ..self }
    }

    /// Adds a reference, in place of an earlier one with the same name.
    pub fn with_ref(self, name: &str, reference: SnapshotReference) -> (r: TableMetadata)
        ensures
            r@ == (TableMetadataView { refs: self@.refs.insert(name@, reference), ..self@ }),
    {
        proof {
            use_type_invariant(&self);
        }
        let mut refs = self.refs;
        refs.insert(name.to_string(), reference);
        TableMetadata { refs, ..self }
    }

    /// Makes the snapshot with the given id the current one.
    pub fn with_current_snapshot_id(self, snapshot_id: i64) -> (r: TableMetadata)
        ensures
            r@ == (TableMetadataView { current_snapshot_id: Some(snapshot_id), ..self@ }),
    {
        proof {
            use_type_invariant(&self);
        }
        TableMetadata { current_snapshot_id: Some(snapshot_id), ..self }
    }

    /// The version of the table format.
    pub fn format_version(&self) -> (r: FormatVersion)
        ensures
            r == self@.format_version,
    {
        self.format_version
    }

    /// The id of the table.
    pub fn uuid(&self) -> (r: Uuid)
        ensures
            r == self@.uuid,
    {
        self.uuid
    }

    /// Where the table is stored.
    pub fn location(&self) -> (r: &str)
        ensures
            r@ == self@.location,
    {
        self.location.as_str()
    }

    /// The id of the current schema.
    pub fn current_schema_id(&self) -> (r: i32)
        ensures
            r == self@.current_schema_id,
    {
        self.current_schema_id
    }

    /// The id of the default partition spec.
    pub fn default_partition_spec_id(&self) -> (r: i32)
        ensures
            r == self@.default_partition_spec_id,
    {
        self.default_partition_spec_id
    }

    /// The id of the current snapshot, if there is one.
    pub fn current_snapshot_id(&self) -> (r: Option<i64>)
        ensures
            r == self@.current_snapshot_id,
    {
        self.current_snapshot_id
    }

    /// The number of snapshots of the table.
    pub(crate) fn snapshot_count(&self) -> (r: usize)
        ensures
            self@.wf(),
            r == self@.snapshots.len(),
    {
        proof {
            use_type_invariant(self);
        }
        self.snapshots.len()
    }

    /// The snapshot with the given id, if the table has one.
    pub fn snapshot_by_id(&self, snapshot_id: i64) -> (r: Option<&Snapshot>)
        ensures
            r is Some <==> self@.snapshots.contains_key(snapshot_id),
            r matches Some(snapshot) ==> *snapshot == self@.snapshots[snapshot_id]
                && snapshot.snapshot_id == snapshot_id,
    {
        proof {
            use_type_invariant(self);
        }
        self.snapshots.get(&snapshot_id)
    }

    /// The current snapshot, if the table has one.
    pub fn current_snapshot(&self) -> (r: Option<&Snapshot>)
        ensures
            r is Some <==> self@.current_snapshot() is Some,
            r matches Some(snapshot) ==> *snapshot == self@.current_snapshot()->0,
            r is Some <==> self@.current_snapshot_id is Some && self@.snapshots.contains_key(
                self@.current_snapshot_id->0,
            ),
            r matches Some(snapshot) ==> *snapshot == self@.snapshots[self@.current_snapshot_id->0]
                && snapshot.snapshot_id == self@.current_snapshot_id->0,
    {
        match self.current_snapshot_id {
            Some(snapshot_id) => self.snapshot_by_id(snapshot_id),
            None => None,
        }
    }

    /// The tag or branch with the given name, if the table has one.
    pub fn ref_by_name(&self, name: &str) -> (r: Option<SnapshotReference>)
        ensures
            r is Some <==> self@.refs.contains_key(name@),
            r matches Some(reference) ==> reference == self@.refs[name@],
    {
        match self.refs.get(name) {
            Some(reference) => Some(*reference),
            None => None,
        }
    }
}

/// A table.
pub struct Table {
    metadata: TableMetadata,
}

impl View for Table {
    type V = TableMetadataView;

    closed spec fn view(&self) -> TableMetadataView {
        self.metadata@
    }
}

impl Table {
    /// The table with the given metadata.
    pub fn new(metadata: TableMetadata) -> (r: Table)
        ensures
            r@ == metadata@,
    {
        Table { metadata }
    }

    /// The metadata of the table.
    pub fn metadata(&self) -> (r: &TableMetadata)
        ensures
            r@ == self@,
    {
        &self.metadata
    }
}

/// The current snapshot is the one of the table's snapshots that the current id
/// names, and there is one exactly if the id is set and names one.
pub proof fn law_current_snapshot_has_the_current_id(table: TableMetadataView)
    requires
        table.wf(),
    ensures
        table.current_snapshot() is Some <==> table.current_snapshot_id is Some
            && table.snapshots.contains_key(table.current_snapshot_id->0),
        table.current_snapshot() is Some ==> table.current_snapshot()->0
            == table.snapshots[table.current_snapshot_id->0]
            && table.current_snapshot()->0.snapshot_id == table.current_snapshot_id->0,
{
}

} // verus!
