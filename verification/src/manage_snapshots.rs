//! Managing the tags and branches of a table.

use vstd::prelude::*;
use vstd::string::StringExecFns;

use crate::error::{data_invalid, Error, ErrorKind};
use crate::lineage::{lemma_lineage_complete, lemma_lineage_exhausted};
use crate::metadata::{Table, TableMetadataView};
use crate::refs::{SnapshotReference, SnapshotRetention};
use crate::text::{int_text, push_i64};
use crate::update::{
    requirements_view, updates_view, ActionCommit, ActionCommitView, TableRequirement,
    TableRequirementView, TableUpdate, TableUpdateView,
};

verus! {

/// The message for a snapshot that the table lacks.
pub open spec fn snapshot_missing(snapshot_id: i64) -> Seq<char> {
    "Snapshot with ID "@ + int_text(snapshot_id as int) + " does not exist in table history"@
}

/// A message about the reference `name`.
pub open spec fn about_ref(prefix: Seq<char>, name: Seq<char>, suffix: Seq<char>) -> Seq<char> {
    prefix + name + suffix
}

/// Why the branch head cannot be fast-forwarded from the snapshot `from` to
/// the snapshot `to`, if it cannot: the table lacks `to`, or `from` is not in
/// the lineage of `to`, which then either breaks at a snapshot that the table
/// lacks or does not.
pub open spec fn fast_forward_rejection(table: TableMetadataView, from: i64, to: i64) -> Option<
    Seq<char>,
> {
    if !table.snapshots.contains_key(to) {
        Some("Target snapshot "@ + int_text(to as int) + " does not exist"@)
    } else if table.is_ancestor(from, to) {
        None
    } else if exists|missing: i64| table.breaks_at(to, missing) {
        let missing = choose|missing: i64| table.breaks_at(to, missing);
        Some("Parent snapshot "@ + int_text(missing as int) + " not found in history"@)
    } else {
        Some(
            "Cannot fast-forward: snapshot "@ + int_text(from as int) + " is not an ancestor of "@
                + int_text(to as int),
        )
    }
}

/// A change of one reference that an action asks for.
pub enum RefOperationView {
    CreateTag { name: Seq<char>, snapshot_id: i64, max_ref_age_ms: Option<i64> },
    CreateBranch {
        name: Seq<char>,
        snapshot_id: i64,
        max_snapshot_age_ms: Option<i64>,
        min_snapshots_to_keep: Option<i32>,
        max_ref_age_ms: Option<i64>,
    },
    RemoveTag { name: Seq<char> },
    RemoveBranch { name: Seq<char> },
    ReplaceBranch { name: Seq<char>, snapshot_id: i64 },
    FastForward { name: Seq<char>, to_snapshot_id: i64 },
}

/// The update that points the reference `name` to a snapshot.
pub open spec fn set_ref(
    name: Seq<char>,
    snapshot_id: i64,
    retention: SnapshotRetention,
) -> TableUpdateView {
    TableUpdateView::SetSnapshotRef {
        ref_name: name,
        reference: SnapshotReference { snapshot_id, retention },
    }
}

impl RefOperationView {
    /// The name of the reference that the operation is about.
    pub open spec fn name(self) -> Seq<char> {
        match self {
            RefOperationView::CreateTag { name, .. } => name,
            RefOperationView::CreateBranch { name, .. } => name,
            RefOperationView::RemoveTag { name } => name,
            RefOperationView::RemoveBranch { name } => name,
            RefOperationView::ReplaceBranch { name, .. } => name,
            RefOperationView::FastForward { name, .. } => name,
        }
    }

    /// The update that the operation amounts to on the given table, or the
    /// message with which it is rejected.
    pub open spec fn outcome(self, table: TableMetadataView) -> Result<TableUpdateView, Seq<char>> {
        match self {
            RefOperationView::CreateTag { name, snapshot_id, max_ref_age_ms } => {
                if !table.snapshots.contains_key(snapshot_id) {
                    Err(snapshot_missing(snapshot_id))
                } else if table.refs.contains_key(name) && !(table.refs[name].retention is Tag) {
                    Err(
                        about_ref(
                            "Reference '"@,
                            name,
                            "' already exists as a branch, cannot create tag"@,
                        ),
                    )
                } else {
                    Ok(set_ref(name, snapshot_id, SnapshotRetention::Tag { max_ref_age_ms }))
                }
            },
            RefOperationView::CreateBranch {
                name,
                snapshot_id,
                max_snapshot_age_ms,
                min_snapshots_to_keep,
                max_ref_age_ms,
            } => {
                if !table.snapshots.contains_key(snapshot_id) {
                    Err(snapshot_missing(snapshot_id))
                } else if table.refs.contains_key(name) && !(table.refs[name].retention is Branch) {
                    Err(
                        about_ref(
                            "Reference '"@,
                            name,
                            "' already exists as a tag, cannot create branch"@,
                        ),
                    )
                } else {
                    Ok(
                        set_ref(
                            name,
                            snapshot_id,
                            SnapshotRetention::Branch {
                                min_snapshots_to_keep,
                                max_snapshot_age_ms,
                                max_ref_age_ms,
                            },
                        ),
                    )
                }
            },
            RefOperationView::RemoveTag { name } => {
                if !table.refs.contains_key(name) {
                    Err(about_ref("Tag '"@, name, "' does not exist"@))
                } else if !(table.refs[name].retention is Tag) {
                    Err(about_ref("Reference '"@, name, "' is not a tag, cannot remove as tag"@))
                } else {
                    Ok(TableUpdateView::RemoveSnapshotRef { ref_name: name })
                }
            },
            RefOperationView::RemoveBranch { name } => {
                if !table.refs.contains_key(name) {
                    Err(about_ref("Branch '"@, name, "' does not exist"@))
                } else if !(table.refs[name].retention is Branch) {
                    Err(
                        about_ref(
                            "Reference '"@,
                            name,
                            "' is not a branch, cannot remove as branch"@,
                        ),
                    )
                } else {
                    Ok(TableUpdateView::RemoveSnapshotRef { ref_name: name })
                }
            },
            RefOperationView::ReplaceBranch { name, snapshot_id } => {
                if !table.snapshots.contains_key(snapshot_id) {
                    Err(snapshot_missing(snapshot_id))
                } else if !table.refs.contains_key(name) {
                    Err(about_ref("Branch '"@, name, "' does not exist"@))
                } else if !(table.refs[name].retention is Branch) {
                    Err(about_ref("Reference '"@, name, "' is not a branch, cannot replace"@))
                } else {
                    Ok(set_ref(name, snapshot_id, table.refs[name].retention))
                }
            },
            RefOperationView::FastForward { name, to_snapshot_id } => {
                if !table.snapshots.contains_key(to_snapshot_id) {
                    Err(snapshot_missing(to_snapshot_id))
                } else if !table.refs.contains_key(name) {
                    Err(about_ref("Branch '"@, name, "' does not exist"@))
                } else if !(table.refs[name].retention is Branch) {
                    Err(about_ref("Reference '"@, name, "' is not a branch, cannot fast-forward"@))
                } else {
                    match fast_forward_rejection(
                        table,
                        table.refs[name].snapshot_id,
                        to_snapshot_id,
                    ) {
                        Some(message) => Err(message),
                        None => Ok(set_ref(name, to_snapshot_id, table.refs[name].retention)),
                    }
                }
            },
        }
    }
}

/// Whether the table accepts every one of the operations.
pub open spec fn all_accepted(operations: Seq<RefOperationView>, table: TableMetadataView) -> bool {
    forall|i: int| 0 <= i < operations.len() ==> (#[trigger] operations[i]).outcome(table) is Ok
}

/// Whether operation `i` is the first one that the table rejects.
pub open spec fn first_rejected(
    operations: Seq<RefOperationView>,
    table: TableMetadataView,
    i: int,
) -> bool {
    &&& 0 <= i < operations.len()
    &&& operations[i].outcome(table) is Err
    &&& forall|j: int| 0 <= j < i ==> (#[trigger] operations[j]).outcome(table) is Ok
}

/// What the operations ask of a table that accepts them: their updates, one
/// for each in the same order, on the table with the same id.
pub open spec fn accepted_commit(
    operations: Seq<RefOperationView>,
    table: TableMetadataView,
) -> ActionCommitView {
    ActionCommitView {
        updates: operations.map_values(
            |operation: RefOperationView| operation.outcome(table)->Ok_0,
        ),
        requirements: seq![TableRequirementView::UuidMatch { uuid: table.uuid }],
    }
}

/// One change of a reference.
#[derive(Debug, Clone)]
enum SnapshotRefOperation {
    /// Create a new tag pointing to a snapshot.
    CreateTag { name: String, snapshot_id: i64, max_ref_age_ms: Option<i64> },
    /// Create a new branch pointing to a snapshot.
    CreateBranch {
        name: String,
        snapshot_id: i64,
        max_snapshot_age_ms: Option<i64>,
        min_snapshots_to_keep: Option<i32>,
        max_ref_age_ms: Option<i64>,
    },
    /// Remove an existing tag.
    RemoveTag { name: String },
    /// Remove an existing branch.
    RemoveBranch { name: String },
    /// Point an existing branch to another snapshot.
    ReplaceBranch { name: String, snapshot_id: i64 },
    /// Point an existing branch to a descendant of its head.
    FastForward { name: String, to_snapshot_id: i64 },
}

impl View for SnapshotRefOperation {
    type V = RefOperationView;

    closed spec fn view(&self) -> RefOperationView {
        match self {
            SnapshotRefOperation::CreateTag {
                name,
                snapshot_id,
                max_ref_age_ms,
            } => RefOperationView::CreateTag {
                name: name@,
                snapshot_id: *snapshot_id,
                max_ref_age_ms: *max_ref_age_ms,
            },
            SnapshotRefOperation::CreateBranch {
                name,
                snapshot_id,
                max_snapshot_age_ms,
                min_snapshots_to_keep,
                max_ref_age_ms,
            } => RefOperationView::CreateBranch {
                name: name@,
                snapshot_id: *snapshot_id,
                max_snapshot_age_ms: *max_snapshot_age_ms,
                min_snapshots_to_keep: *min_snapshots_to_keep,
                max_ref_age_ms: *max_ref_age_ms,
            },
            SnapshotRefOperation::RemoveTag { name } => RefOperationView::RemoveTag {
                name: name@,
            },
            SnapshotRefOperation::RemoveBranch { name } => RefOperationView::RemoveBranch {
                name: name@,
            },
            SnapshotRefOperation::ReplaceBranch {
                name,
                snapshot_id,
            } => RefOperationView::ReplaceBranch { name: name@, snapshot_id: *snapshot_id },
            SnapshotRefOperation::FastForward {
                name,
                to_snapshot_id,
            } => RefOperationView::FastForward { name: name@, to_snapshot_id: *to_snapshot_id },
        }
    }
}

/// An action that creates, updates and removes tags and branches.
///
/// All of its changes are made together or none of them: one that the table
/// rejects makes the whole action fail.
#[derive(Debug, Clone)]
pub struct ManageSnapshotsAction {
    operations: Vec<SnapshotRefOperation>,
}

impl View for ManageSnapshotsAction {
    type V = Seq<RefOperationView>;

    closed spec fn view(&self) -> Seq<RefOperationView> {
        self.operations@.map_values(|operation: SnapshotRefOperation| operation@)
    }
}

fn invalid(message: String) -> (r: Error)
    ensures
        r@ == data_invalid(message@),
{
    Error::new(ErrorKind::DataInvalid, message)
}

fn ref_error(prefix: &str, name: &String, suffix: &str) -> (r: Error)
    ensures
        r@ == data_invalid(about_ref(prefix@, name@, suffix@)),
{
    let mut message = prefix.to_string();
    message.append(name.as_str());
    message.append(suffix);
    invalid(message)
}

fn id_error(prefix: &str, id: i64, suffix: &str) -> (r: Error)
    ensures
        r@ == data_invalid(prefix@ + int_text(id as int) + suffix@),
{
    let mut message = prefix.to_string();
    push_i64(&mut message, id);
    message.append(suffix);
    invalid(message)
}

fn not_an_ancestor_error(from: i64, to: i64) -> (r: Error)
    ensures
        r@ == data_invalid(
            "Cannot fast-forward: snapshot "@ + int_text(from as int) + " is not an ancestor of "@
                + int_text(to as int),
        ),
{
    let mut message = "Cannot fast-forward: snapshot ".to_string();
    push_i64(&mut message, from);
    message.append(" is not an ancestor of ");
    push_i64(&mut message, to);
    invalid(message)
}

fn set_snapshot_ref(name: &String, snapshot_id: i64, retention: SnapshotRetention) -> (r:
    TableUpdate)
    ensures
        r@ == set_ref(name@, snapshot_id, retention),
{
    TableUpdate::SetSnapshotRef {
        ref_name: name.clone(),
        reference: SnapshotReference::new(snapshot_id, retention),
    }
}

/// Whether `r` is the update, or the error with the message, that `outcome` is.
spec fn is_outcome(
    r: Result<TableUpdate, Error>,
    outcome: Result<TableUpdateView, Seq<char>>,
) -> bool {
    match outcome {
        Ok(update) => r is Ok && r->Ok_0@ == update,
        Err(message) => r is Err && r->Err_0@ == data_invalid(message),
    }
}

impl ManageSnapshotsAction {
    /// An action without changes.
    pub fn new() -> (r: ManageSnapshotsAction)
        ensures
            r@ == Seq::<RefOperationView>::empty(),
    {
        let r = ManageSnapshotsAction { operations: Vec::new() };
        assert(r@ =~= Seq::<RefOperationView>::empty());
        r
    }

    fn with(self, operation: SnapshotRefOperation) -> (r: ManageSnapshotsAction)
        ensures
            r@ == self@.push(operation@),
    {
        let mut operations = self.operations;
        operations.push(operation);
        let r = ManageSnapshotsAction { operations };
        assert(r@ =~= self@.push(operation@));
        r
    }

    /// Creates a tag pointing to the given snapshot.
    pub fn create_tag(self, name: &str, snapshot_id: i64) -> (r: ManageSnapshotsAction)
        ensures
            r@ == self@.push(
                RefOperationView::CreateTag { name: name@, snapshot_id, max_ref_age_ms: None },
            ),
    {
        self.with(
            SnapshotRefOperation::CreateTag {
                name: name.to_string(),
                snapshot_id,
                max_ref_age_ms: None,
            },
        )
    }

    /// Creates a tag that expires at the given age, in milliseconds.
    pub fn create_tag_with_retention(
        self,
        name: &str,
        snapshot_id: i64,
        max_ref_age_ms: i64,
    ) -> (r: ManageSnapshotsAction)
        ensures
            r@ == self@.push(
                RefOperationView::CreateTag {
                    name: name@,
                    snapshot_id,
                    max_ref_age_ms: Some(max_ref_age_ms),
                },
            ),
    {
        self.with(
            SnapshotRefOperation::CreateTag {
                name: name.to_string(),
                snapshot_id,
                max_ref_age_ms: Some(max_ref_age_ms),
            },
        )
    }

    /// Creates a branch that starts at the given snapshot.
    pub fn create_branch(self, name: &str, snapshot_id: i64) -> (r: ManageSnapshotsAction)
        ensures
            r@ == self@.push(
                RefOperationView::CreateBranch {
                    name: name@,
                    snapshot_id,
                    max_snapshot_age_ms: None,
                    min_snapshots_to_keep: None,
                    max_ref_age_ms: None,
                },
            ),
    {
        self.with(
            SnapshotRefOperation::CreateBranch {
                name: name.to_string(),
                snapshot_id,
                max_snapshot_age_ms: None,
                min_snapshots_to_keep: None,
                max_ref_age_ms: None,
            },
        )
    }

    /// Creates a branch with a retention policy: the age from which its
    /// snapshots may expire, the number of them to keep at least, and the age
    /// from which the branch itself may expire.
    pub fn create_branch_with_retention(
        self,
        name: &str,
        snapshot_id: i64,
        max_snapshot_age_ms: Option<i64>,
        min_snapshots_to_keep: Option<i32>,
        max_ref_age_ms: Option<i64>,
    ) -> (r: ManageSnapshotsAction)
        ensures
            r@ == self@.push(
                RefOperationView::CreateBranch {
                    name: name@,
                    snapshot_id,
                    max_snapshot_age_ms,
                    min_snapshots_to_keep,
                    max_ref_age_ms,
                },
            ),
    {
        self.with(
            SnapshotRefOperation::CreateBranch {
                name: name.to_string(),
                snapshot_id,
                max_snapshot_age_ms,
                min_snapshots_to_keep,
                max_ref_age_ms,
            },
        )
    }

    /// Removes an existing tag.
    pub fn remove_tag(self, name: &str) -> (r: ManageSnapshotsAction)
        ensures
            r@ == self@.push(RefOperationView::RemoveTag { name: name@ }),
    {
        self.with(SnapshotRefOperation::RemoveTag { name: name.to_string() })
    }

    /// Removes an existing branch.
    pub fn remove_branch(self, name: &str) -> (r: ManageSnapshotsAction)
        ensures
            r@ == self@.push(RefOperationView::RemoveBranch { name: name@ }),
    {
        self.with(SnapshotRefOperation::RemoveBranch { name: name.to_string() })
    }

    /// Points an existing branch to another snapshot.
    pub fn replace_branch(self, name: &str, snapshot_id: i64) -> (r: ManageSnapshotsAction)
        ensures
            r@ == self@.push(RefOperationView::ReplaceBranch { name: name@, snapshot_id }),
    {
        self.with(SnapshotRefOperation::ReplaceBranch { name: name.to_string(), snapshot_id })
    }

    /// Points an existing branch to a newer snapshot, which has to descend
    /// from the head of the branch.
    pub fn fast_forward(self, name: &str, to_snapshot_id: i64) -> (r: ManageSnapshotsAction)
        ensures
            r@ == self@.push(RefOperationView::FastForward { name: name@, to_snapshot_id }),
    {
        self.with(SnapshotRefOperation::FastForward { name: name.to_string(), to_snapshot_id })
    }

    /// Checks that the table has the given snapshot.
    fn validate_snapshot_exists(&self, table: &Table, snapshot_id: i64) -> (r: Result<(), Error>)
        ensures
            match r {
                Ok(_) => table@.snapshots.contains_key(snapshot_id),
                Err(error) => !table@.snapshots.contains_key(snapshot_id) && error@ == data_invalid(
                    snapshot_missing(snapshot_id),
                ),
            },
    {
        if table.metadata().snapshot_by_id(snapshot_id).is_none() {
            return Err(
                id_error("Snapshot with ID ", snapshot_id, " does not exist in table history"),
            );
        }
        Ok(())
    }

    /// Checks that a branch with its head at the first snapshot can be
    /// fast-forwarded to the second: that the first is in the lineage of the
    /// second.
    ///
    /// The lineage of a snapshot that is its own ancestor never ends. It has
    /// come back to where it was when it holds more entries than the table has
    /// snapshots, and is not followed any further.
    fn validate_fast_forward(
        &self,
        table: &Table,
        from_snapshot_id: i64,
        to_snapshot_id: i64,
    ) -> (r: Result<(), Error>)
        ensures
            match fast_forward_rejection(table@, from_snapshot_id, to_snapshot_id) {
                None => r is Ok,
                Some(message) => r is Err && r->Err_0@ == data_invalid(message),
            },
    {
        let metadata = table.metadata();
        let mut current = match metadata.snapshot_by_id(to_snapshot_id) {
            Some(snapshot) => snapshot,
            None => {
                return Err(id_error("Target snapshot ", to_snapshot_id, " does not exist"));
            },
        };
        let limit: usize = metadata.snapshot_count();
        let mut steps: usize = 0;
        loop
            invariant
                metadata@ == table@,
                table@.wf(),
                table@.snapshots.contains_key(to_snapshot_id),
                limit == table@.snapshots.len(),
                steps <= limit,
                table@.snapshots.contains_key(current.snapshot_id),
                *current == table@.snapshots[current.snapshot_id],
                table@.lineage(to_snapshot_id, steps as nat) == Some(current.snapshot_id),
                forall|n: nat|
                    n < steps ==> #[trigger] table@.lineage(to_snapshot_id, n) != Some(
                        from_snapshot_id,
                    ),
            decreases limit - steps,
        {
            if current.snapshot_id() == from_snapshot_id {
                return Ok(());
            }
            if steps == limit {
                proof {
                    lemma_lineage_exhausted(table@, from_snapshot_id, to_snapshot_id);
                }
                return Err(not_an_ancestor_error(from_snapshot_id, to_snapshot_id));
            }
            match current.parent_snapshot_id {
                Some(parent_id) => match metadata.snapshot_by_id(parent_id) {
                    Some(snapshot) => {
                        current = snapshot;
                        steps = steps + 1;
                    },
                    None => {
                        proof {
                            lemma_lineage_complete(
                                table@,
                                from_snapshot_id,
                                to_snapshot_id,
                                steps as nat,
                            );
                            assert(table@.breaks_at(to_snapshot_id, parent_id));
                        }
                        return Err(
                            id_error("Parent snapshot ", parent_id, " not found in history"),
                        );
                    },
                },
                None => {
                    proof {
                        lemma_lineage_complete(
                            table@,
                            from_snapshot_id,
                            to_snapshot_id,
                            steps as nat,
                        );
                    }
                    return Err(not_an_ancestor_error(from_snapshot_id, to_snapshot_id));
                },
            }
        }
    }

    fn create_tag_update(
        &self,
        table: &Table,
        name: &String,
        snapshot_id: i64,
        max_ref_age_ms: Option<i64>,
    ) -> (r: Result<TableUpdate, Error>)
        ensures
            is_outcome(
                r,
                RefOperationView::CreateTag { name: name@, snapshot_id, max_ref_age_ms }.outcome(
                    table@,
                ),
            ),
    {
        match self.validate_snapshot_exists(table, snapshot_id) {
            Err(error) => {
                return Err(error);
            },
            Ok(_) => {},
        }
        if let Some(existing) = table.metadata().ref_by_name(name.as_str()) {
            if existing.retention.is_branch() {
                return Err(
                    ref_error(
                        "Reference '",
                        name,
                        "' already exists as a branch, cannot create tag",
                    ),
                );
            }
        }
        Ok(set_snapshot_ref(name, snapshot_id, SnapshotRetention::Tag { max_ref_age_ms }))
    }

    fn create_branch_update(
        &self,
        table: &Table,
        name: &String,
        snapshot_id: i64,
        max_snapshot_age_ms: Option<i64>,
        min_snapshots_to_keep: Option<i32>,
        max_ref_age_ms: Option<i64>,
    ) -> (r: Result<TableUpdate, Error>)
        ensures
            is_outcome(
                r,
                RefOperationView::CreateBranch {
                    name: name@,
                    snapshot_id,
                    max_snapshot_age_ms,
                    min_snapshots_to_keep,
                    max_ref_age_ms,
                }.outcome(table@),
            ),
    {
        match self.validate_snapshot_exists(table, snapshot_id) {
            Err(error) => {
                return Err(error);
            },
            Ok(_) => {},
        }
        if let Some(existing) = table.metadata().ref_by_name(name.as_str()) {
            if !existing.retention.is_branch() {
                return Err(
                    ref_error(
                        "Reference '",
                        name,
                        "' already exists as a tag, cannot create branch",
                    ),
                );
            }
        }
        let retention = SnapshotRetention::branch(
            min_snapshots_to_keep,
            max_snapshot_age_ms,
            max_ref_age_ms,
        );
        Ok(set_snapshot_ref(name, snapshot_id, retention))
    }

    fn remove_tag_update(&self, table: &Table, name: &String) -> (r: Result<TableUpdate, Error>)
        ensures
            is_outcome(r, RefOperationView::RemoveTag { name: name@ }.outcome(table@)),
    {
        match table.metadata().ref_by_name(name.as_str()) {
            None => Err(ref_error("Tag '", name, "' does not exist")),
            Some(existing) => if existing.retention.is_branch() {
                Err(ref_error("Reference '", name, "' is not a tag, cannot remove as tag"))
            } else {
                Ok(TableUpdate::RemoveSnapshotRef { ref_name: name.clone() })
            },
        }
    }

    fn remove_branch_update(&self, table: &Table, name: &String) -> (r: Result<TableUpdate, Error>)
        ensures
            is_outcome(r, RefOperationView::RemoveBranch { name: name@ }.outcome(table@)),
    {
        match table.metadata().ref_by_name(name.as_str()) {
            None => Err(ref_error("Branch '", name, "' does not exist")),
            Some(existing) => if !existing.retention.is_branch() {
                Err(ref_error("Reference '", name, "' is not a branch, cannot remove as branch"))
            } else {
                Ok(TableUpdate::RemoveSnapshotRef { ref_name: name.clone() })
            },
        }
    }

    fn replace_branch_update(
        &self,
        table: &Table,
        name: &String,
        snapshot_id: i64,
    ) -> (r: Result<TableUpdate, Error>)
        ensures
            is_outcome(
                r,
                RefOperationView::ReplaceBranch { name: name@, snapshot_id }.outcome(table@),
            ),
    {
        match self.validate_snapshot_exists(table, snapshot_id) {
            Err(error) => {
                return Err(error);
            },
            Ok(_) => {},
        }
        match table.metadata().ref_by_name(name.as_str()) {
            None => Err(ref_error("Branch '", name, "' does not exist")),
            Some(existing) => if !existing.retention.is_branch() {
                Err(ref_error("Reference '", name, "' is not a branch, cannot replace"))
            } else {
                // The retention policy stays.
                Ok(set_snapshot_ref(name, snapshot_id, existing.retention))
            },
        }
    }

    fn fast_forward_update(
        &self,
        table: &Table,
        name: &String,
        to_snapshot_id: i64,
    ) -> (r: Result<TableUpdate, Error>)
        ensures
            is_outcome(
                r,
                RefOperationView::FastForward { name: name@, to_snapshot_id }.outcome(table@),
            ),
    {
        match self.validate_snapshot_exists(table, to_snapshot_id) {
            Err(error) => {
                return Err(error);
            },
            Ok(_) => {},
        }
        match table.metadata().ref_by_name(name.as_str()) {
            None => Err(ref_error("Branch '", name, "' does not exist")),
            Some(existing) => if !existing.retention.is_branch() {
                Err(ref_error("Reference '", name, "' is not a branch, cannot fast-forward"))
            } else {
                match self.validate_fast_forward(table, existing.snapshot_id, to_snapshot_id) {
                    Err(error) => Err(error),
                    // The retention policy stays.
                    Ok(_) => Ok(set_snapshot_ref(name, to_snapshot_id, existing.retention)),
                }
            },
        }
    }

    /// The update that one operation amounts to on the table.
    fn update_for(&self, operation: &SnapshotRefOperation, table: &Table) -> (r: Result<
        TableUpdate,
        Error,
    >)
        ensures
            is_outcome(r, operation@.outcome(table@)),
    {
        match operation {
            SnapshotRefOperation::CreateTag { name, snapshot_id, max_ref_age_ms } => {
                self.create_tag_update(table, name, *snapshot_id, *max_ref_age_ms)
            },
            SnapshotRefOperation::CreateBranch {
                name,
                snapshot_id,
                max_snapshot_age_ms,
                min_snapshots_to_keep,
                max_ref_age_ms,
            } => self.create_branch_update(
                table,
                name,
                *snapshot_id,
                *max_snapshot_age_ms,
                *min_snapshots_to_keep,
                *max_ref_age_ms,
            ),
            SnapshotRefOperation::RemoveTag { name } => self.remove_tag_update(table, name),
            SnapshotRefOperation::RemoveBranch { name } => self.remove_branch_update(table, name),
            SnapshotRefOperation::ReplaceBranch { name, snapshot_id } => {
                self.replace_branch_update(table, name, *snapshot_id)
            },
            SnapshotRefOperation::FastForward { name, to_snapshot_id } => {
                self.fast_forward_update(table, name, *to_snapshot_id)
            },
        }
    }

    /// The updates that the action asks of the table, and the requirement that
    /// they are made on this table; or the error of the first of its changes
    /// that the table rejects.
    pub fn commit(&self, table: &Table) -> (r: Result<ActionCommit, Error>)
        ensures
            match r {
                Ok(commit) => all_accepted(self@, table@) && commit@ == accepted_commit(
                    self@,
                    table@,
                ),
                Err(error) => exists|i: int|
                    {
                        &&& #[trigger] first_rejected(self@, table@, i)
                        &&& error@ == data_invalid(self@[i].outcome(table@)->Err_0)
                    },
            },
            r is Ok <==> forall|i: int|
                0 <= i < self@.len() ==> (#[trigger] self@[i]).outcome(table@) is Ok,
            r matches Ok(commit) ==> {
                &&& commit@.updates.len() == self@.len()
                &&& forall|i: int|
                    0 <= i < self@.len() ==> #[trigger] commit@.updates[i] == self@[i].outcome(
                        table@,
                    )->Ok_0
                &&& commit@.requirements.len() == 1
                &&& commit@.requirements[0] == (TableRequirementView::UuidMatch {
                    uuid: table@.uuid,
                })
            },
            r matches Err(error) ==> exists|i: int|
                {
                    &&& 0 <= i < self@.len()
                    &&& (#[trigger] self@[i]).outcome(table@) is Err
                    &&& error@.message == self@[i].outcome(table@)->Err_0
                    &&& error@.kind == ErrorKind::DataInvalid
                    &&& forall|j: int|
                        0 <= j < i ==> (#[trigger] self@[j]).outcome(table@) is Ok
                },
    {
        let mut updates: Vec<TableUpdate> = Vec::new();
        let mut i: usize = 0;
        while i < self.operations.len()
            invariant
                i <= self.operations.len(),
                self@.len() == self.operations.len(),
                forall|j: int| 0 <= j < self@.len() ==> #[trigger] self@[j] == self.operations@[j]@,
                forall|j: int| 0 <= j < i ==> (#[trigger] self@[j]).outcome(table@) is Ok,
                updates@.len() == i,
                forall|j: int|
                    0 <= j < i ==> (#[trigger] updates@[j])@ == self@[j].outcome(table@)->Ok_0,
            decreases self.operations.len() - i,
        {
            assert(self@[i as int] == self.operations@[i as int]@);
            match self.update_for(&self.operations[i], table) {
                Err(error) => {
                    assert(first_rejected(self@, table@, i as int));
                    return Err(error);
                },
                Ok(update) => {
                    updates.push(update);
                },
            }
            i = i + 1;
        }
        let mut requirements: Vec<TableRequirement> = Vec::new();
        requirements.push(TableRequirement::UuidMatch { uuid: table.metadata().uuid() });
        assert(updates_view(updates@) =~= accepted_commit(self@, table@).updates);
        assert(requirements_view(requirements@) =~= accepted_commit(self@, table@).requirements);
        Ok(ActionCommit::new(updates, requirements))
    }
}

} // verus!
