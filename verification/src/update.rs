//! What an action asks of a table: updates, and requirements under which they
//! may be made.

use vstd::prelude::*;

use crate::ids::Uuid;
use crate::refs::SnapshotReference;
use crate::snapshot::Snapshot;

verus! {

/// A change of a table's metadata.
#[derive(Debug, Clone)]
pub enum TableUpdate {
    /// Add a snapshot.
    AddSnapshot {
        /// The snapshot to add.
        snapshot: Snapshot,
    },
    /// Create a reference, or replace the one with the same name.
    SetSnapshotRef {
        /// The name of the reference.
        ref_name: String,
        /// The reference to set.
        reference: SnapshotReference,
    },
    /// Remove a reference.
    RemoveSnapshotRef {
        /// The name of the reference.
        ref_name: String,
    },
}

/// What a [`TableUpdate`] says.
pub enum TableUpdateView {
    AddSnapshot { snapshot: Snapshot },
    SetSnapshotRef { ref_name: Seq<char>, reference: SnapshotReference },
    RemoveSnapshotRef { ref_name: Seq<char> },
}

impl View for TableUpdate {
    type V = TableUpdateView;

    open spec fn view(&self) -> TableUpdateView {
        match self {
            TableUpdate::AddSnapshot { snapshot } => TableUpdateView::AddSnapshot {
                snapshot: *snapshot,
            },
            TableUpdate::SetSnapshotRef { ref_name, reference } => TableUpdateView::SetSnapshotRef {
                ref_name: ref_name@,
                reference: *reference,
            },
            TableUpdate::RemoveSnapshotRef { ref_name } => TableUpdateView::RemoveSnapshotRef {
                ref_name: ref_name@,
            },
        }
    }
}

/// The tags and branches of a table after one update.
pub open spec fn refs_after_update(
    refs: Map<Seq<char>, SnapshotReference>,
    update: TableUpdateView,
) -> Map<Seq<char>, SnapshotReference> {
    match update {
        TableUpdateView::AddSnapshot { .. } => refs,
        TableUpdateView::SetSnapshotRef { ref_name, reference } => refs.insert(ref_name, reference),
        TableUpdateView::RemoveSnapshotRef { ref_name } => refs.remove(ref_name),
    }
}

/// The tags and branches of a table after the updates, made in order.
pub open spec fn refs_after(
    refs: Map<Seq<char>, SnapshotReference>,
    updates: Seq<TableUpdateView>,
) -> Map<Seq<char>, SnapshotReference>
    decreases updates.len(),
{
    if updates.len() == 0 {
        refs
    } else {
        refs_after_update(refs_after(refs, updates.drop_last()), updates.last())
    }
}

/// A condition that a table has to meet when the updates are made.
#[derive(Debug, Clone)]
pub enum TableRequirement {
    /// The table has the given id.
    UuidMatch {
        /// The id.
        uuid: Uuid,
    },
    /// The reference points to the given snapshot, or does not exist if there
    /// is none.
    RefSnapshotIdMatch {
        /// The name of the reference.
        ref_name: String,
        /// The id of the snapshot.
        snapshot_id: Option<i64>,
    },
}

/// What a [`TableRequirement`] says.
pub enum TableRequirementView {
    UuidMatch { uuid: Uuid },
    RefSnapshotIdMatch { ref_name: Seq<char>, snapshot_id: Option<i64> },
}

impl View for TableRequirement {
    type V = TableRequirementView;

    open spec fn view(&self) -> TableRequirementView {
        match self {
            TableRequirement::UuidMatch { uuid } => TableRequirementView::UuidMatch { uuid: *uuid },
            TableRequirement::RefSnapshotIdMatch { ref_name, snapshot_id } => {
                TableRequirementView::RefSnapshotIdMatch {
                    ref_name: ref_name@,
                    snapshot_id: *snapshot_id,
                }
            },
        }
    }
}

/// The updates and requirements of an action.
#[derive(Debug, Clone)]
pub struct ActionCommit {
    updates: Vec<TableUpdate>,
    requirements: Vec<TableRequirement>,
}

/// What an [`ActionCommit`] holds.
#[verifier::ext_equal]
pub struct ActionCommitView {
    /// The updates, in the order in which they are made.
    pub updates: Seq<TableUpdateView>,
    /// The requirements, all of which have to be met.
    pub requirements: Seq<TableRequirementView>,
}

/// What a sequence of updates says.
pub open spec fn updates_view(updates: Seq<TableUpdate>) -> Seq<TableUpdateView> {
    updates.map_values(|update: TableUpdate| update@)
}

/// What a sequence of requirements says.
pub open spec fn requirements_view(requirements: Seq<TableRequirement>) -> Seq<
    TableRequirementView,
> {
    requirements.map_values(|requirement: TableRequirement| requirement@)
}

impl View for ActionCommit {
    type V = ActionCommitView;

    closed spec fn view(&self) -> ActionCommitView {
        ActionCommitView {
            updates: updates_view(self.updates@),
            requirements: requirements_view(self.requirements@),
        }
    }
}

impl ActionCommit {
    /// The given updates under the given requirements.
    pub fn new(updates: Vec<TableUpdate>, requirements: Vec<TableRequirement>) -> (r: ActionCommit)
        ensures
            r@ == (ActionCommitView {
                updates: updates_view(updates@),
                requirements: requirements_view(requirements@),
            }),
            r@.updates.len() == updates@.len(),
            forall|i: int| 0 <= i < updates@.len() ==> #[trigger] r@.updates[i] == updates@[i]@,
            r@.requirements.len() == requirements@.len(),
            forall|i: int|
                0 <= i < requirements@.len() ==> #[trigger] r@.requirements[i]
                    == requirements@[i]@,
    {
        ActionCommit { updates, requirements }
    }

    /// Takes the updates out, and leaves none.
    pub fn take_updates(&mut self) -> (r: Vec<TableUpdate>)
        ensures
            updates_view(r@) == old(self)@.updates,
            r@.len() == old(self)@.updates.len(),
            forall|i: int| 0 <= i < r@.len() ==> (#[trigger] r@[i])@ == old(self)@.updates[i],
            final(self)@ == (ActionCommitView { updates: seq![], ..old(self)@ }),
    {
        let mut taken: Vec<TableUpdate> = Vec::new();
        std::mem::swap(&mut taken, &mut self.updates);
        assert forall|i: int| 0 <= i < taken@.len() implies (#[trigger] taken@[i])@
            == updates_view(taken@)[i] by {}
        assert(updates_view(self.updates@) =~= seq![]);
        taken
    }

    /// Takes the requirements out, and leaves none.
    pub fn take_requirements(&mut self) -> (r: Vec<TableRequirement>)
        ensures
            requirements_view(r@) == old(self)@.requirements,
            r@.len() == old(self)@.requirements.len(),
            forall|i: int| 0 <= i < r@.len() ==> (#[trigger] r@[i])@ == old(self)@.requirements[i],
            final(self)@ == (ActionCommitView { requirements: seq![], ..old(self)@ }),
    {
        let mut taken: Vec<TableRequirement> = Vec::new();
        std::mem::swap(&mut taken, &mut self.requirements);
        assert forall|i: int| 0 <= i < taken@.len() implies (#[trigger] taken@[i])@
            == requirements_view(taken@)[i] by {}
        assert(requirements_view(self.requirements@) =~= seq![]);
        taken
    }
}

/// A list of updates says what each of them says, in the same order.
pub proof fn law_updates_say_what_each_says(updates: Seq<TableUpdate>, i: int)
    requires
        0 <= i < updates.len(),
    ensures
        updates_view(updates).len() == updates.len(),
        match updates[i] {
            TableUpdate::AddSnapshot { snapshot } => updates_view(updates)[i]
                == (TableUpdateView::AddSnapshot { snapshot }),
            TableUpdate::SetSnapshotRef { ref_name, reference } => updates_view(updates)[i]
                == (TableUpdateView::SetSnapshotRef { ref_name: ref_name@, reference }),
            TableUpdate::RemoveSnapshotRef { ref_name } => updates_view(updates)[i]
                == (TableUpdateView::RemoveSnapshotRef { ref_name: ref_name@ }),
        },
{
}

/// A list of requirements says what each of them says, in the same order.
pub proof fn law_requirements_say_what_each_says(requirements: Seq<TableRequirement>, i: int)
    requires
        0 <= i < requirements.len(),
    ensures
        requirements_view(requirements).len() == requirements.len(),
        match requirements[i] {
            TableRequirement::UuidMatch { uuid } => requirements_view(requirements)[i]
                == (TableRequirementView::UuidMatch { uuid }),
            TableRequirement::RefSnapshotIdMatch { ref_name, snapshot_id } => requirements_view(
                requirements,
            )[i] == (TableRequirementView::RefSnapshotIdMatch { ref_name: ref_name@, snapshot_id }),
        },
{
}

/// Setting a reference gives it the snapshot and the retention policy that it
/// is set with, removing one takes it away, and neither touches another.
pub proof fn law_an_update_changes_one_reference(
    refs: Map<Seq<char>, SnapshotReference>,
    updates: Seq<TableUpdateView>,
    name: Seq<char>,
    reference: SnapshotReference,
    other: Seq<char>,
)
    requires
        name != other,
    ensures
        ({
            let before = refs_after(refs, updates);
            let set = refs_after(
                refs,
                updates.push(TableUpdateView::SetSnapshotRef { ref_name: name, reference }),
            );
            let removed = refs_after(
                refs,
                updates.push(TableUpdateView::RemoveSnapshotRef { ref_name: name }),
            );
            &&& refs_after(refs, seq![]) == refs
            &&& set.contains_key(name) && set[name] == reference
            &&& !removed.contains_key(name)
            &&& set.contains_key(other) == before.contains_key(other)
            &&& removed.contains_key(other) == before.contains_key(other)
            &&& before.contains_key(other) ==> set[other] == before[other] && removed[other]
                == before[other]
        }),
{
    let set = updates.push(TableUpdateView::SetSnapshotRef { ref_name: name, reference });
    let removed = updates.push(TableUpdateView::RemoveSnapshotRef { ref_name: name });
    assert(set.drop_last() =~= updates);
    assert(removed.drop_last() =~= updates);
}

} // verus!
