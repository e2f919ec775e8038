//! What holds of every action on tags and branches.

use vstd::prelude::*;

use crate::lineage::{
    lemma_ancestor_transitive, lemma_breaks_at_one, lemma_breaks_of_same_history,
    lemma_lineage_complete, lemma_lineage_continues, lemma_lineage_cycle, lemma_lineage_ended,
    lemma_lineage_in_table, lemma_lineage_of_same_history,
};
use crate::manage_snapshots::{
    accepted_commit, all_accepted, fast_forward_rejection, first_rejected, RefOperationView,
};
use crate::metadata::TableMetadataView;
use crate::refs::{SnapshotReference, SnapshotRetention};
use crate::text::int_text;
use crate::update::{refs_after, refs_after_update, TableRequirementView, TableUpdateView};

verus! {

/// An action is either accepted as a whole or rejected for one operation, the
/// first that the table rejects; never both.
pub proof fn law_commit_is_all_or_nothing(
    operations: Seq<RefOperationView>,
    table: TableMetadataView,
)
    ensures
        !all_accepted(operations, table) <==> exists|i: int|
            first_rejected(operations, table, i),
        forall|i: int, j: int|
            first_rejected(operations, table, i) && first_rejected(operations, table, j) ==> i == j,
    decreases operations.len(),
{
    if !all_accepted(operations, table) {
        let rest = operations.drop_last();
        law_commit_is_all_or_nothing(rest, table);
        if !all_accepted(rest, table) {
            let i = choose|i: int| first_rejected(rest, table, i);
            assert forall|j: int| 0 <= j < i implies (#[trigger] operations[j]).outcome(
                table,
            ) is Ok by {
                assert(rest[j] == operations[j]);
            }
            assert(rest[i] == operations[i]);
            assert(first_rejected(operations, table, i));
        } else {
            assert forall|j: int| 0 <= j < rest.len() implies (#[trigger] operations[j]).outcome(
                table,
            ) is Ok by {
                assert(rest[j] == operations[j]);
            }
            assert(first_rejected(operations, table, operations.len() - 1));
        }
    }
}

/// Operations are judged by the table as it is, not by one another: two lists
/// of them are accepted together exactly if each is by itself, and ask for the
/// updates of the first, then those of the second.
pub proof fn law_operations_are_independent(
    first: Seq<RefOperationView>,
    second: Seq<RefOperationView>,
    table: TableMetadataView,
)
    ensures
        all_accepted(first + second, table) <==> all_accepted(first, table) && all_accepted(
            second,
            table,
        ),
        accepted_commit(first + second, table).updates == accepted_commit(first, table).updates
            + accepted_commit(second, table).updates,
{
    let both = first + second;
    if all_accepted(both, table) {
        assert forall|i: int| 0 <= i < first.len() implies (#[trigger] first[i]).outcome(
            table,
        ) is Ok by {
            assert(both[i] == first[i]);
        }
        assert forall|i: int| 0 <= i < second.len() implies (#[trigger] second[i]).outcome(
            table,
        ) is Ok by {
            assert(both[first.len() + i] == second[i]);
        }
    }
    assert(accepted_commit(both, table).updates =~= accepted_commit(first, table).updates
        + accepted_commit(second, table).updates);
}

/// The update of an accepted operation is about the reference that the
/// operation names.
proof fn lemma_update_names_its_ref(operation: RefOperationView, table: TableMetadataView)
    requires
        operation.outcome(table) is Ok,
    ensures
        match operation.outcome(table)->Ok_0 {
            TableUpdateView::SetSnapshotRef { ref_name, .. } => ref_name == operation.name(),
            TableUpdateView::RemoveSnapshotRef { ref_name } => ref_name == operation.name(),
            TableUpdateView::AddSnapshot { .. } => false,
        },
{
}

/// A reference that no operation names stays as it is.
pub proof fn law_other_refs_stay(
    operations: Seq<RefOperationView>,
    table: TableMetadataView,
    name: Seq<char>,
)
    requires
        all_accepted(operations, table),
        forall|i: int| 0 <= i < operations.len() ==> (#[trigger] operations[i]).name() != name,
    ensures
        ({
            let after = refs_after(table.refs, accepted_commit(operations, table).updates);
            &&& after.contains_key(name) <==> table.refs.contains_key(name)
            &&& table.refs.contains_key(name) ==> after[name] == table.refs[name]
        }),
    decreases operations.len(),
{
    let updates = accepted_commit(operations, table).updates;
    if operations.len() > 0 {
        let rest = operations.drop_last();
        assert forall|i: int| 0 <= i < rest.len() implies #[trigger] rest[i] == operations[i] by {}
        law_other_refs_stay(rest, table, name);
        assert(updates.drop_last() =~= accepted_commit(rest, table).updates);
        assert(operations.last() == operations[operations.len() - 1]);
        lemma_update_names_its_ref(operations.last(), table);
    }
}

/// Of the operations that name a reference, the last one decides what becomes
/// of it: a reference that is set has the snapshot and the retention policy
/// that it was set with, and one that is removed is gone.
pub proof fn law_last_operation_decides(
    operations: Seq<RefOperationView>,
    table: TableMetadataView,
    i: int,
)
    requires
        all_accepted(operations, table),
        0 <= i < operations.len(),
        forall|j: int|
            i < j < operations.len() ==> (#[trigger] operations[j]).name() != operations[i].name(),
    ensures
        ({
            let after = refs_after(table.refs, accepted_commit(operations, table).updates);
            let name = operations[i].name();
            match operations[i].outcome(table)->Ok_0 {
                TableUpdateView::SetSnapshotRef { reference, .. } => after.contains_key(name)
                    && after[name] == reference,
                TableUpdateView::RemoveSnapshotRef { .. } => !after.contains_key(name),
                TableUpdateView::AddSnapshot { .. } => false,
            }
        }),
    decreases operations.len(),
{
    let updates = accepted_commit(operations, table).updates;
    let rest = operations.drop_last();
    assert(updates.drop_last() =~= accepted_commit(rest, table).updates);
    assert forall|j: int| 0 <= j < rest.len() implies #[trigger] rest[j] == operations[j] by {}
    lemma_update_names_its_ref(operations[i], table);
    lemma_update_names_its_ref(operations[operations.len() - 1], table);
    if i < operations.len() - 1 {
        law_last_operation_decides(rest, table, i);
    }
}

/// A tag that was created can be read: it is a tag, at its snapshot, with its
/// retention policy. `i` is the last operation that names it.
pub proof fn law_created_tag_can_be_read(
    operations: Seq<RefOperationView>,
    table: TableMetadataView,
    i: int,
    name: Seq<char>,
    snapshot_id: i64,
    max_ref_age_ms: Option<i64>,
)
    requires
        all_accepted(operations, table),
        0 <= i < operations.len(),
        operations[i] == (RefOperationView::CreateTag { name, snapshot_id, max_ref_age_ms }),
        forall|j: int| i < j < operations.len() ==> (#[trigger] operations[j]).name() != name,
    ensures
        ({
            let after = refs_after(table.refs, accepted_commit(operations, table).updates);
            &&& after.contains_key(name)
            &&& after[name] == (SnapshotReference {
                snapshot_id,
                retention: SnapshotRetention::Tag { max_ref_age_ms },
            })
        }),
{
    law_last_operation_decides(operations, table, i);
}

/// A branch that was created can be read: it is a branch, at its snapshot, with
/// its retention policy. `i` is the last operation that names it.
pub proof fn law_created_branch_can_be_read(
    operations: Seq<RefOperationView>,
    table: TableMetadataView,
    i: int,
    name: Seq<char>,
    snapshot_id: i64,
    max_snapshot_age_ms: Option<i64>,
    min_snapshots_to_keep: Option<i32>,
    max_ref_age_ms: Option<i64>,
)
    requires
        all_accepted(operations, table),
        0 <= i < operations.len(),
        operations[i] == (RefOperationView::CreateBranch {
            name,
            snapshot_id,
            max_snapshot_age_ms,
            min_snapshots_to_keep,
            max_ref_age_ms,
        }),
        forall|j: int| i < j < operations.len() ==> (#[trigger] operations[j]).name() != name,
    ensures
        ({
            let after = refs_after(table.refs, accepted_commit(operations, table).updates);
            &&& after.contains_key(name)
            &&& after[name] == (SnapshotReference {
                snapshot_id,
                retention: SnapshotRetention::Branch {
                    min_snapshots_to_keep,
                    max_snapshot_age_ms,
                    max_ref_age_ms,
                },
            })
        }),
{
    law_last_operation_decides(operations, table, i);
}

/// A tag or branch that was removed is gone. `i` is the last operation that
/// names it.
pub proof fn law_removed_ref_is_gone(
    operations: Seq<RefOperationView>,
    table: TableMetadataView,
    i: int,
)
    requires
        all_accepted(operations, table),
        0 <= i < operations.len(),
        operations[i] is RemoveTag || operations[i] is RemoveBranch,
        forall|j: int|
            i < j < operations.len() ==> (#[trigger] operations[j]).name() != operations[i].name(),
    ensures
        !refs_after(table.refs, accepted_commit(operations, table).updates).contains_key(
            operations[i].name(),
        ),
{
    law_last_operation_decides(operations, table, i);
}

/// Every reference that an accepted action sets points to a snapshot of the
/// table.
pub proof fn law_set_refs_point_into_table(
    operations: Seq<RefOperationView>,
    table: TableMetadataView,
    i: int,
)
    requires
        all_accepted(operations, table),
        0 <= i < operations.len(),
    ensures
        match accepted_commit(operations, table).updates[i] {
            TableUpdateView::SetSnapshotRef { reference, .. } => table.snapshots.contains_key(
                reference.snapshot_id,
            ),
            _ => true,
        },
{
    assert(operations[i].outcome(table) is Ok);
}

/// If every reference of the table points to one of its snapshots, so does
/// every one after an accepted action.
pub proof fn law_refs_keep_pointing_into_table(
    operations: Seq<RefOperationView>,
    table: TableMetadataView,
)
    requires
        all_accepted(operations, table),
        forall|name: Seq<char>| #[trigger]
            table.refs.contains_key(name) ==> table.snapshots.contains_key(
                table.refs[name].snapshot_id,
            ),
    ensures
        ({
            let after = refs_after(table.refs, accepted_commit(operations, table).updates);
            forall|name: Seq<char>| #[trigger]
                after.contains_key(name) ==> table.snapshots.contains_key(after[name].snapshot_id)
        }),
    decreases operations.len(),
{
    let updates = accepted_commit(operations, table).updates;
    if operations.len() > 0 {
        let rest = operations.drop_last();
        assert forall|j: int| 0 <= j < rest.len() implies #[trigger] rest[j] == operations[j] by {}
        law_refs_keep_pointing_into_table(rest, table);
        assert(updates.drop_last() =~= accepted_commit(rest, table).updates);
        law_set_refs_point_into_table(operations, table, operations.len() - 1);
    }
}

/// A tag never becomes a branch, nor a branch a tag: a reference that the table
/// has both before and after an accepted action is of the same kind.
pub proof fn law_kind_never_changes(
    operations: Seq<RefOperationView>,
    table: TableMetadataView,
    name: Seq<char>,
)
    requires
        all_accepted(operations, table),
        table.refs.contains_key(name),
    ensures
        ({
            let after = refs_after(table.refs, accepted_commit(operations, table).updates);
            after.contains_key(name) ==> (after[name].retention is Branch
                <==> table.refs[name].retention is Branch)
        }),
    decreases operations.len(),
{
    let updates = accepted_commit(operations, table).updates;
    if operations.len() > 0 {
        let rest = operations.drop_last();
        assert forall|j: int| 0 <= j < rest.len() implies #[trigger] rest[j] == operations[j] by {}
        law_kind_never_changes(rest, table, name);
        assert(updates.drop_last() =~= accepted_commit(rest, table).updates);
        assert(operations[operations.len() - 1].outcome(table) is Ok);
    }
}

/// Replacing or fast-forwarding a branch points it to the snapshot that was
/// asked for, and keeps its retention policy.
pub proof fn law_moving_a_branch_keeps_its_retention(
    operation: RefOperationView,
    table: TableMetadataView,
)
    requires
        operation is ReplaceBranch || operation is FastForward,
        operation.outcome(table) is Ok,
    ensures
        table.refs.contains_key(operation.name()),
        operation.outcome(table)->Ok_0 == (TableUpdateView::SetSnapshotRef {
            ref_name: operation.name(),
            reference: SnapshotReference {
                snapshot_id: match operation {
                    RefOperationView::ReplaceBranch { snapshot_id, .. } => snapshot_id,
                    RefOperationView::FastForward { to_snapshot_id, .. } => to_snapshot_id,
                    _ => 0,
                },
                retention: table.refs[operation.name()].retention,
            },
        }),
{
}

/// After an accepted action whose last operation on a name replaces the branch
/// of that name, the branch is at exactly the snapshot that was given, with the
/// retention policy that it had.
pub proof fn law_replaced_branch_can_be_read(
    operations: Seq<RefOperationView>,
    table: TableMetadataView,
    i: int,
    name: Seq<char>,
    snapshot_id: i64,
)
    requires
        all_accepted(operations, table),
        0 <= i < operations.len(),
        operations[i] == (RefOperationView::ReplaceBranch { name, snapshot_id }),
        forall|j: int| i < j < operations.len() ==> (#[trigger] operations[j]).name() != name,
    ensures
        table.refs.contains_key(name),
        ({
            let updates = accepted_commit(operations, table).updates;
            let after = refs_after(table.refs, updates);
            let moved = SnapshotReference { snapshot_id, retention: table.refs[name].retention };
            &&& updates[i] == (TableUpdateView::SetSnapshotRef {
                ref_name: name,
                reference: moved,
            })
            &&& after.contains_key(name)
            &&& after[name] == moved
        }),
{
    law_last_operation_decides(operations, table, i);
    assert(operations[i].outcome(table) is Ok);
}

/// After an accepted action whose last operation on a name fast-forwards the
/// branch of that name, the branch is at exactly the snapshot that was given,
/// with the retention policy that it had.
pub proof fn law_fast_forwarded_branch_can_be_read(
    operations: Seq<RefOperationView>,
    table: TableMetadataView,
    i: int,
    name: Seq<char>,
    to_snapshot_id: i64,
)
    requires
        all_accepted(operations, table),
        0 <= i < operations.len(),
        operations[i] == (RefOperationView::FastForward { name, to_snapshot_id }),
        forall|j: int| i < j < operations.len() ==> (#[trigger] operations[j]).name() != name,
    ensures
        table.refs.contains_key(name),
        ({
            let updates = accepted_commit(operations, table).updates;
            let after = refs_after(table.refs, updates);
            let moved = SnapshotReference {
                snapshot_id: to_snapshot_id,
                retention: table.refs[name].retention,
            };
            &&& updates[i] == (TableUpdateView::SetSnapshotRef {
                ref_name: name,
                reference: moved,
            })
            &&& after.contains_key(name)
            &&& after[name] == moved
        }),
{
    law_last_operation_decides(operations, table, i);
    assert(operations[i].outcome(table) is Ok);
}

/// A tag can be created, or moved, at every snapshot of the table under every
/// name that is not a branch's, and nowhere else. It is created under that
/// name, at that snapshot, with the given retention policy.
pub proof fn law_tags_are_created_exactly_where_no_branch_is(
    table: TableMetadataView,
    name: Seq<char>,
    snapshot_id: i64,
    max_ref_age_ms: Option<i64>,
)
    ensures
        ({
            let outcome = (RefOperationView::CreateTag {
                name,
                snapshot_id,
                max_ref_age_ms,
            }).outcome(table);
            &&& outcome is Ok <==> table.snapshots.contains_key(snapshot_id) && !(
            table.refs.contains_key(name) && table.refs[name].retention is Branch)
            &&& outcome is Ok ==> outcome->Ok_0 == (TableUpdateView::SetSnapshotRef {
                ref_name: name,
                reference: SnapshotReference {
                    snapshot_id,
                    retention: SnapshotRetention::Tag { max_ref_age_ms },
                },
            })
        }),
{
}

/// A branch can be created, or moved, at every snapshot of the table under
/// every name that is not a tag's, and nowhere else. It is created under that
/// name, at that snapshot, with the given retention policy.
pub proof fn law_branches_are_created_exactly_where_no_tag_is(
    table: TableMetadataView,
    name: Seq<char>,
    snapshot_id: i64,
    max_snapshot_age_ms: Option<i64>,
    min_snapshots_to_keep: Option<i32>,
    max_ref_age_ms: Option<i64>,
)
    ensures
        ({
            let outcome = (RefOperationView::CreateBranch {
                name,
                snapshot_id,
                max_snapshot_age_ms,
                min_snapshots_to_keep,
                max_ref_age_ms,
            }).outcome(table);
            &&& outcome is Ok <==> table.snapshots.contains_key(snapshot_id) && !(
            table.refs.contains_key(name) && table.refs[name].retention is Tag)
            &&& outcome is Ok ==> outcome->Ok_0 == (TableUpdateView::SetSnapshotRef {
                ref_name: name,
                reference: SnapshotReference {
                    snapshot_id,
                    retention: SnapshotRetention::Branch {
                        min_snapshots_to_keep,
                        max_snapshot_age_ms,
                        max_ref_age_ms,
                    },
                },
            })
        }),
{
}

/// Every tag of the table can be removed as a tag and every branch as a branch,
/// and nothing else can. What is removed is the reference of that name.
pub proof fn law_references_are_removed_as_what_they_are(table: TableMetadataView, name: Seq<char>)
    ensures
        ({
            let as_tag = (RefOperationView::RemoveTag { name }).outcome(table);
            let as_branch = (RefOperationView::RemoveBranch { name }).outcome(table);
            &&& as_tag is Ok <==> table.refs.contains_key(name) && table.refs[name].retention is Tag
            &&& as_branch is Ok <==> table.refs.contains_key(name)
                && table.refs[name].retention is Branch
            &&& as_tag is Ok ==> as_tag->Ok_0 == (TableUpdateView::RemoveSnapshotRef {
                ref_name: name,
            })
            &&& as_branch is Ok ==> as_branch->Ok_0 == (TableUpdateView::RemoveSnapshotRef {
                ref_name: name,
            })
        }),
{
}

/// Every branch of the table can be replaced by every snapshot of the table,
/// whether or not it descends from the head, and nothing else can. The branch
/// is then at that snapshot.
pub proof fn law_branches_are_replaced_by_any_snapshot(
    table: TableMetadataView,
    name: Seq<char>,
    snapshot_id: i64,
)
    ensures
        ({
            let outcome = (RefOperationView::ReplaceBranch { name, snapshot_id }).outcome(table);
            &&& outcome is Ok <==> table.snapshots.contains_key(snapshot_id)
                && table.refs.contains_key(name) && table.refs[name].retention is Branch
            &&& outcome is Ok ==> outcome->Ok_0 == (TableUpdateView::SetSnapshotRef {
                ref_name: name,
                reference: SnapshotReference {
                    snapshot_id,
                    retention: table.refs[name].retention,
                },
            })
        }),
{
}

/// A replacement can be undone: on the table after it, replacing the branch by
/// its old head, if that is a snapshot of the table, is accepted and leaves the
/// references as they were.
pub proof fn law_replacement_can_be_undone(
    table: TableMetadataView,
    name: Seq<char>,
    snapshot_id: i64,
)
    requires
        (RefOperationView::ReplaceBranch { name, snapshot_id }).outcome(table) is Ok,
        table.snapshots.contains_key(table.refs[name].snapshot_id),
    ensures
        ({
            let replace = RefOperationView::ReplaceBranch { name, snapshot_id };
            let back = RefOperationView::ReplaceBranch {
                name,
                snapshot_id: table.refs[name].snapshot_id,
            };
            let replaced = (TableMetadataView {
                refs: refs_after_update(table.refs, replace.outcome(table)->Ok_0),
                ..table
            });
            &&& replaced.refs[name].snapshot_id == snapshot_id
            &&& back.outcome(replaced) is Ok
            &&& refs_after_update(replaced.refs, back.outcome(replaced)->Ok_0) == table.refs
        }),
{
    let moved = SnapshotReference { snapshot_id, retention: table.refs[name].retention };
    assert(table.refs.insert(name, moved).insert(name, table.refs[name]) =~= table.refs);
}

/// Whether the snapshots lead from the first of them to the last, each being of
/// the table and the next one being its parent.
pub open spec fn is_chain(table: TableMetadataView, chain: Seq<i64>) -> bool {
    &&& chain.len() > 0
    &&& forall|k: int| 0 <= k < chain.len() ==> table.snapshots.contains_key(#[trigger] chain[k])
    &&& forall|k: int|
        0 <= k < chain.len() - 1 ==> table.snapshots[#[trigger] chain[k]].parent_snapshot_id
            == Some(chain[k + 1])
}

/// A chain is the lineage of its first snapshot.
proof fn lemma_chain_is_lineage(table: TableMetadataView, chain: Seq<i64>, k: nat)
    requires
        is_chain(table, chain),
        k < chain.len(),
    ensures
        table.lineage(chain[0], k) == Some(chain[k as int]),
    decreases k,
{
    if k > 0 {
        lemma_chain_is_lineage(table, chain, (k - 1) as nat);
        assert(table.snapshots[chain[k - 1]].parent_snapshot_id == Some(chain[k - 1 + 1]));
        assert(table.snapshots.contains_key(chain[k as int]));
    } else {
        assert(table.snapshots.contains_key(chain[0]));
    }
}

/// The first `n` steps of a lineage are a chain.
proof fn lemma_lineage_is_chain(table: TableMetadataView, start: i64, n: nat) -> (chain: Seq<i64>)
    requires
        table.lineage(start, n) is Some,
    ensures
        is_chain(table, chain),
        chain.len() == n + 1,
        chain[0] == start,
        chain.last() == table.lineage(start, n)->0,
    decreases n,
{
    let chain = Seq::new(n + 1, |k: int| table.lineage(start, k as nat)->0);
    assert forall|k: int| 0 <= k <= n implies #[trigger] table.lineage(start, k as nat) is Some by {
        if table.lineage(start, k as nat) is None {
            lemma_lineage_ended(table, start, k as nat, n);
        }
    }
    assert forall|k: int| 0 <= k < chain.len() implies table.snapshots.contains_key(
        #[trigger] chain[k],
    ) by {
        lemma_lineage_in_table(table, start, k as nat);
    }
    assert forall|k: int| 0 <= k < chain.len() - 1 implies table.snapshots[
    #[trigger] chain[k]].parent_snapshot_id == Some(chain[k + 1]) by {
        assert(table.lineage(start, (k + 1) as nat) is Some);
        assert(((k + 1) as nat - 1) as nat == k as nat);
    }
    if table.lineage(start, 0) is None {
        lemma_lineage_ended(table, start, 0, n);
    }
    chain
}

/// A branch can be fast-forwarded exactly to those snapshots from which a chain
/// of parents leads back to its head; it is then at the snapshot that was asked
/// for.
pub proof fn law_fast_forward_follows_parents(
    table: TableMetadataView,
    name: Seq<char>,
    to_snapshot_id: i64,
)
    ensures
        ({
            let outcome = (RefOperationView::FastForward { name, to_snapshot_id }).outcome(table);
            &&& outcome is Ok <==> {
                &&& table.refs.contains_key(name)
                &&& table.refs[name].retention is Branch
                &&& exists|chain: Seq<i64>| #[trigger]
                    is_chain(table, chain) && chain[0] == to_snapshot_id && chain.last()
                        == table.refs[name].snapshot_id
            }
            &&& outcome is Ok ==> outcome->Ok_0 == (TableUpdateView::SetSnapshotRef {
                ref_name: name,
                reference: SnapshotReference {
                    snapshot_id: to_snapshot_id,
                    retention: table.refs[name].retention,
                },
            })
        }),
{
    let head = table.refs[name].snapshot_id;
    if table.refs.contains_key(name) && table.refs[name].retention is Branch {
        law_fast_forward_goes_to_descendants(table, name, to_snapshot_id);
        if table.is_ancestor(head, to_snapshot_id) {
            let n = choose|n: nat| #[trigger] table.lineage(to_snapshot_id, n) == Some(head);
            let chain = lemma_lineage_is_chain(table, to_snapshot_id, n);
            assert(is_chain(table, chain));
        }
        if exists|chain: Seq<i64>| #[trigger]
            is_chain(table, chain) && chain[0] == to_snapshot_id && chain.last() == head {
            let chain = choose|chain: Seq<i64>| #[trigger]
                is_chain(table, chain) && chain[0] == to_snapshot_id && chain.last() == head;
            lemma_chain_is_lineage(table, chain, (chain.len() - 1) as nat);
        }
    }
}

/// The reasons for which a fast-forward from one snapshot to another is
/// rejected. A chain of parents leads from the target, without coming to the
/// start, to a snapshot
/// - whose parent the table lacks: the message names that parent;
/// - that has no parent, or that it came to before: the message names the two
///   ends.
pub proof fn law_fast_forward_rejections_say_where_the_history_ends(
    table: TableMetadataView,
    from: i64,
    chain: Seq<i64>,
)
    requires
        is_chain(table, chain),
        forall|k: int| 0 <= k < chain.len() ==> #[trigger] chain[k] != from,
    ensures
        ({
            let end = table.snapshots[chain.last()].parent_snapshot_id;
            let message = fast_forward_rejection(table, from, chain[0]);
            let no_ancestor = "Cannot fast-forward: snapshot "@ + int_text(from as int)
                + " is not an ancestor of "@ + int_text(chain[0] as int);
            &&& end matches Some(parent) ==> !table.snapshots.contains_key(parent) ==> message
                == Some("Parent snapshot "@ + int_text(parent as int) + " not found in history"@)
            &&& end is None ==> message == Some(no_ancestor)
            &&& (exists|i: int|
                0 <= i < chain.len() - 1 && #[trigger] chain[i] == chain.last()) ==> message
                == Some(no_ancestor)
        }),
{
    let start = chain[0];
    let n = (chain.len() - 1) as nat;
    assert forall|k: nat| k <= n implies #[trigger] table.lineage(start, k) == Some(
        chain[k as int],
    ) by {
        lemma_chain_is_lineage(table, chain, k);
    }
    assert(table.lineage(start, 0) == Some(start));
    assert(table.lineage(start, n) == Some(chain.last()));
    assert forall|k: nat| k <= n implies #[trigger] table.lineage(start, k) != Some(from) by {
        assert(chain[k as int] != from);
    }
    let end = table.snapshots[chain.last()].parent_snapshot_id;
    if end is None || !table.snapshots.contains_key(end->0) {
        assert(table.lineage(start, n + 1) is None);
        lemma_lineage_complete(table, from, start, n);
        if let Some(parent) = end {
            assert(table.breaks_at(start, parent));
            let missing = choose|missing: i64| table.breaks_at(start, missing);
            lemma_breaks_at_one(table, start, parent, missing);
        }
    }
    if exists|i: int| 0 <= i < chain.len() - 1 && #[trigger] chain[i] == chain.last() {
        let i = choose|i: int| 0 <= i < chain.len() - 1 && #[trigger] chain[i] == chain.last();
        assert forall|k: nat| #[trigger] table.lineage(start, k) is Some && table.lineage(start, k)
            != Some(from) by {
            let m = lemma_lineage_cycle(table, start, i as nat, n, k);
            assert(table.lineage(start, m) == Some(chain[m as int]));
        }
        assert forall|missing: i64| !table.breaks_at(start, missing) by {
            if table.breaks_at(start, missing) {
                let k = choose|k: nat|
                    {
                        &&& #[trigger] table.lineage(start, k) matches Some(id)
                        &&& table.snapshots[id].parent_snapshot_id == Some(missing)
                        &&& !table.snapshots.contains_key(missing)
                    };
                assert(table.lineage(start, k + 1) is None);
            }
        }
    }
}

/// An operation that is to point a reference to a snapshot that the table lacks
/// is rejected for that, whatever else speaks against it; the message names the
/// snapshot.
pub proof fn law_missing_snapshot_is_named(operation: RefOperationView, table: TableMetadataView)
    ensures
        ({
            let target = match operation {
                RefOperationView::CreateTag { snapshot_id, .. } => Some(snapshot_id),
                RefOperationView::CreateBranch { snapshot_id, .. } => Some(snapshot_id),
                RefOperationView::ReplaceBranch { snapshot_id, .. } => Some(snapshot_id),
                RefOperationView::FastForward { to_snapshot_id, .. } => Some(to_snapshot_id),
                _ => None,
            };
            target matches Some(id) ==> !table.snapshots.contains_key(id) ==> operation.outcome(
                table,
            ) == Err::<TableUpdateView, Seq<char>>(
                "Snapshot with ID "@ + int_text(id as int) + " does not exist in table history"@,
            )
        }),
{
}

/// An operation on an existing tag or branch is rejected if the table has no
/// reference of that name; the message names it. The snapshot that the branch
/// is to be pointed to, if there is one, is of the table.
pub proof fn law_missing_reference_is_named(
    table: TableMetadataView,
    name: Seq<char>,
    snapshot_id: i64,
)
    requires
        !table.refs.contains_key(name),
        table.snapshots.contains_key(snapshot_id),
    ensures
        ({
            let no_branch = Err::<TableUpdateView, Seq<char>>(
                "Branch '"@ + name + "' does not exist"@,
            );
            &&& (RefOperationView::RemoveTag { name }).outcome(table) == Err::<
                TableUpdateView,
                Seq<char>,
            >("Tag '"@ + name + "' does not exist"@)
            &&& (RefOperationView::RemoveBranch { name }).outcome(table) == no_branch
            &&& (RefOperationView::ReplaceBranch { name, snapshot_id }).outcome(table) == no_branch
            &&& (RefOperationView::FastForward { name, to_snapshot_id: snapshot_id }).outcome(table)
                == no_branch
        }),
{
}

/// An operation on a tag is rejected where the reference is a branch, and one
/// on a branch where it is a tag; the message names the reference and says what
/// was to be done with it. The snapshot that the reference is to be pointed to,
/// if there is one, is of the table.
pub proof fn law_wrong_kind_is_named(
    table: TableMetadataView,
    name: Seq<char>,
    snapshot_id: i64,
    max_snapshot_age_ms: Option<i64>,
    min_snapshots_to_keep: Option<i32>,
    max_ref_age_ms: Option<i64>,
)
    requires
        table.refs.contains_key(name),
        table.snapshots.contains_key(snapshot_id),
    ensures
        table.refs[name].retention is Branch ==> {
            &&& (RefOperationView::CreateTag { name, snapshot_id, max_ref_age_ms }).outcome(table)
                == Err::<TableUpdateView, Seq<char>>(
                "Reference '"@ + name + "' already exists as a branch, cannot create tag"@,
            )
            &&& (RefOperationView::RemoveTag { name }).outcome(table) == Err::<
                TableUpdateView,
                Seq<char>,
            >("Reference '"@ + name + "' is not a tag, cannot remove as tag"@)
        },
        table.refs[name].retention is Tag ==> {
            &&& (RefOperationView::CreateBranch {
                name,
                snapshot_id,
                max_snapshot_age_ms,
                min_snapshots_to_keep,
                max_ref_age_ms,
            }).outcome(table) == Err::<TableUpdateView, Seq<char>>(
                "Reference '"@ + name + "' already exists as a tag, cannot create branch"@,
            )
            &&& (RefOperationView::RemoveBranch { name }).outcome(table) == Err::<
                TableUpdateView,
                Seq<char>,
            >("Reference '"@ + name + "' is not a branch, cannot remove as branch"@)
            &&& (RefOperationView::ReplaceBranch { name, snapshot_id }).outcome(table) == Err::<
                TableUpdateView,
                Seq<char>,
            >("Reference '"@ + name + "' is not a branch, cannot replace"@)
            &&& (RefOperationView::FastForward { name, to_snapshot_id: snapshot_id }).outcome(table)
                == Err::<TableUpdateView, Seq<char>>(
                "Reference '"@ + name + "' is not a branch, cannot fast-forward"@,
            )
        },
{
}

/// A branch whose head is not in the history of the snapshot that it is to be
/// fast-forwarded to is left where it is, for the reason that is found there.
pub proof fn law_fast_forward_is_rejected_for_its_reason(
    table: TableMetadataView,
    name: Seq<char>,
    to_snapshot_id: i64,
)
    requires
        table.refs.contains_key(name),
        table.refs[name].retention is Branch,
        table.snapshots.contains_key(to_snapshot_id),
    ensures
        ({
            let outcome = (RefOperationView::FastForward { name, to_snapshot_id }).outcome(table);
            fast_forward_rejection(table, table.refs[name].snapshot_id, to_snapshot_id) matches Some(
                message,
            ) ==> outcome == Err::<TableUpdateView, Seq<char>>(message)
        }),
{
}

/// What an accepted action asks for is one update for each of its operations,
/// in the same order, each the one that the operation by itself asks for, and
/// that the table is the one that it was made for.
pub proof fn law_commit_answers_each_operation(
    operations: Seq<RefOperationView>,
    table: TableMetadataView,
    i: int,
)
    requires
        all_accepted(operations, table),
        0 <= i < operations.len(),
    ensures
        operations[i].outcome(table) is Ok,
        accepted_commit(operations, table).updates.len() == operations.len(),
        accepted_commit(operations, table).updates[i] == operations[i].outcome(table)->Ok_0,
        accepted_commit(operations, table).updates[i] == accepted_commit(
            seq![operations[i]],
            table,
        ).updates[0],
        accepted_commit(operations, table).requirements == seq![
            TableRequirementView::UuidMatch { uuid: table.uuid },
        ],
{
}

/// An action is accepted if each of its operations is, and an operation that is
/// the first one rejected is rejected indeed.
pub proof fn law_operations_decide_together(
    operations: Seq<RefOperationView>,
    table: TableMetadataView,
    i: int,
)
    ensures
        (forall|k: int| 0 <= k < operations.len() ==> (#[trigger] operations[k]).outcome(table) is Ok)
            ==> all_accepted(operations, table),
        first_rejected(operations, table, i) ==> 0 <= i < operations.len()
            && operations[i].outcome(table) is Err && all_accepted(operations.take(i), table),
{
    if first_rejected(operations, table, i) {
        assert forall|k: int| 0 <= k < i implies (#[trigger] operations.take(i)[k]).outcome(
            table,
        ) is Ok by {
            assert(operations.take(i)[k] == operations[k]);
        }
    }
}

/// A branch is fast-forwarded exactly to the descendants of its head.
pub proof fn law_fast_forward_goes_to_descendants(
    table: TableMetadataView,
    name: Seq<char>,
    to_snapshot_id: i64,
)
    requires
        table.refs.contains_key(name),
        table.refs[name].retention is Branch,
    ensures
        (RefOperationView::FastForward { name, to_snapshot_id }).outcome(table) is Ok
            <==> table.is_ancestor(table.refs[name].snapshot_id, to_snapshot_id),
{
    let head = table.refs[name].snapshot_id;
    if table.is_ancestor(head, to_snapshot_id) {
        let n = choose|n: nat| #[trigger] table.lineage(to_snapshot_id, n) == Some(head);
        if !table.snapshots.contains_key(to_snapshot_id) {
            lemma_lineage_ended(table, to_snapshot_id, 0, n);
        }
    }
}

/// Fast-forwarding a branch to its head is accepted and changes nothing.
pub proof fn law_fast_forward_to_head_changes_nothing(table: TableMetadataView, name: Seq<char>)
    requires
        table.refs.contains_key(name),
        table.refs[name].retention is Branch,
        table.snapshots.contains_key(table.refs[name].snapshot_id),
    ensures
        ({
            let operation = (RefOperationView::FastForward {
                name,
                to_snapshot_id: table.refs[name].snapshot_id,
            });
            &&& operation.outcome(table) is Ok
            &&& refs_after_update(table.refs, operation.outcome(table)->Ok_0) == table.refs
        }),
{
    let head = table.refs[name].snapshot_id;
    assert(table.lineage(head, 0) == Some(head));
    law_fast_forward_goes_to_descendants(table, name, head);
    assert(table.refs.insert(name, table.refs[name]) =~= table.refs);
}

/// Where a branch can be fast-forwarded to a snapshot, and from there to
/// another, it can be fast-forwarded to the other at once.
pub proof fn law_fast_forwards_compose(table: TableMetadataView, from: i64, via: i64, to: i64)
    requires
        fast_forward_rejection(table, from, via) is None,
        fast_forward_rejection(table, via, to) is None,
    ensures
        fast_forward_rejection(table, from, to) is None,
{
    lemma_ancestor_transitive(table, from, via, to);
}

/// Both ends of an accepted fast-forward are snapshots of the table.
pub proof fn law_fast_forward_has_both_ends_in_table(table: TableMetadataView, from: i64, to: i64)
    requires
        fast_forward_rejection(table, from, to) is None,
    ensures
        table.snapshots.contains_key(from),
        table.snapshots.contains_key(to),
{
    let n = choose|n: nat| #[trigger] table.lineage(to, n) == Some(from);
    lemma_lineage_in_table(table, to, n);
}

/// Where no snapshot is its own ancestor but by itself, two different snapshots
/// cannot be fast-forwarded to each other. With composition and the step from a
/// head to itself, fast-forwarding is thus a partial order on the snapshots.
pub proof fn law_fast_forward_goes_one_way(table: TableMetadataView, a: i64, b: i64)
    requires
        table.acyclic(),
        a != b,
        fast_forward_rejection(table, a, b) is None,
    ensures
        fast_forward_rejection(table, b, a) is Some,
{
    if table.is_ancestor(b, a) {
        let n = choose|n: nat| #[trigger] table.lineage(b, n) == Some(a);
        let m = choose|m: nat| #[trigger] table.lineage(a, m) == Some(b);
        lemma_lineage_continues(table, b, n, m);
        assert(n > 0);
        assert(table.lineage(b, n + m) == Some(b));
    }
}

/// Every snapshot of the table can be fast-forwarded to itself.
pub proof fn law_fast_forward_to_itself(table: TableMetadataView, id: i64)
    requires
        table.snapshots.contains_key(id),
    ensures
        fast_forward_rejection(table, id, id) is None,
{
    assert(table.lineage(id, 0) == Some(id));
}

/// Whether a fast-forward is accepted, and with which message it is not,
/// depends on nothing but the ids of the table's snapshots and of their
/// parents.
pub proof fn law_fast_forward_depends_on_history_only(
    table: TableMetadataView,
    other: TableMetadataView,
    from: i64,
    to: i64,
)
    requires
        table.same_history(other),
    ensures
        fast_forward_rejection(table, from, to) == fast_forward_rejection(other, from, to),
{
    assert forall|n: nat| #[trigger] table.lineage(to, n) == other.lineage(to, n) by {
        lemma_lineage_of_same_history(table, other, to, n);
    }
    if table.is_ancestor(from, to) {
        let n = choose|n: nat| #[trigger] table.lineage(to, n) == Some(from);
        assert(other.lineage(to, n) == Some(from));
    }
    if other.is_ancestor(from, to) {
        let n = choose|n: nat| #[trigger] other.lineage(to, n) == Some(from);
        assert(table.lineage(to, n) == Some(from));
    }
    assert forall|missing: i64| #[trigger]
        table.breaks_at(to, missing) <==> other.breaks_at(to, missing) by {
        if table.breaks_at(to, missing) {
            lemma_breaks_of_same_history(table, other, to, missing);
        }
        if other.breaks_at(to, missing) {
            lemma_breaks_of_same_history(other, table, to, missing);
        }
    }
    if exists|missing: i64| table.breaks_at(to, missing) {
        let a = choose|missing: i64| table.breaks_at(to, missing);
        assert(other.breaks_at(to, a));
        let b = choose|missing: i64| other.breaks_at(to, missing);
        lemma_breaks_at_one(other, to, a, b);
    } else if exists|missing: i64| other.breaks_at(to, missing) {
        let b = choose|missing: i64| other.breaks_at(to, missing);
        assert(table.breaks_at(to, b));
    }
}

/// Where a branch can be fast-forwarded, replacing it asks for the same update.
pub proof fn law_fast_forward_is_a_replacement(
    table: TableMetadataView,
    name: Seq<char>,
    snapshot_id: i64,
)
    requires
        (RefOperationView::FastForward { name, to_snapshot_id: snapshot_id }).outcome(table) is Ok,
    ensures
        (RefOperationView::ReplaceBranch { name, snapshot_id }).outcome(table)
            == (RefOperationView::FastForward { name, to_snapshot_id: snapshot_id }).outcome(table),
{
}

/// Removing a tag or branch undoes its creation: on the table on which it was
/// created, removing it is accepted and leaves the references as they were.
pub proof fn law_removal_undoes_creation(
    table: TableMetadataView,
    create: RefOperationView,
    remove: RefOperationView,
)
    requires
        create.outcome(table) is Ok,
        !table.refs.contains_key(create.name()),
        create is CreateTag && remove is RemoveTag || create is CreateBranch
            && remove is RemoveBranch,
        remove.name() == create.name(),
    ensures
        ({
            let created = (TableMetadataView {
                refs: refs_after_update(table.refs, create.outcome(table)->Ok_0),
                ..table
            });
            &&& remove.outcome(created) is Ok
            &&& refs_after_update(created.refs, remove.outcome(created)->Ok_0) == table.refs
        }),
{
    let created = refs_after_update(table.refs, create.outcome(table)->Ok_0);
    assert(created.remove(create.name()) =~= table.refs);
}

/// Creating a tag or branch a second time is accepted and changes nothing.
pub proof fn law_creation_is_idempotent(table: TableMetadataView, create: RefOperationView)
    requires
        create.outcome(table) is Ok,
        create is CreateTag || create is CreateBranch,
    ensures
        ({
            let created = (TableMetadataView {
                refs: refs_after_update(table.refs, create.outcome(table)->Ok_0),
                ..table
            });
            &&& create.outcome(created) is Ok
            &&& refs_after_update(created.refs, create.outcome(created)->Ok_0) == created.refs
        }),
{
    let once = refs_after_update(table.refs, create.outcome(table)->Ok_0);
    let twice = refs_after_update(once, create.outcome(table)->Ok_0);
    assert(twice =~= once);
}

} // verus!
