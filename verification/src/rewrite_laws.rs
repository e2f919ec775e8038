//! What holds of every action that rewrites files.

use vstd::prelude::*;

use crate::data_file::{
    file_paths, law_partitions_are_those_of_the_files, law_paths_are_those_of_the_files,
    partitions_of, paths_of, DataContentType, DataFile, LiteralView,
};
use crate::error::{data_invalid, ErrorKind};
use crate::ids::{hex_char, hex_text, uuid_text, Uuid};
use crate::manifest::{
    has_file, live_paths, ManifestContentType, ManifestEntry, ManifestFile, ManifestStatus,
};
use crate::metadata::TableMetadataView;
use crate::producer::{SnapshotProducer, WrittenSnapshot};
use crate::refs::MAIN_BRANCH;
use crate::rewrite::{
    file_rejection, files_rejection, first_rejected_file, law_accepted_files_fit_the_table,
    prepares, RewriteFilesView,
};
use crate::rewrite_operation::{
    manifest_path, requests_manifest, ManifestPlan, ManifestStep, ManifestWriteRequest, Removal,
    RewriteOperation, RewriteOperationView, StepView,
};
use crate::snapshot::Operation;
use crate::text::int_text;
use crate::update::{refs_after, TableRequirementView};
use crate::validator::{
    law_files_to_remove_must_exist, law_no_file_may_be_added_to_affected_partitions,
};

verus! {

/// The position in the rewritten manifest of the entry at position `i`, which
/// is of a file that is part of the table.
proof fn lemma_rewritten_position(removal: Removal, entries: Seq<ManifestEntry>, i: int) -> (r: int)
    requires
        0 <= i < entries.len(),
        entries[i].alive(),
    ensures
        0 <= r < removal.rewritten(entries).len(),
        removal.rewritten(entries)[r] == removal.mark(entries[i]),
    decreases entries.len(),
{
    reveal(Seq::filter);
    let rest = entries.drop_last();
    if i == entries.len() - 1 {
        removal.rewritten(entries).len() - 1
    } else {
        assert(rest[i] == entries[i]);
        let r = lemma_rewritten_position(removal, rest, i);
        assert(removal.rewritten(entries)[r] == removal.rewritten(rest)[r]);
        r
    }
}

/// The position in the manifest of the entry that stands at position `k` of
/// the rewritten one.
proof fn lemma_rewritten_origin(removal: Removal, entries: Seq<ManifestEntry>, k: int) -> (r: int)
    requires
        0 <= k < removal.rewritten(entries).len(),
    ensures
        0 <= r < entries.len(),
        entries[r].alive(),
        removal.rewritten(entries)[k] == removal.mark(entries[r]),
    decreases entries.len(),
{
    reveal(Seq::filter);
    let rest = entries.drop_last();
    if entries.last().alive() && k == removal.rewritten(entries).len() - 1 {
        entries.len() - 1
    } else {
        assert(removal.rewritten(entries)[k] == removal.rewritten(rest)[k]);
        let r = lemma_rewritten_origin(removal, rest, k);
        assert(rest[r] == entries[r]);
        r
    }
}

/// In a rewritten manifest no file to remove is part of the table.
pub proof fn law_removed_files_are_gone(removal: Removal, entries: Seq<ManifestEntry>, k: int)
    requires
        0 <= k < removal.rewritten(entries).len(),
        removal.rewritten(entries)[k].alive(),
    ensures
        !removal.paths.contains(removal.rewritten(entries)[k].data_file.file_path@),
{
    let i = lemma_rewritten_origin(removal, entries, k);
}

/// A rewritten manifest still has the entries of all files that are not
/// removed, unchanged.
pub proof fn law_other_files_stay(removal: Removal, entries: Seq<ManifestEntry>, i: int)
    requires
        0 <= i < entries.len(),
        entries[i].alive(),
        !removal.paths.contains(entries[i].data_file.file_path@),
    ensures
        removal.rewritten(entries).contains(entries[i]),
{
    let k = lemma_rewritten_position(removal, entries, i);
}

/// A rewritten manifest records the removal of each file: its entry stays, as
/// one of a deleted file, with the same sequence numbers.
pub proof fn law_removals_are_recorded(removal: Removal, entries: Seq<ManifestEntry>, i: int)
    requires
        0 <= i < entries.len(),
        removal.removes(entries[i]),
    ensures
        exists|k: int|
            {
                &&& 0 <= k < removal.rewritten(entries).len()
                &&& (#[trigger] removal.rewritten(entries)[k]).status == ManifestStatus::Deleted
                &&& removal.rewritten(entries)[k].snapshot_id is Some
                &&& removal.rewritten(entries)[k].data_file == entries[i].data_file
                &&& removal.rewritten(entries)[k].sequence_number == entries[i].sequence_number
                &&& removal.rewritten(entries)[k].file_sequence_number
                    == entries[i].file_sequence_number
            },
{
    let k = lemma_rewritten_position(removal, entries, i);
    assert(removal.rewritten(entries)[k].status == ManifestStatus::Deleted);
}

/// A manifest is never rewritten into an empty one.
pub proof fn law_rewritten_manifest_is_not_empty(removal: Removal, entries: Seq<ManifestEntry>)
    requires
        removal.affects(entries),
    ensures
        removal.rewritten(entries).len() > 0,
{
    let i = choose|i: int| 0 <= i < entries.len() && removal.removes(#[trigger] entries[i]);
    let k = lemma_rewritten_position(removal, entries, i);
}

/// A second removal of the same files finds nothing left to remove.
pub proof fn law_removal_is_idempotent(removal: Removal, entries: Seq<ManifestEntry>)
    ensures
        !removal.affects(removal.rewritten(entries)),
{
    let rewritten = removal.rewritten(entries);
    if removal.affects(rewritten) {
        let k = choose|k: int| 0 <= k < rewritten.len() && removal.removes(#[trigger] rewritten[k]);
        law_removed_files_are_gone(removal, entries, k);
    }
}

/// The entries that a manifest contributes to the new snapshot: those of the
/// rewritten one, its own, or none if it is left out.
pub open spec fn entries_after(
    removal: Removal,
    manifest: ManifestFile,
    entries: Seq<ManifestEntry>,
) -> Seq<ManifestEntry> {
    match removal.plan(manifest, entries) {
        ManifestPlan::Rewrite { entries } => entries,
        ManifestPlan::Keep => entries,
        ManifestPlan::Drop => seq![],
    }
}

/// Of each manifest, the new snapshot has exactly the files that are not to be
/// removed. The manifest says truly that it may have files if it has some.
pub proof fn law_exactly_the_named_files_are_removed(
    removal: Removal,
    manifest: ManifestFile,
    entries: Seq<ManifestEntry>,
    path: Seq<char>,
)
    requires
        manifest.has_added_files || manifest.has_existing_files || forall|i: int|
            0 <= i < entries.len() ==> !(#[trigger] entries[i]).alive(),
    ensures
        has_file(entries_after(removal, manifest, entries), path) <==> has_file(entries, path)
            && !removal.paths.contains(path),
{
    let after = entries_after(removal, manifest, entries);
    if has_file(after, path) {
        let k = choose|k: int|
            {
                &&& 0 <= k < after.len()
                &&& (#[trigger] after[k]).alive()
                &&& after[k].data_file.file_path@ == path
            };
        if removal.affects(entries) {
            let i = lemma_rewritten_origin(removal, entries, k);
            assert(entries[i].data_file.file_path@ == path);
        } else {
            assert(!removal.removes(entries[k]));
        }
    }
    if has_file(entries, path) && !removal.paths.contains(path) {
        let i = choose|i: int|
            {
                &&& 0 <= i < entries.len()
                &&& (#[trigger] entries[i]).alive()
                &&& entries[i].data_file.file_path@ == path
            };
        if removal.affects(entries) {
            let k = lemma_rewritten_position(removal, entries, i);
            assert(after[k].alive());
        } else {
            assert(after[i].alive());
        }
    }
}

/// Whether a file with the given path is part of the snapshot whose manifests
/// have these entries.
pub open spec fn snapshot_has_file(loads: Seq<Seq<ManifestEntry>>, path: Seq<char>) -> bool {
    exists|i: int| 0 <= i < loads.len() && has_file(#[trigger] loads[i], path)
}

/// The entries that the manifests of the current snapshot contribute to the
/// new one, manifest by manifest.
pub open spec fn loads_after(
    removal: Removal,
    manifests: Seq<ManifestFile>,
    loads: Seq<Seq<ManifestEntry>>,
) -> Seq<Seq<ManifestEntry>> {
    Seq::new(manifests.len(), |i: int| entries_after(removal, manifests[i], loads[i]))
}

/// Of the files of the current snapshot, the new one has exactly those that are
/// not to be removed. The manifests say truly that they may have files if they
/// have some.
pub proof fn law_snapshot_loses_exactly_the_named_files(
    removal: Removal,
    manifests: Seq<ManifestFile>,
    loads: Seq<Seq<ManifestEntry>>,
    path: Seq<char>,
)
    requires
        loads.len() == manifests.len(),
        forall|i: int|
            0 <= i < manifests.len() ==> (#[trigger] manifests[i]).has_added_files
                || manifests[i].has_existing_files || forall|k: int|
                0 <= k < loads[i].len() ==> !(#[trigger] loads[i][k]).alive(),
    ensures
        snapshot_has_file(loads_after(removal, manifests, loads), path) <==> snapshot_has_file(
            loads,
            path,
        ) && !removal.paths.contains(path),
{
    let after = loads_after(removal, manifests, loads);
    assert forall|i: int| 0 <= i < manifests.len() implies (has_file(#[trigger] after[i], path)
        <==> has_file(loads[i], path) && !removal.paths.contains(path)) by {
        assert(manifests[i].has_added_files || manifests[i].has_existing_files || forall|k: int|
            0 <= k < loads[i].len() ==> !(#[trigger] loads[i][k]).alive());
        law_exactly_the_named_files_are_removed(removal, manifests[i], loads[i], path);
    }
    if snapshot_has_file(after, path) {
        let i = choose|i: int| 0 <= i < after.len() && has_file(#[trigger] after[i], path);
        assert(has_file(loads[i], path));
    }
    if snapshot_has_file(loads, path) && !removal.paths.contains(path) {
        let i = choose|i: int| 0 <= i < loads.len() && has_file(#[trigger] loads[i], path);
        assert(has_file(after[i], path));
    }
}

/// The path of a file is among the paths of the files.
proof fn lemma_path_of_file(files: Seq<DataFile>, i: int)
    requires
        0 <= i < files.len(),
    ensures
        file_paths(files).contains(files[i].file_path@),
        paths_of(files).contains(files[i].file_path@),
{
    assert(file_paths(files)[i] == files[i].file_path@);
}

/// No file that an action is to remove is left over from the current snapshot,
/// whatever the manifests say of themselves.
pub proof fn law_files_to_delete_leave_the_snapshot(
    action: RewriteFilesView,
    snapshot_id: i64,
    base: Option<Set<Seq<char>>>,
    manifests: Seq<ManifestFile>,
    loads: Seq<Seq<ManifestEntry>>,
    i: int,
)
    requires
        loads.len() == manifests.len(),
        0 <= i < action.files_to_delete.len(),
    ensures
        !snapshot_has_file(
            loads_after(action.operation().removal(snapshot_id, base), manifests, loads),
            action.files_to_delete[i].file_path@,
        ),
{
    let removal = action.operation().removal(snapshot_id, base);
    let path = action.files_to_delete[i].file_path@;
    lemma_path_of_file(action.files_to_delete, i);
    let after = loads_after(removal, manifests, loads);
    if snapshot_has_file(after, path) {
        let m = choose|m: int| 0 <= m < after.len() && has_file(#[trigger] after[m], path);
        let k = choose|k: int|
            {
                &&& 0 <= k < after[m].len()
                &&& (#[trigger] after[m][k]).alive()
                &&& after[m][k].data_file.file_path@ == path
            };
        if removal.affects(loads[m]) {
            law_removed_files_are_gone(removal, loads[m], k);
        } else {
            assert(removal.removes(loads[m][k]));
        }
    }
}

/// The commit of a rewrite moves the main branch to the new snapshot and leaves
/// every other reference as it is.
pub proof fn law_commit_moves_only_the_main_branch(
    producer: SnapshotProducer,
    table: TableMetadataView,
    operation: Operation,
    written: WrittenSnapshot,
    name: Seq<char>,
)
    ensures
        ({
            let after = refs_after(
                table.refs,
                producer.committed(table, operation, written).updates,
            );
            &&& after.contains_key(MAIN_BRANCH@)
            &&& after[MAIN_BRANCH@].snapshot_id == written.snapshot_id
            &&& name != MAIN_BRANCH@ ==> (after.contains_key(name) <==> table.refs.contains_key(
                name,
            ))
            &&& name != MAIN_BRANCH@ && table.refs.contains_key(name) ==> after[name]
                == table.refs[name]
        }),
{
    let updates = producer.committed(table, operation, written).updates;
    reveal_with_fuel(refs_after, 3);
    assert(updates.drop_last().drop_last() =~= seq![]);
    assert(updates.drop_last().last() == updates[0]);
}

/// The manifests of the new snapshot, from those of the current one, their
/// entries, and the manifests that are written in place of those that are
/// rewritten: for each in order the one written in its place, itself, or none.
pub open spec fn surviving_manifests(
    removal: Removal,
    manifests: Seq<ManifestFile>,
    loads: Seq<Seq<ManifestEntry>>,
    writes: Seq<ManifestFile>,
) -> Seq<ManifestFile>
    decreases manifests.len(),
{
    if manifests.len() == 0 {
        seq![]
    } else {
        let first = match removal.plan(manifests[0], loads[0]) {
            ManifestPlan::Rewrite { .. } => seq![writes[0]],
            ManifestPlan::Keep => seq![manifests[0]],
            ManifestPlan::Drop => seq![],
        };
        first + surviving_manifests(removal, manifests.skip(1), loads.skip(1), writes.skip(1))
    }
}

/// The last step, when every step is answered: the manifests still to come have
/// the entries `loads`, and `writes` are the manifests that are written in
/// their places, where one is.
pub open spec fn answered(
    step: StepView,
    loads: Seq<Seq<ManifestEntry>>,
    writes: Seq<ManifestFile>,
) -> StepView
    decreases loads.len(),
{
    match step {
        StepView::LoadManifest {
            removal,
            manifest,
            pending,
            collected,
            found,
        } if loads.len() > 0 => {
            let loaded = StepView::after_load(
                removal,
                manifest,
                pending,
                collected,
                found,
                loads[0],
            );
            let next = match loaded {
                StepView::WriteManifest {
                    removal,
                    pending,
                    collected,
                    found,
                    ..
                } => StepView::next(removal, pending, collected.push(writes[0]), found),
                _ => loaded,
            };
            answered(next, loads.skip(1), writes.skip(1))
        },
        _ => step,
    }
}

/// The step after every manifest of the snapshot that the action started from
/// is loaded: those still to come have the entries `loads`.
pub open spec fn base_answered(step: StepView, loads: Seq<Seq<ManifestEntry>>) -> StepView
    decreases loads.len(),
{
    match step {
        StepView::LoadBaseManifest {
            removal,
            pending,
            base,
            manifest_list,
            ..
        } if loads.len() > 0 => base_answered(
            StepView::next_base(
                removal,
                pending,
                base.union(live_paths(loads[0])),
                manifest_list,
            ),
            loads.skip(1),
        ),
        _ => step,
    }
}

/// What the steps of an operation are answered with.
pub struct Answers {
    /// The manifests of the snapshot that the action started from.
    pub base_manifests: Seq<ManifestFile>,
    /// The entries of each of these.
    pub base_loads: Seq<Seq<ManifestEntry>>,
    /// The manifests of the current snapshot.
    pub manifests: Seq<ManifestFile>,
    /// The entries of each of these.
    pub loads: Seq<Seq<ManifestEntry>>,
    /// The manifests that are written in the places of these, where one is.
    pub writes: Seq<ManifestFile>,
}

impl Answers {
    /// Whether there is an answer for each manifest. A table without a current
    /// snapshot has no manifests.
    pub open spec fn complete(self, table: TableMetadataView) -> bool {
        &&& self.base_loads.len() == self.base_manifests.len()
        &&& self.loads.len() == self.manifests.len()
        &&& self.writes.len() == self.manifests.len()
        &&& table.current_snapshot() is None ==> self.manifests.len() == 0
    }
}

/// The last step of an operation on a table, when every step is answered.
pub open spec fn last_step(
    operation: RewriteOperationView,
    table: TableMetadataView,
    answers: Answers,
) -> StepView {
    let first = match StepView::first(operation, table) {
        StepView::LoadBaseManifestList { removal, manifest_list, .. } => base_answered(
            StepView::next_base(removal, answers.base_manifests, Set::empty(), manifest_list),
            answers.base_loads,
        ),
        step => step,
    };
    match first {
        StepView::LoadManifestList { removal, .. } => answered(
            StepView::next(removal, answers.manifests, seq![], Set::empty()),
            answers.loads,
            answers.writes,
        ),
        step => step,
    }
}

/// The paths of the files of the snapshot whose manifests have these entries.
pub open spec fn snapshot_paths(loads: Seq<Seq<ManifestEntry>>) -> Set<Seq<char>> {
    Set::new(|path: Seq<char>| snapshot_has_file(loads, path))
}

/// The message of the conflict over files that were added to affected
/// partitions, of the first manifest that has one.
pub open spec fn added_in(removal: Removal, loads: Seq<Seq<ManifestEntry>>) -> Option<Seq<char>>
    decreases loads.len(),
{
    if loads.len() == 0 {
        None
    } else {
        match removal.partition_conflict(loads[0]) {
            Some(message) => Some(message),
            None => added_in(removal, loads.skip(1)),
        }
    }
}

/// There is such a message exactly if one of the manifests has one.
proof fn lemma_added_in(removal: Removal, loads: Seq<Seq<ManifestEntry>>)
    ensures
        added_in(removal, loads) is Some <==> exists|i: int|
            0 <= i < loads.len() && removal.partition_conflict(#[trigger] loads[i]) is Some,
    decreases loads.len(),
{
    if loads.len() > 0 {
        let rest = loads.skip(1);
        lemma_added_in(removal, rest);
        if exists|i: int|
            0 <= i < rest.len() && removal.partition_conflict(#[trigger] rest[i]) is Some {
            let i = choose|i: int|
                0 <= i < rest.len() && removal.partition_conflict(#[trigger] rest[i]) is Some;
            assert(loads[i + 1] == rest[i]);
        }
        if exists|i: int|
            0 <= i < loads.len() && removal.partition_conflict(#[trigger] loads[i]) is Some {
            let i = choose|i: int|
                0 <= i < loads.len() && removal.partition_conflict(#[trigger] loads[i]) is Some;
            if i > 0 {
                assert(rest[i - 1] == loads[i]);
            }
        }
    }
}

/// The paths of the files to remove that are part of the snapshot whose
/// manifests have these entries.
pub open spec fn found_in(removal: Removal, loads: Seq<Seq<ManifestEntry>>) -> Set<Seq<char>> {
    removal.paths.filter(|path: Seq<char>| snapshot_has_file(loads, path))
}

/// A file of a snapshot is in its first manifest or in a later one.
proof fn lemma_first_manifest(loads: Seq<Seq<ManifestEntry>>, path: Seq<char>)
    requires
        loads.len() > 0,
    ensures
        snapshot_has_file(loads, path) == (has_file(loads[0], path) || snapshot_has_file(
            loads.skip(1),
            path,
        )),
{
    let rest = loads.skip(1);
    if snapshot_has_file(loads, path) {
        let i = choose|i: int| 0 <= i < loads.len() && has_file(#[trigger] loads[i], path);
        if i > 0 {
            assert(rest[i - 1] == loads[i]);
        }
    }
    if snapshot_has_file(rest, path) {
        let i = choose|i: int| 0 <= i < rest.len() && has_file(#[trigger] rest[i], path);
        assert(loads[i + 1] == rest[i]);
    }
}

proof fn lemma_answered(
    removal: Removal,
    pending: Seq<ManifestFile>,
    collected: Seq<ManifestFile>,
    found: Set<Seq<char>>,
    loads: Seq<Seq<ManifestEntry>>,
    writes: Seq<ManifestFile>,
)
    requires
        loads.len() == pending.len(),
        writes.len() == pending.len(),
    ensures
        answered(StepView::next(removal, pending, collected, found), loads, writes)
            == match added_in(removal, loads) {
            Some(message) => StepView::Refused { error: data_invalid(message) },
            None => StepView::finish(
                removal.validator,
                collected + surviving_manifests(removal, pending, loads, writes),
                found.union(found_in(removal, loads)),
            ),
        },
    decreases pending.len(),
{
    if pending.len() == 0 {
        assert(collected + surviving_manifests(removal, pending, loads, writes) =~= collected);
        assert(found.union(found_in(removal, loads)) =~= found);
    } else {
        if let Some(message) = removal.partition_conflict(loads[0]) {
            let refused = StepView::Refused { error: data_invalid(message) };
            assert(answered(refused, loads.skip(1), writes.skip(1)) == refused);
        }
        let more = match removal.plan(pending[0], loads[0]) {
            ManifestPlan::Rewrite { .. } => collected.push(writes[0]),
            ManifestPlan::Keep => collected.push(pending[0]),
            ManifestPlan::Drop => collected,
        };
        let now_found = found.union(removal.found(loads[0]));
        lemma_answered(removal, pending.skip(1), more, now_found, loads.skip(1), writes.skip(1));
        assert(more + surviving_manifests(
            removal,
            pending.skip(1),
            loads.skip(1),
            writes.skip(1),
        ) =~= collected + surviving_manifests(removal, pending, loads, writes));
        assert forall|path: Seq<char>| #[trigger]
            snapshot_has_file(loads, path) == (has_file(loads[0], path) || snapshot_has_file(
                loads.skip(1),
                path,
            )) by {
            lemma_first_manifest(loads, path);
        }
        assert(now_found.union(found_in(removal, loads.skip(1))) =~= found.union(
            found_in(removal, loads),
        ));
    }
}

proof fn lemma_base_answered(
    removal: Removal,
    pending: Seq<ManifestFile>,
    base: Set<Seq<char>>,
    manifest_list: Seq<char>,
    loads: Seq<Seq<ManifestEntry>>,
)
    requires
        loads.len() == pending.len(),
    ensures
        base_answered(StepView::next_base(removal, pending, base, manifest_list), loads)
            == (StepView::LoadManifestList {
            removal: Removal { base: Some(base.union(snapshot_paths(loads))), ..removal },
            manifest_list,
        }),
    decreases pending.len(),
{
    if pending.len() == 0 {
        assert(base.union(snapshot_paths(loads)) =~= base);
    } else {
        let more = base.union(live_paths(loads[0]));
        lemma_base_answered(removal, pending.skip(1), more, manifest_list, loads.skip(1));
        assert forall|path: Seq<char>| #[trigger]
            snapshot_has_file(loads, path) == (has_file(loads[0], path) || snapshot_has_file(
                loads.skip(1),
                path,
            )) by {
            lemma_first_manifest(loads, path);
        }
        assert(more.union(snapshot_paths(loads.skip(1))) =~= base.union(snapshot_paths(loads)));
    }
}

/// When every step is answered, what comes out are the surviving manifests, in
/// order; unless a file was added to an affected partition, or a conflict is
/// found with a current snapshot that has those files to remove that are in its
/// manifests.
pub proof fn law_steps_lead_to_surviving_manifests(
    removal: Removal,
    manifests: Seq<ManifestFile>,
    loads: Seq<Seq<ManifestEntry>>,
    writes: Seq<ManifestFile>,
)
    requires
        loads.len() == manifests.len(),
        writes.len() == manifests.len(),
    ensures
        answered(StepView::next(removal, manifests, seq![], Set::empty()), loads, writes)
            == match added_in(removal, loads) {
            Some(message) => StepView::Refused { error: data_invalid(message) },
            None => StepView::finish(
                removal.validator,
                surviving_manifests(removal, manifests, loads, writes),
                found_in(removal, loads),
            ),
        },
{
    lemma_answered(removal, manifests, seq![], Set::empty(), loads, writes);
    assert(seq![] + surviving_manifests(removal, manifests, loads, writes)
        =~= surviving_manifests(removal, manifests, loads, writes));
    assert(Set::empty().union(found_in(removal, loads)) =~= found_in(removal, loads));
}

/// Whether a file that the action is to remove is not part of the current
/// snapshot.
pub open spec fn file_is_missing(action: RewriteFilesView, answers: Answers) -> bool {
    exists|i: int|
        0 <= i < action.files_to_delete.len() && !snapshot_has_file(
            answers.loads,
            (#[trigger] action.files_to_delete[i]).file_path@,
        )
}

/// Whether entry `k` of manifest `m` of the current snapshot is of a file in a
/// partition of the files to remove that was not part of the snapshot that the
/// action started from.
pub open spec fn is_added(action: RewriteFilesView, answers: Answers, m: int, k: int) -> bool {
    let entry = answers.loads[m][k];
    &&& 0 <= m < answers.loads.len()
    &&& 0 <= k < answers.loads[m].len()
    &&& entry.alive()
    &&& partitions_of(action.files_to_delete).contains(entry.data_file.partition@)
    &&& !snapshot_has_file(answers.base_loads, entry.data_file.file_path@)
}

/// Whether there is such a file.
pub open spec fn file_is_added(action: RewriteFilesView, answers: Answers) -> bool {
    exists|m: int, k: int| #[trigger] is_added(action, answers, m, k)
}

/// Whether the files of the current snapshot of the table are compared with
/// those of the snapshot that the action validates from: the table has both, and
/// they differ.
pub open spec fn compares_snapshots(action: RewriteFilesView, table: TableMetadataView) -> bool {
    match (action.validate_from_snapshot_id, table.current_snapshot()) {
        (Some(base_id), Some(current)) => table.snapshots.contains_key(base_id) && base_id
            != current.snapshot_id,
        _ => false,
    }
}

/// The manifests have a conflict over affected partitions exactly if a file was
/// added to one of them.
proof fn lemma_added_exactly(
    action: RewriteFilesView,
    removal: Removal,
    answers: Answers,
)
    requires
        action.validate_from_snapshot_id is Some,
        removal.validator == action.validator(),
        removal.base == Some(snapshot_paths(answers.base_loads)),
    ensures
        added_in(removal, answers.loads) is Some <==> file_is_added(action, answers),
{
    let validator = action.validator()->0;
    let base = snapshot_paths(answers.base_loads);
    lemma_added_in(removal, answers.loads);
    assert forall|m: int, k: int|
        0 <= m < answers.loads.len() && 0 <= k
            < answers.loads[m].len() implies #[trigger] is_added(action, answers, m, k)
        == validator.adds(base, answers.loads[m][k]) by {}
    if added_in(removal, answers.loads) is Some {
        let m = choose|m: int|
            0 <= m < answers.loads.len() && removal.partition_conflict(
                #[trigger] answers.loads[m],
            ) is Some;
        let entries = answers.loads[m];
        law_no_file_may_be_added_to_affected_partitions(validator, base, entries);
        let k = choose|k: int| 0 <= k < entries.len() && validator.adds(base, #[trigger] entries[k]);
        assert(is_added(action, answers, m, k));
    }
    if file_is_added(action, answers) {
        let (m, k) = choose|m: int, k: int| #[trigger] is_added(action, answers, m, k);
        let entries = answers.loads[m];
        law_no_file_may_be_added_to_affected_partitions(validator, base, entries);
        assert(validator.adds(base, entries[k]));
        assert(removal.partition_conflict(answers.loads[m]) is Some);
    }
}

/// A conflict over files to remove is found exactly if one of them is missing.
proof fn lemma_missing_exactly(action: RewriteFilesView, removal: Removal, answers: Answers)
    requires
        removal.paths == paths_of(action.files_to_delete),
        action.validator() is Some,
    ensures
        action.validator()->0.file_conflict(found_in(removal, answers.loads)) is Some
            <==> file_is_missing(action, answers),
{
    let files = action.files_to_delete;
    let loads = answers.loads;
    let found = found_in(removal, loads);
    let paths = file_paths(files);
    law_files_to_remove_must_exist(action.validator()->0, found);
    if file_is_missing(action, answers) {
        let i = choose|i: int|
            0 <= i < files.len() && !snapshot_has_file(loads, (#[trigger] files[i]).file_path@);
        lemma_path_of_file(files, i);
        assert(!found.contains(files[i].file_path@));
    } else {
        assert forall|path: Seq<char>| paths.contains(path) implies found.contains(path) by {
            let i = choose|i: int| 0 <= i < paths.len() && paths[i] == path;
            assert(files[i].file_path@ == path);
            lemma_path_of_file(files, i);
        }
    }
}

/// An action that detects conflicts is refused exactly if a file that it is to
/// remove is not part of the current snapshot, or if a file was added to one of
/// their partitions since the snapshot that it validates from. One that detects
/// none never is.
pub proof fn law_refused_exactly_for_conflicts(
    action: RewriteFilesView,
    table: TableMetadataView,
    answers: Answers,
)
    requires
        answers.complete(table),
    ensures
        ({
            let last = last_step(action.operation(), table, answers);
            &&& last is Done || last is Refused
            &&& last is Refused <==> {
                ||| action.validator() is Some && file_is_missing(action, answers)
                ||| compares_snapshots(action, table) && file_is_added(action, answers)
            }
        }),
{
    let operation = action.operation();
    let loads = answers.loads;
    match table.current_snapshot() {
        None => {
            let removal = operation.removal(0, None);
            assert(found_in(removal, loads) =~= Set::empty());
            if action.validator() is Some {
                lemma_missing_exactly(action, removal, answers);
            }
        },
        Some(snapshot) => {
            let unloaded = operation.removal(snapshot.snapshot_id, None);
            let base = snapshot_paths(answers.base_loads);
            let removal = if compares_snapshots(action, table) {
                lemma_base_answered(
                    unloaded,
                    answers.base_manifests,
                    Set::empty(),
                    snapshot.manifest_list@,
                    answers.base_loads,
                );
                assert(Set::empty().union(base) =~= base);
                operation.removal(snapshot.snapshot_id, Some(base))
            } else {
                unloaded
            };
            law_steps_lead_to_surviving_manifests(
                removal,
                answers.manifests,
                loads,
                answers.writes,
            );
            if compares_snapshots(action, table) {
                lemma_added_exactly(action, removal, answers);
            } else {
                lemma_added_in(removal, loads);
            }
            if action.validator() is Some {
                lemma_missing_exactly(action, removal, answers);
            }
        },
    }
}

/// Asking for the check of deletes is enough to have an action refused if a
/// file that it is to remove is no longer part of the current snapshot, whether
/// or not it validates from a snapshot, and whatever the table holds besides.
pub proof fn law_delete_check_detects_removed_files(
    action: RewriteFilesView,
    table: TableMetadataView,
    answers: Answers,
)
    requires
        answers.complete(table),
        file_is_missing(action, answers),
    ensures
        last_step(action.checking_deletes().operation(), table, answers) is Refused,
{
    law_refused_exactly_for_conflicts(action.checking_deletes(), table, answers);
    assert(file_is_missing(action.checking_deletes(), answers));
}

/// Validating from a snapshot is enough, too, whatever the sequence numbers of
/// the snapshots are.
pub proof fn law_validation_detects_removed_files(
    action: RewriteFilesView,
    base_id: i64,
    table: TableMetadataView,
    answers: Answers,
)
    requires
        answers.complete(table),
        file_is_missing(action, answers),
    ensures
        last_step(action.validating_from(Some(base_id)).operation(), table, answers) is Refused,
{
    let validating = action.validating_from(Some(base_id));
    law_refused_exactly_for_conflicts(validating, table, answers);
    assert(file_is_missing(validating, answers));
}

/// Validating from a snapshot of the table, an action is refused if another
/// snapshot is the current one and has a new file in a partition of the files
/// to remove, whatever the sequence numbers of the snapshots are.
pub proof fn law_validation_detects_added_files(
    action: RewriteFilesView,
    base_id: i64,
    table: TableMetadataView,
    answers: Answers,
)
    requires
        answers.complete(table),
        table.snapshots.contains_key(base_id),
        table.current_snapshot() is Some,
        table.current_snapshot()->0.snapshot_id != base_id,
        file_is_added(action, answers),
    ensures
        last_step(action.validating_from(Some(base_id)).operation(), table, answers) is Refused,
{
    let validating = action.validating_from(Some(base_id));
    law_refused_exactly_for_conflicts(validating, table, answers);
    let (m, k) = choose|m: int, k: int| #[trigger] is_added(action, answers, m, k);
    assert(is_added(validating, answers, m, k));
}

/// Validation can be asked for before or after the files are named: the action
/// is the same.
pub proof fn law_validation_can_be_asked_for_in_any_order(
    action: RewriteFilesView,
    files: Seq<DataFile>,
    base_id: Option<i64>,
)
    ensures
        action.validating_from(base_id).deleting(files) == action.deleting(files).validating_from(
            base_id,
        ),
        action.validating_from(base_id).adding(files) == action.adding(files).validating_from(
            base_id,
        ),
        action.checking_deletes().deleting(files) == action.deleting(files).checking_deletes(),
        action.checking_deletes().adding(files) == action.adding(files).checking_deletes(),
        action.checking_deletes().validating_from(base_id) == action.validating_from(
            base_id,
        ).checking_deletes(),
{
}

/// Where no manifest has a file to remove, and each may have files, the
/// manifests stay as they are.
pub proof fn law_unaffected_manifests_stay(
    removal: Removal,
    manifests: Seq<ManifestFile>,
    loads: Seq<Seq<ManifestEntry>>,
    writes: Seq<ManifestFile>,
)
    requires
        loads.len() == manifests.len(),
        writes.len() == manifests.len(),
        forall|i: int|
            0 <= i < manifests.len() ==> (#[trigger] manifests[i]).has_added_files
                || manifests[i].has_existing_files,
        forall|i: int| 0 <= i < loads.len() ==> !removal.affects(#[trigger] loads[i]),
    ensures
        surviving_manifests(removal, manifests, loads, writes) == manifests,
    decreases manifests.len(),
{
    if manifests.len() > 0 {
        assert forall|i: int| 0 <= i < manifests.skip(1).len() implies (
        #[trigger] manifests.skip(1)[i]).has_added_files || manifests.skip(1)[i].has_existing_files by {
            assert(manifests.skip(1)[i] == manifests[i + 1]);
        }
        assert forall|i: int| 0 <= i < loads.skip(1).len() implies !removal.affects(
            #[trigger] loads.skip(1)[i],
        ) by {
            assert(loads.skip(1)[i] == loads[i + 1]);
        }
        law_unaffected_manifests_stay(
            removal,
            manifests.skip(1),
            loads.skip(1),
            writes.skip(1),
        );
        assert(manifests[0].has_added_files || manifests[0].has_existing_files);
        assert(!removal.affects(loads[0]));
        assert(seq![manifests[0]] + manifests.skip(1) =~= manifests);
    }
    assert(surviving_manifests(removal, manifests, loads, writes) =~= manifests);
}

/// An action is never rejected for a conflict with the snapshot that it
/// validates from.
pub proof fn law_unchanged_table_never_conflicts(action: RewriteFilesView, table: TableMetadataView)
    requires
        table.wf(),
        action.validate_from_snapshot_id == table.current_snapshot_id,
    ensures
        action.snapshot_conflict(table) is None,
{
}

/// An action that validates from a snapshot is rejected exactly if another
/// snapshot, committed later, has become current, whenever its files were
/// named; other grounds apart.
pub proof fn law_validation_detects_later_snapshot(
    action: RewriteFilesView,
    table: TableMetadataView,
    base_id: i64,
)
    requires
        table.wf(),
        action.validate_from_snapshot_id == Some(base_id),
        table.snapshots.contains_key(base_id),
        table.current_snapshot() is Some,
    ensures
        action.snapshot_conflict(table) is Some <==> base_id
            != table.current_snapshot()->0.snapshot_id
            && table.current_snapshot()->0.sequence_number
            > table.snapshots[base_id].sequence_number,
{
}

proof fn lemma_hex_text_len(n: nat, width: nat)
    ensures
        hex_text(n, width).len() == width,
    decreases width,
{
    if width > 0 {
        lemma_hex_text_len(n / 16, (width - 1) as nat);
    }
}

/// Numerals of the same width are of numbers that agree up to that width.
proof fn lemma_hex_text_injective(a: nat, b: nat, width: nat)
    requires
        hex_text(a, width) == hex_text(b, width),
        a < vstd::arithmetic::power::pow(16, width),
        b < vstd::arithmetic::power::pow(16, width),
    ensures
        a == b,
    decreases width,
{
    if width == 0 {
        vstd::arithmetic::power::lemma_pow0(16);
    } else {
        let less = (width - 1) as nat;
        let x = hex_text(a / 16, less);
        let y = hex_text(b / 16, less);
        assert(hex_text(a, width).drop_last() =~= x);
        assert(hex_text(b, width).drop_last() =~= y);
        assert(hex_text(a, width).last() == hex_char((a % 16) as int));
        assert(hex_text(b, width).last() == hex_char((b % 16) as int));
        assert(a % 16 == b % 16);
        reveal(vstd::arithmetic::power::pow);
        assert(vstd::arithmetic::power::pow(16, width) == 16 * vstd::arithmetic::power::pow(
            16,
            less,
        ));
        lemma_hex_text_injective(a / 16, b / 16, less);
    }
}

/// Different UUIDs have different texts.
pub proof fn law_uuid_texts_are_distinct(a: u128, b: u128)
    requires
        uuid_text(a) == uuid_text(b),
    ensures
        a == b,
{
    let x = hex_text(a as nat, 32);
    let y = hex_text(b as nat, 32);
    lemma_hex_text_len(a as nat, 32);
    lemma_hex_text_len(b as nat, 32);
    let s = uuid_text(a);
    let t = uuid_text(b);
    assert(x.subrange(0, 8) =~= s.subrange(0, 8));
    assert(y.subrange(0, 8) =~= t.subrange(0, 8));
    assert(x.subrange(8, 12) =~= s.subrange(9, 13));
    assert(y.subrange(8, 12) =~= t.subrange(9, 13));
    assert(x.subrange(12, 16) =~= s.subrange(14, 18));
    assert(y.subrange(12, 16) =~= t.subrange(14, 18));
    assert(x.subrange(16, 20) =~= s.subrange(19, 23));
    assert(y.subrange(16, 20) =~= t.subrange(19, 23));
    assert(x.subrange(20, 32) =~= s.subrange(24, 36));
    assert(y.subrange(20, 32) =~= t.subrange(24, 36));
    assert(x =~= x.subrange(0, 8) + x.subrange(8, 12) + x.subrange(12, 16) + x.subrange(16, 20)
        + x.subrange(20, 32));
    assert(y =~= y.subrange(0, 8) + y.subrange(8, 12) + y.subrange(12, 16) + y.subrange(16, 20)
        + y.subrange(20, 32));
    assert(vstd::arithmetic::power::pow(16, 32) == 0x1_0000_0000_0000_0000_0000_0000_0000_0000int)
        by {
        reveal_with_fuel(vstd::arithmetic::power::pow, 33);
    }
    lemma_hex_text_injective(a as nat, b as nat, 32);
}

/// Manifests of a table that are written under different UUIDs have different
/// paths, whatever the time.
pub proof fn law_manifest_paths_are_distinct(
    location: Seq<char>,
    a: u128,
    b: u128,
    millis_a: i64,
    millis_b: i64,
)
    requires
        a != b,
    ensures
        manifest_path(location, a, millis_a) != manifest_path(location, b, millis_b),
{
    let p = manifest_path(location, a, millis_a);
    let q = manifest_path(location, b, millis_b);
    if p == q {
        lemma_hex_text_len(a as nat, 32);
        lemma_hex_text_len(b as nat, 32);
        let start: int = location.len() + "/metadata/"@.len() as int;
        assert(p.subrange(start, start + 36) =~= uuid_text(a));
        assert(q.subrange(start, start + 36) =~= uuid_text(b));
        law_uuid_texts_are_distinct(a, b);
    }
}

/// A request to write a manifest has exactly the entries that it is given, as
/// many, each unchanged and in the same order. It is for the table's schema and
/// default partition spec, names no snapshot and no key, and goes to a path
/// below the table's location that the UUID and the time are part of.
pub proof fn law_request_has_what_it_is_given(
    request: ManifestWriteRequest,
    table: TableMetadataView,
    entries: Seq<ManifestEntry>,
    content: ManifestContentType,
    uuid: u128,
    millis: i64,
)
    requires
        requests_manifest(request, table, entries, content, uuid, millis),
    ensures
        request.entries@.len() == entries.len(),
        forall|i: int| 0 <= i < entries.len() ==> #[trigger] request.entries@[i] == entries[i],
        request.entries@ == entries,
        request.schema_id == table.current_schema_id,
        request.partition_spec_id == table.default_partition_spec_id,
        request.snapshot_id is None,
        request.key_metadata is None,
        request.path@ == table.location + "/metadata/"@ + uuid_text(uuid) + "-m"@ + int_text(
            millis as int,
        ) + ".avro"@,
        request.writer is V1 <==> table.format_version is V1,
        request.writer is V2Data <==> table.format_version is V2 && content is Data,
        request.writer is V2Deletes <==> table.format_version is V2 && content is Deletes,
        request.writer is V3Data <==> table.format_version is V3 && content is Data,
        request.writer is V3Deletes <==> table.format_version is V3 && content is Deletes,
{
}

/// A manifest is rewritten entry by entry: what comes of a list of entries is
/// what comes of its parts, one after the other. An entry of a file that is not
/// part of the table goes; one of a file to remove stays as one of a deleted
/// file, of the snapshot that it names or else of the current one, and with all
/// else unchanged; any other stays as it is.
pub proof fn law_entries_are_rewritten_one_by_one(
    removal: Removal,
    first: Seq<ManifestEntry>,
    second: Seq<ManifestEntry>,
    entry: ManifestEntry,
)
    ensures
        removal.rewritten(first + second) == removal.rewritten(first) + removal.rewritten(second),
        removal.rewritten(seq![]) == Seq::<ManifestEntry>::empty(),
        entry.status is Deleted ==> removal.rewritten(seq![entry])
            == Seq::<ManifestEntry>::empty(),
        !(entry.status is Deleted) && !removal.paths.contains(entry.data_file.file_path@)
            ==> removal.rewritten(seq![entry]) == seq![entry],
        !(entry.status is Deleted) && removal.paths.contains(entry.data_file.file_path@)
            ==> removal.rewritten(seq![entry]) == seq![
            ManifestEntry {
                status: ManifestStatus::Deleted,
                snapshot_id: if entry.snapshot_id is Some {
                    entry.snapshot_id
                } else {
                    Some(removal.snapshot_id)
                },
                sequence_number: entry.sequence_number,
                file_sequence_number: entry.file_sequence_number,
                data_file: entry.data_file,
            },
        ],
    decreases second.len(),
{
    reveal(Seq::filter);
    reveal_with_fuel(Seq::filter, 3);
    assert(seq![entry].drop_last() =~= Seq::<ManifestEntry>::empty());
    assert(seq![entry].last() == entry);
    assert(removal.rewritten(seq![]) =~= seq![]);
    if entry.alive() {
        assert(removal.rewritten(seq![entry]) =~= seq![removal.mark(entry)]);
    } else {
        assert(removal.rewritten(seq![entry]) =~= seq![]);
    }
    if second.len() == 0 {
        assert(first + second =~= first);
        assert(second =~= seq![]);
        assert(removal.rewritten(first) + removal.rewritten(second) =~= removal.rewritten(first));
    } else {
        let rest = second.drop_last();
        law_entries_are_rewritten_one_by_one(removal, first, rest, entry);
        assert((first + second).drop_last() =~= first + rest);
        assert((first + second).last() == second.last());
        assert(removal.rewritten(first + second) =~= removal.rewritten(first)
            + removal.rewritten(second));
    }
}

/// The files to remove that are found in a manifest are those that are part of
/// the table by one of its entries.
pub proof fn law_found_files_are_those_in_the_manifest(
    removal: Removal,
    entries: Seq<ManifestEntry>,
    path: Seq<char>,
)
    ensures
        removal.found(entries).contains(path) <==> removal.paths.contains(path) && exists|i: int|
            {
                &&& 0 <= i < entries.len()
                &&& !((#[trigger] entries[i]).status is Deleted)
                &&& entries[i].data_file.file_path@ == path
            },
{
    if has_file(entries, path) {
        let i = choose|i: int|
            {
                &&& 0 <= i < entries.len()
                &&& (#[trigger] entries[i]).alive()
                &&& entries[i].data_file.file_path@ == path
            };
        assert(!(entries[i].status is Deleted));
    }
    if exists|i: int|
        {
            &&& 0 <= i < entries.len()
            &&& !((#[trigger] entries[i]).status is Deleted)
            &&& entries[i].data_file.file_path@ == path
        } {
        let i = choose|i: int|
            {
                &&& 0 <= i < entries.len()
                &&& !((#[trigger] entries[i]).status is Deleted)
                &&& entries[i].data_file.file_path@ == path
            };
        assert(entries[i].alive());
    }
}

/// A manifest is rewritten exactly if a file to remove is part of the table by
/// one of its entries. Another one is kept exactly if it says that it may have
/// added or existing files, and left out if not.
pub proof fn law_manifests_are_rewritten_exactly_for_removals(
    removal: Removal,
    manifest: ManifestFile,
    entries: Seq<ManifestEntry>,
)
    ensures
        ({
            let plan = removal.plan(manifest, entries);
            let affected = exists|i: int|
                {
                    &&& 0 <= i < entries.len()
                    &&& !((#[trigger] entries[i]).status is Deleted)
                    &&& removal.paths.contains(entries[i].data_file.file_path@)
                };
            &&& plan is Rewrite <==> affected
            &&& plan is Keep <==> !affected && (manifest.has_added_files
                || manifest.has_existing_files)
            &&& plan is Drop <==> !affected && !manifest.has_added_files
                && !manifest.has_existing_files
            &&& plan matches ManifestPlan::Rewrite { entries: rewritten } ==> rewritten
                == removal.rewritten(entries)
        }),
{
    if removal.affects(entries) {
        let i = choose|i: int| 0 <= i < entries.len() && removal.removes(#[trigger] entries[i]);
        assert(!(entries[i].status is Deleted));
    }
    if exists|i: int|
        {
            &&& 0 <= i < entries.len()
            &&& !((#[trigger] entries[i]).status is Deleted)
            &&& removal.paths.contains(entries[i].data_file.file_path@)
        } {
        let i = choose|i: int|
            {
                &&& 0 <= i < entries.len()
                &&& !((#[trigger] entries[i]).status is Deleted)
                &&& removal.paths.contains(entries[i].data_file.file_path@)
            };
        assert(removal.removes(entries[i]));
    }
}

/// The manifest that is requested to be written in place of another is of the
/// same content, and the files of the other that are not to be removed are part
/// of the table by it, and no others. Everything else stays as it was: what is
/// removed, the manifests to come and those collected.
pub proof fn law_written_manifest_has_the_other_files(
    removal: Removal,
    manifest: ManifestFile,
    pending: Seq<ManifestFile>,
    collected: Seq<ManifestFile>,
    found: Set<Seq<char>>,
    entries: Seq<ManifestEntry>,
    table: TableMetadataView,
    request: ManifestWriteRequest,
    uuid: u128,
    millis: i64,
    path: Seq<char>,
)
    ensures
        match StepView::after_load(removal, manifest, pending, collected, found, entries) {
            StepView::WriteManifest {
                removal: removal_after,
                entries: rewritten,
                content,
                pending: pending_after,
                collected: collected_after,
                found: found_after,
            } => {
                &&& removal_after == removal
                &&& content == manifest.content
                &&& pending_after == pending
                &&& collected_after == collected
                &&& found_after.contains(path) <==> found.contains(path) || removal.paths.contains(
                    path,
                ) && has_file(entries, path)
                &&& rewritten == removal.rewritten(entries)
                &&& requests_manifest(request, table, rewritten, content, uuid, millis) ==> (
                has_file(request.entries@, path) <==> has_file(entries, path)
                    && !removal.paths.contains(path))
            },
            _ => true,
        },
{
    if removal.affects(entries) {
        let kept = ManifestFile { has_added_files: true, ..manifest };
        law_exactly_the_named_files_are_removed(removal, kept, entries, path);
    }
}

/// The manifests of the new snapshot with the entries of each, in order, as the
/// answered steps have them: a manifest that was written, with the entries that
/// it was to be written with, or one that was collected as it was loaded.
pub open spec fn taken_over(
    step: StepView,
    loads: Seq<Seq<ManifestEntry>>,
    writes: Seq<ManifestFile>,
) -> Seq<(ManifestFile, Seq<ManifestEntry>)>
    decreases loads.len(),
{
    match step {
        StepView::LoadManifest {
            removal,
            manifest,
            pending,
            collected,
            found,
        } if loads.len() > 0 => {
            match StepView::after_load(removal, manifest, pending, collected, found, loads[0]) {
                StepView::WriteManifest {
                    removal,
                    entries,
                    pending,
                    collected,
                    found,
                    ..
                } => seq![(writes[0], entries)] + taken_over(
                    StepView::next(removal, pending, collected.push(writes[0]), found),
                    loads.skip(1),
                    writes.skip(1),
                ),
                loaded => {
                    let so_far = match loaded {
                        StepView::LoadManifest { collected, .. } => collected,
                        StepView::Done { manifests } => manifests,
                        _ => seq![],
                    };
                    let own = if so_far.len() > collected.len() {
                        seq![(manifest, loads[0])]
                    } else {
                        seq![]
                    };
                    own + taken_over(loaded, loads.skip(1), writes.skip(1))
                },
            }
        },
        _ => seq![],
    }
}

/// The manifests of a list of manifests with their entries.
pub open spec fn manifests_of(taken: Seq<(ManifestFile, Seq<ManifestEntry>)>) -> Seq<
    ManifestFile,
> {
    taken.map_values(|pair: (ManifestFile, Seq<ManifestEntry>)| pair.0)
}

/// The entries of a list of manifests with their entries.
pub open spec fn entries_of(taken: Seq<(ManifestFile, Seq<ManifestEntry>)>) -> Seq<
    Seq<ManifestEntry>,
> {
    taken.map_values(|pair: (ManifestFile, Seq<ManifestEntry>)| pair.1)
}

/// Whether a manifest with these entries says truly that it may have files if it
/// has some.
pub open spec fn says_truly(manifest: ManifestFile, entries: Seq<ManifestEntry>) -> bool {
    manifest.has_added_files || manifest.has_existing_files || forall|k: int|
        0 <= k < entries.len() ==> (#[trigger] entries[k]).status is Deleted
}

proof fn lemma_taken_over(
    removal: Removal,
    pending: Seq<ManifestFile>,
    collected: Seq<ManifestFile>,
    found: Set<Seq<char>>,
    loads: Seq<Seq<ManifestEntry>>,
    writes: Seq<ManifestFile>,
    path: Seq<char>,
)
    requires
        loads.len() == pending.len(),
        writes.len() == pending.len(),
        forall|i: int| 0 <= i < pending.len() ==> says_truly(#[trigger] pending[i], loads[i]),
    ensures
        ({
            let step = StepView::next(removal, pending, collected, found);
            let taken = taken_over(step, loads, writes);
            answered(step, loads, writes) matches StepView::Done { manifests } ==> {
                &&& manifests == collected + manifests_of(taken)
                &&& snapshot_has_file(entries_of(taken), path) <==> snapshot_has_file(loads, path)
                    && !removal.paths.contains(path)
            }
        }),
    decreases pending.len(),
{
    let step = StepView::next(removal, pending, collected, found);
    let taken = taken_over(step, loads, writes);
    if pending.len() == 0 {
        assert(manifests_of(taken) =~= seq![]);
        assert(collected + manifests_of(taken) =~= collected);
    } else if removal.partition_conflict(loads[0]) is None {
        let now_found = found.union(removal.found(loads[0]));
        let own = match removal.plan(pending[0], loads[0]) {
            ManifestPlan::Rewrite { entries } => seq![(writes[0], entries)],
            ManifestPlan::Keep => seq![(pending[0], loads[0])],
            ManifestPlan::Drop => seq![],
        };
        let more = collected + manifests_of(own);
        match removal.plan(pending[0], loads[0]) {
            ManifestPlan::Rewrite { .. } => {
                assert(more =~= collected.push(writes[0]));
            },
            ManifestPlan::Keep => {
                assert(more =~= collected.push(pending[0]));
            },
            ManifestPlan::Drop => {
                assert(more =~= collected);
            },
        }
        let next = StepView::next(removal, pending.skip(1), more, now_found);
        let rest = taken_over(next, loads.skip(1), writes.skip(1));
        assert forall|i: int| 0 <= i < pending.skip(1).len() implies says_truly(
            #[trigger] pending.skip(1)[i],
            loads.skip(1)[i],
        ) by {
            assert(pending.skip(1)[i] == pending[i + 1]);
        }
        lemma_taken_over(
            removal,
            pending.skip(1),
            more,
            now_found,
            loads.skip(1),
            writes.skip(1),
            path,
        );
        if answered(step, loads, writes) is Done {
            assert(taken =~= own + rest);
            assert(manifests_of(taken) =~= manifests_of(own) + manifests_of(rest));
            assert(collected + manifests_of(taken) =~= more + manifests_of(rest));
            assert(says_truly(pending[0], loads[0]));
            law_exactly_the_named_files_are_removed(removal, pending[0], loads[0], path);
            lemma_first_manifest(loads, path);
            let all = entries_of(taken);
            if own.len() == 0 {
                assert(all =~= entries_of(rest));
                assert(!has_file(seq![], path));
            } else {
                assert(all[0] == own[0].1);
                assert(all.skip(1) =~= entries_of(rest));
                lemma_first_manifest(all, path);
            }
        }
    } else {
        let message = removal.partition_conflict(loads[0])->0;
        let refused = StepView::Refused { error: data_invalid(message) };
        assert(answered(refused, loads.skip(1), writes.skip(1)) == refused);
    }
}

/// From the first step to the last, when every step is answered and the action
/// is not refused: the manifests of the new snapshot are those that were
/// written and those that were kept, in order, and of the files of the current
/// snapshot exactly those that are not to be removed are part of the table by
/// their entries. The manifests say truly that they may have files if they have
/// some.
pub proof fn law_new_snapshot_has_exactly_the_other_files(
    removal: Removal,
    manifests: Seq<ManifestFile>,
    loads: Seq<Seq<ManifestEntry>>,
    writes: Seq<ManifestFile>,
    path: Seq<char>,
)
    requires
        loads.len() == manifests.len(),
        writes.len() == manifests.len(),
        forall|i: int| 0 <= i < manifests.len() ==> says_truly(#[trigger] manifests[i], loads[i]),
    ensures
        ({
            let step = StepView::next(removal, manifests, seq![], Set::empty());
            let taken = taken_over(step, loads, writes);
            answered(step, loads, writes) matches StepView::Done { manifests: new_manifests } ==> {
                &&& new_manifests == manifests_of(taken)
                &&& snapshot_has_file(entries_of(taken), path) <==> snapshot_has_file(loads, path)
                    && !removal.paths.contains(path)
            }
        }),
{
    lemma_taken_over(removal, manifests, seq![], Set::empty(), loads, writes, path);
    let step = StepView::next(removal, manifests, seq![], Set::empty());
    let taken = taken_over(step, loads, writes);
    assert(seq![] + manifests_of(taken) =~= manifests_of(taken));
}

/// The manifests are loaded one after the other, each once; when none is left,
/// the action is refused if a conflict over its files is found, and else what
/// was collected is handed out, whole and in order.
pub proof fn law_manifests_are_loaded_in_turn(
    removal: Removal,
    pending: Seq<ManifestFile>,
    collected: Seq<ManifestFile>,
    found: Set<Seq<char>>,
)
    ensures
        match StepView::next(removal, pending, collected, found) {
            StepView::LoadManifest {
                removal: removal_after,
                manifest,
                pending: rest,
                collected: collected_after,
                found: found_after,
            } => {
                &&& seq![manifest] + rest == pending
                &&& removal_after == removal
                &&& collected_after == collected
                &&& found_after == found
            },
            StepView::Done { manifests } => {
                &&& pending.len() == 0
                &&& manifests == collected
                &&& removal.validator matches Some(validator) ==> validator.file_conflict(
                    found,
                ) is None
            },
            StepView::Refused { error } => {
                &&& pending.len() == 0
                &&& removal.validator is Some
                &&& removal.validator->0.file_conflict(found) == Some(error.message)
                &&& error.kind == ErrorKind::DataInvalid
            },
            _ => false,
        },
{
    if pending.len() > 0 {
        assert(seq![pending[0]] + pending.skip(1) =~= pending);
    }
}

/// The manifests of the snapshot that the action started from are loaded one
/// after the other, each once; when none is left, the list of the current
/// snapshot's manifests is, and what is compared with is all that was found.
pub proof fn law_base_manifests_are_loaded_in_turn(
    removal: Removal,
    pending: Seq<ManifestFile>,
    base: Set<Seq<char>>,
    manifest_list: Seq<char>,
)
    ensures
        match StepView::next_base(removal, pending, base, manifest_list) {
            StepView::LoadBaseManifest {
                removal: removal_after,
                manifest,
                pending: rest,
                base: base_after,
                manifest_list: manifest_list_after,
            } => {
                &&& seq![manifest] + rest == pending
                &&& removal_after == removal
                &&& base_after == base
                &&& manifest_list_after == manifest_list
            },
            StepView::LoadManifestList {
                removal: removal_after,
                manifest_list: manifest_list_after,
            } => {
                &&& pending.len() == 0
                &&& removal_after.base == Some(base)
                &&& removal_after.paths == removal.paths
                &&& removal_after.validator == removal.validator
                &&& removal_after.snapshot_id == removal.snapshot_id
                &&& manifest_list_after == manifest_list
            },
            _ => false,
        },
{
    if pending.len() > 0 {
        assert(seq![pending[0]] + pending.skip(1) =~= pending);
    }
}

/// After a manifest is loaded, what happens is one of four things. A file that
/// was added to an affected partition has the action refused. A manifest with a
/// file to remove is written anew. Another one is collected, if it says that it
/// may have files, or left out, if it does not, and the next one is turned to.
pub proof fn law_a_loaded_manifest_is_dealt_with(
    removal: Removal,
    manifest: ManifestFile,
    pending: Seq<ManifestFile>,
    collected: Seq<ManifestFile>,
    found: Set<Seq<char>>,
    entries: Seq<ManifestEntry>,
)
    ensures
        ({
            let step = StepView::after_load(
                removal,
                manifest,
                pending,
                collected,
                found,
                entries,
            );
            let conflict = match (removal.validator, removal.base) {
                (Some(validator), Some(base)) => validator.partition_conflict(base, entries),
                _ => None,
            };
            let affected = exists|i: int|
                {
                    &&& 0 <= i < entries.len()
                    &&& !((#[trigger] entries[i]).status is Deleted)
                    &&& removal.paths.contains(entries[i].data_file.file_path@)
                };
            let may_have_files = manifest.has_added_files || manifest.has_existing_files;
            &&& conflict matches Some(message) ==> step == (StepView::Refused {
                error: data_invalid(message),
            })
            &&& conflict is None && affected ==> step is WriteManifest
            &&& conflict is None && !affected && may_have_files ==> step == StepView::next(
                removal,
                pending,
                collected.push(manifest),
                found,
            )
            &&& conflict is None && !affected && !may_have_files ==> step == StepView::next(
                removal,
                pending,
                collected,
                found,
            )
        }),
{
    law_manifests_are_rewritten_exactly_for_removals(removal, manifest, entries);
    if !removal.affects(entries) {
        assert forall|path: Seq<char>| !removal.found(entries).contains(path) by {
            law_found_files_are_those_in_the_manifest(removal, entries, path);
        }
        assert(found.union(removal.found(entries)) =~= found);
    }
}

/// The first step is about the table's current snapshot: the files to remove
/// are removed from it, and the list of its manifests is loaded. Before that,
/// the list of the snapshot that the action started from is, if that is another
/// one that the table has and files added to affected partitions are to be
/// detected. Without a current snapshot there is nothing to load.
pub proof fn law_first_step_is_about_the_current_snapshot(
    operation: RewriteOperationView,
    table: TableMetadataView,
)
    requires
        table.wf(),
    ensures
        ({
            let has_current = table.current_snapshot_id is Some && table.snapshots.contains_key(
                table.current_snapshot_id->0,
            );
            let current = table.snapshots[table.current_snapshot_id->0];
            let base_id = operation.base_snapshot_id;
            let compares = has_current && base_id is Some && table.snapshots.contains_key(
                base_id->0,
            ) && base_id != table.current_snapshot_id && operation.validator is Some
                && operation.validator->0.affected_partitions is Some;
            match StepView::first(operation, table) {
                StepView::LoadBaseManifestList { removal, base_manifest_list, manifest_list } => {
                    &&& compares
                    &&& base_manifest_list == table.snapshots[base_id->0].manifest_list@
                    &&& manifest_list == current.manifest_list@
                    &&& removal.paths == operation.paths
                    &&& removal.validator == operation.validator
                    &&& removal.snapshot_id == current.snapshot_id
                },
                StepView::LoadManifestList { removal, manifest_list } => {
                    &&& has_current && !compares
                    &&& manifest_list == current.manifest_list@
                    &&& removal.paths == operation.paths
                    &&& removal.validator == operation.validator
                    &&& removal.snapshot_id == current.snapshot_id
                    &&& removal.base is None
                },
                StepView::Done { manifests } => {
                    &&& !has_current
                    &&& manifests.len() == 0
                    &&& operation.validator matches Some(validator) ==> validator.file_conflict(
                        Set::empty(),
                    ) is None
                },
                StepView::Refused { error } => {
                    &&& !has_current
                    &&& operation.validator is Some
                    &&& operation.validator->0.file_conflict(Set::empty()) == Some(error.message)
                },
                _ => false,
            }
        }),
{
}

/// An action without files to remove is rejected for that, and one without
/// files to add for that. Else the first file to add that does not fit the
/// table decides: it is rejected for its content, or, if it holds rows, for its
/// partition spec.
pub proof fn law_first_file_that_does_not_fit_decides(
    action: RewriteFilesView,
    table: TableMetadataView,
    i: int,
)
    ensures
        action.files_to_delete.len() == 0 ==> action.rejection(table) == Some(
            "RewriteFiles requires at least one file to delete"@,
        ),
        action.files_to_delete.len() > 0 && action.files_to_add.len() == 0 ==> action.rejection(
            table,
        ) == Some("RewriteFiles requires at least one file to add"@),
        action.files_to_delete.len() > 0 && 0 <= i < action.files_to_add.len() && (forall|j: int|
            0 <= j < i ==> (#[trigger] action.files_to_add[j]).content == DataContentType::Data
                && action.files_to_add[j].partition_spec_id == table.default_partition_spec_id) ==> {
            &&& action.files_to_add[i].content != DataContentType::Data ==> action.rejection(table)
                == Some("Only data content type is allowed for rewrite files"@)
            &&& action.files_to_add[i].content == DataContentType::Data
                && action.files_to_add[i].partition_spec_id != table.default_partition_spec_id
                ==> action.rejection(table) == Some(
                "Data file partition spec id does not match table default partition spec id"@,
            )
        },
{
    let files = action.files_to_add;
    let spec_id = table.default_partition_spec_id;
    if action.files_to_delete.len() > 0 && 0 <= i < files.len() && (forall|j: int|
        0 <= j < i ==> (#[trigger] files[j]).content == DataContentType::Data
            && files[j].partition_spec_id == spec_id) && (files[i].content != DataContentType::Data
        || files[i].partition_spec_id != spec_id) {
        assert(first_rejected_file(files, spec_id, i));
        let k = choose|k: int| first_rejected_file(files, spec_id, k);
        assert(k == i) by {
            if k < i {
                assert(files[k].content == DataContentType::Data);
            }
            if i < k {
                assert(file_rejection(files[i], spec_id) is None);
            }
        }
    }
}

/// Whether the action has files to remove and files to add, and each of the
/// latter holds rows and has the table's default partition spec.
pub open spec fn fits(action: RewriteFilesView, table: TableMetadataView) -> bool {
    &&& action.files_to_delete.len() > 0
    &&& action.files_to_add.len() > 0
    &&& forall|i: int|
        0 <= i < action.files_to_add.len() ==> (#[trigger] action.files_to_add[i]).content
            == DataContentType::Data && action.files_to_add[i].partition_spec_id
            == table.default_partition_spec_id
}

/// An action whose files fit the table is rejected exactly if it validates from
/// a snapshot that the table has, and the current snapshot is another one with a
/// higher sequence number; however many files it removes and adds, and whatever
/// else it asks for. The message names the two sequence numbers.
pub proof fn law_fitting_action_is_rejected_exactly_for_later_snapshots(
    action: RewriteFilesView,
    table: TableMetadataView,
)
    requires
        table.wf(),
        fits(action, table),
    ensures
        ({
            let base_id = action.validate_from_snapshot_id;
            let current_id = table.current_snapshot_id;
            let base = table.snapshots[base_id->0];
            let current = table.snapshots[current_id->0];
            &&& action.rejection(table) is Some <==> {
                &&& base_id is Some && table.snapshots.contains_key(base_id->0)
                &&& current_id is Some && table.snapshots.contains_key(current_id->0)
                &&& base_id != current_id
                &&& current.sequence_number > base.sequence_number
            }
            &&& action.rejection(table) matches Some(message) ==> message
                == "Concurrent modification detected: base sequence "@ + int_text(
                base.sequence_number as int,
            ) + " != current sequence "@ + int_text(current.sequence_number as int)
                + ". Files may have been added, removed, or modified in affected partitions."@
        }),
{
    let files = action.files_to_add;
    let spec_id = table.default_partition_spec_id;
    if exists|i: int| first_rejected_file(files, spec_id, i) {
        let i = choose|i: int| first_rejected_file(files, spec_id, i);
        assert(files[i].content == DataContentType::Data);
    }
    assert(files_rejection(files, spec_id) is None);
}

/// Every action that a table accepts fits it.
pub proof fn law_accepted_action_fits(action: RewriteFilesView, table: TableMetadataView)
    requires
        action.rejection(table) is None,
    ensures
        fits(action, table),
{
    law_accepted_files_fit_the_table(action, table);
}

/// What an action detects follows from what it was asked for and from all of
/// its files to remove: everything with a snapshot to validate from, deletes of
/// the files if only that was asked for, and nothing else.
pub proof fn law_validator_is_for_the_files_to_remove(action: RewriteFilesView, i: int)
    ensures
        action.validator() is Some <==> action.validate_from_snapshot_id is Some
            || action.check_concurrent_deletes,
        action.validator() matches Some(validator) ==> {
            &&& validator.check_concurrent_deletes
            &&& validator.affected_partitions is Some <==> action.validate_from_snapshot_id is Some
            &&& validator.files_to_remove.len() == action.files_to_delete.len()
            &&& 0 <= i < action.files_to_delete.len() ==> validator.files_to_remove[i]
                == action.files_to_delete[i].file_path@
            &&& 0 <= i < action.files_to_delete.len() && validator.affected_partitions is Some
                ==> validator.affected_partitions->0.contains(
                action.files_to_delete[i].partition@,
            )
            &&& validator.affected_partitions matches Some(partitions) ==> forall|
                partition: Seq<Option<LiteralView>>,
            | #[trigger]
                partitions.contains(partition) ==> exists|k: int|
                    0 <= k < action.files_to_delete.len() && (
                    #[trigger] action.files_to_delete[k]).partition@ == partition
        },
{
    let files = action.files_to_delete;
    if 0 <= i < files.len() {
        law_partitions_are_those_of_the_files(files, files[i].partition@);
    }
    assert forall|partition: Seq<Option<LiteralView>>| #[trigger]
        partitions_of(files).contains(partition) implies exists|k: int|
        0 <= k < files.len() && (#[trigger] files[k]).partition@ == partition by {
        law_partitions_are_those_of_the_files(files, partition);
    }
}

/// The operation of an action removes the files with the paths of its files to
/// remove, and no others, and detects what the action detects, from the
/// snapshot on that it validates from.
pub proof fn law_operation_removes_the_files_of_the_action(
    action: RewriteFilesView,
    path: Seq<char>,
    snapshot_id: i64,
    base: Option<Set<Seq<char>>>,
)
    ensures
        ({
            let operation = action.operation();
            let removal = operation.removal(snapshot_id, base);
            &&& operation.paths.contains(path) <==> exists|i: int|
                0 <= i < action.files_to_delete.len() && (
                #[trigger] action.files_to_delete[i]).file_path@ == path
            &&& operation.validator == action.validator()
            &&& operation.base_snapshot_id == action.validate_from_snapshot_id
            &&& removal.paths == operation.paths
            &&& removal.validator == operation.validator
            &&& removal.snapshot_id == snapshot_id
            &&& removal.base == base
        }),
{
    law_paths_are_those_of_the_files(action.files_to_delete, path);
}

/// What an accepted action hands on is what was set: its files to add, all and
/// in order, its properties, its key metadata, its commit id if it has one, and
/// the operation that removes its files.
pub proof fn law_accepted_action_hands_on_what_was_set(
    action: RewriteFilesView,
    prepared: (SnapshotProducer, RewriteOperation),
    fresh_uuid: Uuid,
)
    requires
        prepares(action, prepared, fresh_uuid),
    ensures
        prepared.0.added_data_files@ == action.files_to_add,
        prepared.0.snapshot_properties@ == action.snapshot_properties,
        prepared.0.key_metadata is Some <==> action.key_metadata is Some,
        action.key_metadata is Some ==> prepared.0.key_metadata->0@ == action.key_metadata->0,
        action.commit_uuid is Some ==> prepared.0.commit_uuid == action.commit_uuid->0,
        action.commit_uuid is None ==> prepared.0.commit_uuid == fresh_uuid,
        prepared.1@.paths == paths_of(action.files_to_delete),
        prepared.1@.validator == action.validator(),
        prepared.1@.base_snapshot_id == action.validate_from_snapshot_id,
{
}

/// Each call that builds an action changes the one thing that it is for.
pub proof fn law_building_an_action_changes_one_thing(
    action: RewriteFilesView,
    files: Seq<DataFile>,
    snapshot_id: Option<i64>,
)
    ensures
        action.deleting(files) == (RewriteFilesView {
            files_to_delete: action.files_to_delete + files,
            ..action
        }),
        action.adding(files) == (RewriteFilesView {
            files_to_add: action.files_to_add + files,
            ..action
        }),
        action.validating_from(snapshot_id) == (RewriteFilesView {
            validate_from_snapshot_id: snapshot_id,
            ..action
        }),
        action.checking_deletes() == (RewriteFilesView {
            check_concurrent_deletes: true,
            ..action
        }),
{
}

/// The snapshot that a rewrite adds is a child of the current one, as it was
/// written, with the operation and the properties that it was given. It becomes
/// the head of the main branch, on the condition that the table is the same and
/// the main branch still where the rewrite found it.
pub proof fn law_committed_snapshot_follows_the_current_one(
    producer: SnapshotProducer,
    table: TableMetadataView,
    operation: Operation,
    written: WrittenSnapshot,
)
    ensures
        ({
            let commit = producer.committed(table, operation, written);
            &&& commit.updates.len() == 2
            &&& commit.requirements.len() == 2
            &&& commit.updates[0] is AddSnapshot
            &&& commit.updates[0]->snapshot.snapshot_id == written.snapshot_id
            &&& commit.updates[0]->snapshot.parent_snapshot_id == table.current_snapshot_id
            &&& commit.updates[0]->snapshot.sequence_number == written.sequence_number
            &&& commit.updates[0]->snapshot.timestamp_ms == written.timestamp_ms
            &&& commit.updates[0]->snapshot.manifest_list == written.manifest_list
            &&& commit.updates[0]->snapshot.summary.operation == operation
            &&& commit.updates[0]->snapshot.summary.additional_properties
                == producer.snapshot_properties
            &&& commit.updates[1] is SetSnapshotRef
            &&& commit.updates[1]->SetSnapshotRef_ref_name == "main"@
            &&& commit.updates[1]->reference.snapshot_id == written.snapshot_id
            &&& commit.updates[1]->reference.retention is Branch
            &&& commit.requirements[0] == (TableRequirementView::UuidMatch { uuid: table.uuid })
            &&& commit.requirements[1] == (TableRequirementView::RefSnapshotIdMatch {
                ref_name: "main"@,
                snapshot_id: table.current_snapshot_id,
            })
        }),
{
}

/// A step asks for what it holds: the list at the location that it names, the
/// manifest that its state waits for, or a manifest of just the entries and the
/// content that it hands out. The manifests of the last step, or the error, are
/// those that it hands out.
pub proof fn law_a_step_asks_for_what_it_holds(step: ManifestStep)
    ensures
        match step {
            ManifestStep::LoadBaseManifestList { manifest_list, state } => {
                &&& step@ is LoadBaseManifestList
                &&& step@->base_manifest_list == manifest_list@
                &&& step@->LoadBaseManifestList_manifest_list == state.manifest_list()
                &&& step@->LoadBaseManifestList_removal == state.removal()
            },
            ManifestStep::LoadBaseManifest { state } => {
                &&& step@ is LoadBaseManifest
                &&& step@->LoadBaseManifest_manifest == state.awaited()
                &&& step@->LoadBaseManifest_pending == state.pending()
                &&& step@->base == state.base()
                &&& step@->LoadBaseManifest_manifest_list == state.manifest_list()
                &&& step@->LoadBaseManifest_removal == state.removal()
            },
            ManifestStep::LoadManifestList { manifest_list, state } => {
                &&& step@ is LoadManifestList
                &&& step@->LoadManifestList_manifest_list == manifest_list@
                &&& step@->LoadManifestList_removal == state.removal()
            },
            ManifestStep::LoadManifest { state } => {
                &&& step@ is LoadManifest
                &&& step@->LoadManifest_manifest == state.awaited()
                &&& step@->LoadManifest_pending == state.pending()
                &&& step@->LoadManifest_collected == state.collected()
                &&& step@->LoadManifest_found == state.found()
                &&& step@->LoadManifest_removal == state.removal()
            },
            ManifestStep::WriteManifest { entries, content, state } => {
                &&& step@ is WriteManifest
                &&& step@->entries == entries@
                &&& step@->content == content
                &&& step@->WriteManifest_pending == state.pending()
                &&& step@->WriteManifest_collected == state.collected()
                &&& step@->WriteManifest_found == state.found()
                &&& step@->WriteManifest_removal == state.removal()
            },
            ManifestStep::Done { manifests } => {
                &&& step@ is Done
                &&& step@->manifests == manifests@
            },
            ManifestStep::Refused { error } => {
                &&& step@ is Refused
                &&& step@->error == error@
            },
        },
{
}

} // verus!
