//! Removing files from the manifests of a table.

use vstd::hash_set::StringHashSet;
use vstd::prelude::*;

use crate::clock::now_millis;
use crate::error::{data_invalid, Error, ErrorView};
use crate::ids::{display, has_standard_variant, new_v4, uuid_text, uuid_version, Uuid};
use crate::manifest::{
    has_file, insert_live_paths, lemma_has_file_push, live_paths, ManifestContentType, ManifestEntry, ManifestFile,
    ManifestStatus,
};
use crate::metadata::{FormatVersion, Table, TableMetadataView};
use crate::snapshot::{Operation, Snapshot};
use crate::text::{int_text, push_i64};
use crate::validator::{RewriteValidator, RewriteValidatorView};
use vstd::string::StringExecFns;

verus! {

/// The operation that removes files from the manifests of a table's current
/// snapshot.
pub struct RewriteOperation {
    files_to_delete_paths: StringHashSet,
    validator: Option<RewriteValidator>,
    base_snapshot_id: Option<i64>,
}

/// What a [`RewriteOperation`] is to do.
pub struct RewriteOperationView {
    /// The paths of the files to remove.
    pub paths: Set<Seq<char>>,
    /// How conflicts are detected, if they are.
    pub validator: Option<RewriteValidatorView>,
    /// The snapshot that the action started from, if it is known.
    pub base_snapshot_id: Option<i64>,
}

/// What the optional validator detects.
pub open spec fn validator_view(validator: Option<RewriteValidator>) -> Option<
    RewriteValidatorView,
> {
    match validator {
        Some(validator) => Some(validator@),
        None => None,
    }
}

impl View for RewriteOperation {
    type V = RewriteOperationView;

    closed spec fn view(&self) -> RewriteOperationView {
        RewriteOperationView {
            paths: self.files_to_delete_paths@,
            validator: validator_view(self.validator),
            base_snapshot_id: self.base_snapshot_id,
        }
    }
}

/// What is removed, what snapshot it is removed from, and how conflicts are
/// detected.
pub struct Removal {
    /// The paths of the files to remove.
    pub paths: Set<Seq<char>>,
    /// How conflicts are detected, if they are.
    pub validator: Option<RewriteValidatorView>,
    /// The id of the current snapshot.
    pub snapshot_id: i64,
    /// The paths of the files of the snapshot that the action started from, if
    /// those of the current one are to be compared with them.
    pub base: Option<Set<Seq<char>>>,
}

impl RewriteOperationView {
    /// The removal from the snapshot with the given id.
    pub open spec fn removal(self, snapshot_id: i64, base: Option<Set<Seq<char>>>) -> Removal {
        Removal { paths: self.paths, validator: self.validator, snapshot_id, base }
    }

    /// The snapshot whose files those of the current one are to be compared
    /// with, if there is one: the snapshot that the action started from, if
    /// files added to affected partitions are to be detected and another
    /// snapshot is the current one.
    pub open spec fn base_snapshot(self, table: TableMetadataView) -> Option<Snapshot> {
        match (self.validator, self.base_snapshot_id, table.current_snapshot()) {
            (Some(validator), Some(base_id), Some(current)) if validator.affected_partitions is Some
                && table.snapshots.contains_key(base_id) && base_id != current.snapshot_id => Some(
                table.snapshots[base_id],
            ),
            _ => None,
        }
    }
}

/// What is to be done about a manifest.
pub enum ManifestPlan {
    /// Write a manifest with these entries in its place.
    Rewrite { entries: Seq<ManifestEntry> },
    /// Keep it as it is.
    Keep,
    /// Leave it out.
    Drop,
}

impl Removal {
    /// Whether the entry is of a file to remove that is part of the table.
    pub open spec fn removes(self, entry: ManifestEntry) -> bool {
        entry.alive() && self.paths.contains(entry.data_file.file_path@)
    }

    /// The entry after the removal: marked as deleted, in the current snapshot
    /// if it names none, if its file is removed, and unchanged if not.
    pub open spec fn mark(self, entry: ManifestEntry) -> ManifestEntry {
        if self.removes(entry) {
            ManifestEntry {
                status: ManifestStatus::Deleted,
                snapshot_id: Some(
                    match entry.snapshot_id {
                        Some(snapshot_id) => snapshot_id,
                        None => self.snapshot_id,
                    },
                ),
                ..entry
            }
        } else {
            entry
        }
    }

    /// Whether a file of the manifest with these entries is removed.
    pub open spec fn affects(self, entries: Seq<ManifestEntry>) -> bool {
        exists|i: int| 0 <= i < entries.len() && self.removes(#[trigger] entries[i])
    }

    /// The entries of a manifest after the removal: those of the files that
    /// were part of the table, in the same order.
    pub open spec fn rewritten(self, entries: Seq<ManifestEntry>) -> Seq<ManifestEntry> {
        entries.filter(|entry: ManifestEntry| entry.alive()).map_values(
            |entry: ManifestEntry| self.mark(entry),
        )
    }

    /// The paths of the files to remove that are part of the table by these
    /// entries.
    pub open spec fn found(self, entries: Seq<ManifestEntry>) -> Set<Seq<char>> {
        self.paths.filter(|path: Seq<char>| has_file(entries, path))
    }

    /// The message of the conflict over files of a manifest with these entries
    /// that were added to affected partitions, if there is one.
    pub open spec fn partition_conflict(self, entries: Seq<ManifestEntry>) -> Option<Seq<char>> {
        match (self.validator, self.base) {
            (Some(validator), Some(base)) => validator.partition_conflict(base, entries),
            _ => None,
        }
    }

    /// What is to be done about a manifest with these entries.
    pub open spec fn plan(self, manifest: ManifestFile, entries: Seq<ManifestEntry>) -> ManifestPlan {
        if self.affects(entries) {
            ManifestPlan::Rewrite { entries: self.rewritten(entries) }
        } else if manifest.has_added_files || manifest.has_existing_files {
            ManifestPlan::Keep
        } else {
            ManifestPlan::Drop
        }
    }
}

/// What the next entry of a manifest adds.
proof fn lemma_next_entry(removal: Removal, entries: Seq<ManifestEntry>, entry: ManifestEntry)
    ensures
        removal.affects(entries.push(entry)) == (removal.affects(entries) || removal.removes(
            entry,
        )),
        removal.rewritten(entries.push(entry)) == if entry.alive() {
            removal.rewritten(entries).push(removal.mark(entry))
        } else {
            removal.rewritten(entries)
        },
        removal.found(entries.push(entry)) == if removal.removes(entry) {
            removal.found(entries).insert(entry.data_file.file_path@)
        } else {
            removal.found(entries)
        },
{
    let more = entries.push(entry);
    if removal.affects(entries) {
        let i = choose|i: int| 0 <= i < entries.len() && removal.removes(#[trigger] entries[i]);
        assert(removal.removes(more[i]));
    }
    if removal.removes(entry) {
        assert(removal.removes(more[entries.len() as int]));
    }
    reveal(Seq::filter);
    assert(more.drop_last() =~= entries);
    assert(removal.rewritten(more) =~= if entry.alive() {
        removal.rewritten(entries).push(removal.mark(entry))
    } else {
        removal.rewritten(entries)
    });
    assert forall|path: Seq<char>|
        #![trigger has_file(more, path)]
        has_file(more, path) == (has_file(entries, path) || entry.alive()
            && entry.data_file.file_path@ == path) by {
        lemma_has_file_push(entries, entry, path);
    }
    assert(removal.found(more) =~= if removal.removes(entry) {
        removal.found(entries).insert(entry.data_file.file_path@)
    } else {
        removal.found(entries)
    });
}

/// The next step of working out the manifests of the new snapshot, and what is
/// known so far.
pub enum StepView {
    /// Load the list of the manifests of the snapshot that the action started
    /// from; that of the current snapshot is `manifest_list`.
    LoadBaseManifestList {
        removal: Removal,
        base_manifest_list: Seq<char>,
        manifest_list: Seq<char>,
    },
    /// Load the entries of a manifest of that snapshot.
    LoadBaseManifest {
        removal: Removal,
        manifest: ManifestFile,
        pending: Seq<ManifestFile>,
        base: Set<Seq<char>>,
        manifest_list: Seq<char>,
    },
    /// Load the list of the current snapshot's manifests.
    LoadManifestList { removal: Removal, manifest_list: Seq<char> },
    /// Load the entries of a manifest.
    LoadManifest {
        removal: Removal,
        manifest: ManifestFile,
        pending: Seq<ManifestFile>,
        collected: Seq<ManifestFile>,
        found: Set<Seq<char>>,
    },
    /// Write a manifest.
    WriteManifest {
        removal: Removal,
        entries: Seq<ManifestEntry>,
        content: ManifestContentType,
        pending: Seq<ManifestFile>,
        collected: Seq<ManifestFile>,
        found: Set<Seq<char>>,
    },
    /// Nothing: these are the manifests.
    Done { manifests: Seq<ManifestFile> },
    /// Nothing: the action is refused.
    Refused { error: ErrorView },
}

impl StepView {
    /// The last step: the collected manifests, unless a conflict is found with
    /// a current snapshot that has, of the files to remove, those with the
    /// paths `found`.
    pub open spec fn finish(
        validator: Option<RewriteValidatorView>,
        collected: Seq<ManifestFile>,
        found: Set<Seq<char>>,
    ) -> StepView {
        let conflict = match validator {
            Some(validator) => validator.file_conflict(found),
            None => None,
        };
        match conflict {
            Some(message) => StepView::Refused { error: data_invalid(message) },
            None => StepView::Done { manifests: collected },
        }
    }

    /// The step for the manifests that are still pending.
    pub open spec fn next(
        removal: Removal,
        pending: Seq<ManifestFile>,
        collected: Seq<ManifestFile>,
        found: Set<Seq<char>>,
    ) -> StepView {
        if pending.len() == 0 {
            StepView::finish(removal.validator, collected, found)
        } else {
            StepView::LoadManifest {
                removal,
                manifest: pending[0],
                pending: pending.skip(1),
                collected,
                found,
            }
        }
    }

    /// The step for the manifests that are still pending of the snapshot that
    /// the action started from. Its files so far have the paths `base`.
    pub open spec fn next_base(
        removal: Removal,
        pending: Seq<ManifestFile>,
        base: Set<Seq<char>>,
        manifest_list: Seq<char>,
    ) -> StepView {
        if pending.len() == 0 {
            StepView::LoadManifestList {
                removal: Removal { base: Some(base), ..removal },
                manifest_list,
            }
        } else {
            StepView::LoadBaseManifest {
                removal,
                manifest: pending[0],
                pending: pending.skip(1),
                base,
                manifest_list,
            }
        }
    }

    /// The first step on the given table.
    pub open spec fn first(operation: RewriteOperationView, table: TableMetadataView) -> StepView {
        match table.current_snapshot() {
            Some(snapshot) => {
                let removal = operation.removal(snapshot.snapshot_id, None);
                match operation.base_snapshot(table) {
                    Some(base_snapshot) => StepView::LoadBaseManifestList {
                        removal,
                        base_manifest_list: base_snapshot.manifest_list@,
                        manifest_list: snapshot.manifest_list@,
                    },
                    None => StepView::LoadManifestList {
                        removal,
                        manifest_list: snapshot.manifest_list@,
                    },
                }
            },
            None => StepView::finish(operation.validator, seq![], Set::empty()),
        }
    }

    /// The step after a manifest with the given entries was loaded. A file that
    /// was added to an affected partition makes it the last one.
    pub open spec fn after_load(
        removal: Removal,
        manifest: ManifestFile,
        pending: Seq<ManifestFile>,
        collected: Seq<ManifestFile>,
        found: Set<Seq<char>>,
        entries: Seq<ManifestEntry>,
    ) -> StepView {
        match removal.partition_conflict(entries) {
            Some(message) => StepView::Refused { error: data_invalid(message) },
            None => StepView::after_check(removal, manifest, pending, collected, found, entries),
        }
    }

    /// The step after it was checked that no file of the manifest was added to
    /// an affected partition.
    pub open spec fn after_check(
        removal: Removal,
        manifest: ManifestFile,
        pending: Seq<ManifestFile>,
        collected: Seq<ManifestFile>,
        found: Set<Seq<char>>,
        entries: Seq<ManifestEntry>,
    ) -> StepView {
        let found = found.union(removal.found(entries));
        match removal.plan(manifest, entries) {
            ManifestPlan::Rewrite { entries } => StepView::WriteManifest {
                removal,
                entries,
                content: manifest.content,
                pending,
                collected,
                found,
            },
            ManifestPlan::Keep => StepView::next(
                removal,
                pending,
                collected.push(manifest),
                found,
            ),
            ManifestPlan::Drop => StepView::next(removal, pending, collected, found),
        }
    }
}

/// A removal that is under way.
struct Task {
    operation: RewriteOperation,
    snapshot_id: i64,
    base: Option<StringHashSet>,
}

impl View for Task {
    type V = Removal;

    closed spec fn view(&self) -> Removal {
        self.operation@.removal(
            self.snapshot_id,
            match self.base {
                Some(base) => Some(base@),
                None => None,
            },
        )
    }
}

/// Waiting for the list of the manifests of the snapshot that the action
/// started from.
pub struct AwaitingBaseManifestList {
    task: Task,
    manifest_list: String,
}

/// Waiting for the entries of a manifest of the snapshot that the action
/// started from.
pub struct AwaitingBaseManifest {
    task: Task,
    manifest: ManifestFile,
    pending: Vec<ManifestFile>,
    base: StringHashSet,
    manifest_list: String,
}

/// Waiting for the list of the current snapshot's manifests.
pub struct AwaitingManifestList {
    task: Task,
}

/// Waiting for the entries of a manifest.
pub struct AwaitingManifest {
    task: Task,
    manifest: ManifestFile,
    pending: Vec<ManifestFile>,
    collected: Vec<ManifestFile>,
    found: StringHashSet,
}

/// Waiting for a manifest to be written.
pub struct AwaitingWrite {
    task: Task,
    pending: Vec<ManifestFile>,
    collected: Vec<ManifestFile>,
    found: StringHashSet,
}

/// What to do next to work out the manifests of the new snapshot.
pub enum ManifestStep {
    /// Load the list of manifests from this location, and hand it to
    /// [`AwaitingBaseManifestList::loaded`].
    LoadBaseManifestList {
        /// The location of the list.
        manifest_list: String,
        /// What waits for it.
        state: AwaitingBaseManifestList,
    },
    /// Load the entries of [`AwaitingBaseManifest::manifest`], and hand them to
    /// [`AwaitingBaseManifest::loaded`].
    LoadBaseManifest {
        /// What waits for them.
        state: AwaitingBaseManifest,
    },
    /// Load the list of manifests from this location, and hand it to
    /// [`AwaitingManifestList::loaded`].
    LoadManifestList {
        /// The location of the list.
        manifest_list: String,
        /// What waits for it.
        state: AwaitingManifestList,
    },
    /// Load the entries of [`AwaitingManifest::manifest`], and hand them to
    /// [`AwaitingManifest::loaded`].
    LoadManifest {
        /// What waits for them.
        state: AwaitingManifest,
    },
    /// Write a manifest with these entries, and hand it to
    /// [`AwaitingWrite::written`].
    WriteManifest {
        /// The entries to write.
        entries: Vec<ManifestEntry>,
        /// What the files of the manifest hold.
        content: ManifestContentType,
        /// What waits for the manifest.
        state: AwaitingWrite,
    },
    /// Nothing is left to do.
    Done {
        /// The manifests that the new snapshot takes over.
        manifests: Vec<ManifestFile>,
    },
    /// The action is refused: a file to remove is not part of the current
    /// snapshot, or a file was added to an affected partition. Manifests that were written on the way belong to no snapshot.
    Refused {
        /// The error.
        error: Error,
    },
}

impl AwaitingBaseManifestList {
    /// What is removed.
    pub closed spec fn removal(self) -> Removal {
        self.task@
    }

    /// Where the list of the current snapshot's manifests is.
    pub closed spec fn manifest_list(self) -> Seq<char> {
        self.manifest_list@
    }
}

impl AwaitingBaseManifest {
    /// What is removed.
    pub closed spec fn removal(self) -> Removal {
        self.task@
    }

    /// The manifest whose entries are awaited.
    pub closed spec fn awaited(self) -> ManifestFile {
        self.manifest
    }

    /// The manifests that come after it.
    pub closed spec fn pending(self) -> Seq<ManifestFile> {
        self.pending@
    }

    /// The paths of the files of the snapshot so far.
    pub closed spec fn base(self) -> Set<Seq<char>> {
        self.base@
    }

    /// Where the list of the current snapshot's manifests is.
    pub closed spec fn manifest_list(self) -> Seq<char> {
        self.manifest_list@
    }
}

impl AwaitingManifestList {
    /// What is removed.
    pub closed spec fn removal(self) -> Removal {
        self.task@
    }
}

impl AwaitingManifest {
    /// What is removed.
    pub closed spec fn removal(self) -> Removal {
        self.task@
    }

    /// The manifest whose entries are awaited.
    pub closed spec fn awaited(self) -> ManifestFile {
        self.manifest
    }

    /// The manifests that come after it.
    pub closed spec fn pending(self) -> Seq<ManifestFile> {
        self.pending@
    }

    /// The manifests of the new snapshot so far.
    pub closed spec fn collected(self) -> Seq<ManifestFile> {
        self.collected@
    }

    /// The paths of the files to remove that were found so far.
    pub closed spec fn found(self) -> Set<Seq<char>> {
        self.found@
    }
}

impl AwaitingWrite {
    /// What is removed.
    pub closed spec fn removal(self) -> Removal {
        self.task@
    }

    /// The manifests that come after the one that is written.
    pub closed spec fn pending(self) -> Seq<ManifestFile> {
        self.pending@
    }

    /// The manifests of the new snapshot so far.
    pub closed spec fn collected(self) -> Seq<ManifestFile> {
        self.collected@
    }

    /// The paths of the files to remove that were found so far.
    pub closed spec fn found(self) -> Set<Seq<char>> {
        self.found@
    }
}

impl View for ManifestStep {
    type V = StepView;

    open spec fn view(&self) -> StepView {
        match self {
            ManifestStep::LoadBaseManifestList {
                manifest_list,
                state,
            } => StepView::LoadBaseManifestList {
                removal: state.removal(),
                base_manifest_list: manifest_list@,
                manifest_list: state.manifest_list(),
            },
            ManifestStep::LoadBaseManifest { state } => StepView::LoadBaseManifest {
                removal: state.removal(),
                manifest: state.awaited(),
                pending: state.pending(),
                base: state.base(),
                manifest_list: state.manifest_list(),
            },
            ManifestStep::LoadManifestList { manifest_list, state } => StepView::LoadManifestList {
                removal: state.removal(),
                manifest_list: manifest_list@,
            },
            ManifestStep::LoadManifest { state } => StepView::LoadManifest {
                removal: state.removal(),
                manifest: state.awaited(),
                pending: state.pending(),
                collected: state.collected(),
                found: state.found(),
            },
            ManifestStep::WriteManifest { entries, content, state } => StepView::WriteManifest {
                removal: state.removal(),
                entries: entries@,
                content: *content,
                pending: state.pending(),
                collected: state.collected(),
                found: state.found(),
            },
            ManifestStep::Done { manifests } => StepView::Done { manifests: manifests@ },
            ManifestStep::Refused { error } => StepView::Refused { error: error@ },
        }
    }
}

/// The last step: the collected manifests, unless a conflict is found.
fn finish(
    validator: &Option<RewriteValidator>,
    collected: Vec<ManifestFile>,
    found: &StringHashSet,
) -> (r: ManifestStep)
    ensures
        r@ == StepView::finish(validator_view(*validator), collected@, found@),
{
    if let Some(validator) = validator {
        match validator.validate_paths(found) {
            Err(error) => {
                return ManifestStep::Refused { error };
            },
            Ok(_) => {},
        }
    }
    ManifestStep::Done { manifests: collected }
}

/// The step for the manifests that are still pending.
fn next_step(
    task: Task,
    pending: Vec<ManifestFile>,
    collected: Vec<ManifestFile>,
    found: StringHashSet,
) -> (r: ManifestStep)
    ensures
        r@ == StepView::next(task@, pending@, collected@, found@),
{
    let mut pending = pending;
    if pending.is_empty() {
        return finish(&task.operation.validator, collected, &found);
    }
    let ghost all = pending@;
    let manifest = pending.remove(0);
    assert(pending@ =~= all.skip(1));
    ManifestStep::LoadManifest {
        state: AwaitingManifest { task, manifest, pending, collected, found },
    }
}

/// The step for the manifests that are still pending of the snapshot that the
/// action started from.
fn next_base_step(
    task: Task,
    pending: Vec<ManifestFile>,
    base: StringHashSet,
    manifest_list: String,
) -> (r: ManifestStep)
    ensures
        r@ == StepView::next_base(task@, pending@, base@, manifest_list@),
{
    let mut pending = pending;
    if pending.is_empty() {
        let task = Task { base: Some(base), ..task };
        return ManifestStep::LoadManifestList {
            manifest_list,
            state: AwaitingManifestList { task },
        };
    }
    let ghost all = pending@;
    let manifest = pending.remove(0);
    assert(pending@ =~= all.skip(1));
    ManifestStep::LoadBaseManifest {
        state: AwaitingBaseManifest { task, manifest, pending, base, manifest_list },
    }
}

impl RewriteOperation {
    /// The operation that removes the files with the given paths, and detects
    /// conflicts by the validator, with what was committed since the given
    /// snapshot if there is one.
    pub(crate) fn new(
        files_to_delete_paths: StringHashSet,
        validator: Option<RewriteValidator>,
        base_snapshot_id: Option<i64>,
    ) -> (r: RewriteOperation)
        ensures
            r@ == (RewriteOperationView {
                paths: files_to_delete_paths@,
                validator: validator_view(validator),
                base_snapshot_id,
            }),
    {
        RewriteOperation { files_to_delete_paths, validator, base_snapshot_id }
    }

    /// The snapshot whose files those of the current one are to be compared
    /// with, if there is one.
    fn base_snapshot<'a>(&self, table: &'a Table) -> (r: Option<&'a Snapshot>)
        ensures
            match r {
                Some(snapshot) => self@.base_snapshot(table@) == Some(*snapshot),
                None => self@.base_snapshot(table@) is None,
            },
    {
        let metadata = table.metadata();
        if let Some(validator) = &self.validator {
            if let Some(base_id) = self.base_snapshot_id {
                if let Some(current) = metadata.current_snapshot() {
                    if validator.validates_partitions() && base_id != current.snapshot_id() {
                        return metadata.snapshot_by_id(base_id);
                    }
                }
            }
        }
        None
    }

    /// The operation that the new snapshot is marked with.
    pub fn operation(&self) -> (r: Operation)
        ensures
            r == Operation::Replace,
    {
        Operation::Replace
    }

    /// Entries of deleted files to write besides those of the existing
    /// manifests: none, for these hold them all.
    pub fn delete_entries(&self) -> (r: Vec<ManifestEntry>)
        ensures
            r@ == Seq::<ManifestEntry>::empty(),
    {
        Vec::new()
    }

}

impl Task {
    /// The entries of a manifest after the removal, and whether a file was
    /// removed. The paths of the removed files are added to `found`.
    fn rewrite_entries(
        &self,
        entries: Vec<ManifestEntry>,
        found: &mut StringHashSet,
    ) -> (r: (bool, Vec<ManifestEntry>))
        ensures
            r.0 == self@.affects(entries@),
            r.1@ == self@.rewritten(entries@),
            final(found)@ == old(found)@.union(self@.found(entries@)),
    {
        let snapshot_id = self.snapshot_id;
        let ghost removal = self@;
        let ghost all = entries@;
        let ghost before = found@;
        let mut has_deletes = false;
        let mut modified: Vec<ManifestEntry> = Vec::new();
        assert(modified@ =~= removal.rewritten(all.take(0))) by {
            reveal(Seq::filter);
        }
        assert(found@ =~= before.union(removal.found(all.take(0))));
        for entry in it: entries
            invariant
                it.seq() == all,
                removal == self@,
                snapshot_id == self.snapshot_id,
                has_deletes == removal.affects(all.take(it.index())),
                modified@ == removal.rewritten(all.take(it.index())),
                found@ == before.union(removal.found(all.take(it.index()))),
        {
            let ghost i = it.index();
            let ghost seen = found@;
            proof {
                assert(all.take(i + 1) =~= all.take(i).push(entry));
                lemma_next_entry(removal, all.take(i), entry);
            }
            if self.operation.files_to_delete_paths.contains(entry.data_file.file_path.as_str()) {
                if entry.is_alive() {
                    has_deletes = true;
                    found.insert(entry.data_file.file_path.clone());
                    let deleted = ManifestEntry {
                        status: ManifestStatus::Deleted,
                        snapshot_id: Some(
                            match entry.snapshot_id {
                                Some(own_id) => own_id,
                                None => snapshot_id,
                            },
                        ),
                        sequence_number: entry.sequence_number,
                        file_sequence_number: entry.file_sequence_number,
                        data_file: entry.data_file,
                    };
                    modified.push(deleted);
                }
            } else if entry.is_alive() {
                modified.push(entry);
            }
            assert(found@ =~= before.union(removal.found(all.take(i + 1))));
        }
        assert(all.take(all.len() as int) =~= all);
        (has_deletes, modified)
    }

}

impl RewriteOperation {
    /// The first step of working out the manifests of the table's current
    /// snapshot that the new snapshot takes over, without the files to remove.
    pub fn existing_manifest(self, table: &Table) -> (r: ManifestStep)
        ensures
            r@ == StepView::first(self@, table@),
    {
        let snapshot = match table.metadata().current_snapshot() {
            Some(snapshot) => snapshot,
            None => {
                return finish(&self.validator, Vec::new(), &StringHashSet::new());
            },
        };
        let manifest_list = snapshot.manifest_list.clone();
        let base_snapshot = self.base_snapshot(table);
        let task = Task { operation: self, snapshot_id: snapshot.snapshot_id(), base: None };
        match base_snapshot {
            Some(base_snapshot) => ManifestStep::LoadBaseManifestList {
                manifest_list: base_snapshot.manifest_list.clone(),
                state: AwaitingBaseManifestList { task, manifest_list },
            },
            None => ManifestStep::LoadManifestList {
                manifest_list,
                state: AwaitingManifestList { task },
            },
        }
    }
}

impl AwaitingBaseManifestList {
    /// The step after the list of the manifests was loaded.
    pub fn loaded(self, manifests: Vec<ManifestFile>) -> (r: ManifestStep)
        ensures
            r@ == StepView::next_base(
                self.removal(),
                manifests@,
                Set::empty(),
                self.manifest_list(),
            ),
    {
        next_base_step(self.task, manifests, StringHashSet::new(), self.manifest_list)
    }
}

impl AwaitingBaseManifest {
    /// The manifest whose entries are to be loaded.
    pub fn manifest(&self) -> (r: &ManifestFile)
        ensures
            *r == self.awaited(),
    {
        &self.manifest
    }

    /// The step after the entries of the manifest were loaded.
    pub fn loaded(self, entries: Vec<ManifestEntry>) -> (r: ManifestStep)
        ensures
            r@ == StepView::next_base(
                self.removal(),
                self.pending(),
                self.base().union(live_paths(entries@)),
                self.manifest_list(),
            ),
    {
        let mut base = self.base;
        insert_live_paths(entries.as_slice(), &mut base);
        next_base_step(self.task, self.pending, base, self.manifest_list)
    }
}

impl AwaitingManifestList {
    /// The step after the list of the manifests was loaded.
    pub fn loaded(self, manifests: Vec<ManifestFile>) -> (r: ManifestStep)
        ensures
            r@ == StepView::next(self.removal(), manifests@, seq![], Set::empty()),
    {
        next_step(self.task, manifests, Vec::new(), StringHashSet::new())
    }
}

impl AwaitingManifest {
    /// The manifest whose entries are to be loaded.
    pub fn manifest(&self) -> (r: &ManifestFile)
        ensures
            *r == self.awaited(),
    {
        &self.manifest
    }

    /// The step after the entries of the manifest were loaded: a file that was
    /// added to an affected partition makes the action refused; a manifest with
    /// a file to remove is written anew, another one is kept if it may have
    /// files.
    pub fn loaded(self, entries: Vec<ManifestEntry>) -> (r: ManifestStep)
        ensures
            r@ == StepView::after_load(
                self.removal(),
                self.awaited(),
                self.pending(),
                self.collected(),
                self.found(),
                entries@,
            ),
    {
        if let Some(validator) = &self.task.operation.validator {
            if let Some(base) = &self.task.base {
                match validator.validate_added(base, entries.as_slice()) {
                    Err(error) => {
                        return ManifestStep::Refused { error };
                    },
                    Ok(_) => {},
                }
            }
        }
        let mut found = self.found;
        let (has_deletes, modified) = self.task.rewrite_entries(entries, &mut found);
        if has_deletes {
            return ManifestStep::WriteManifest {
                entries: modified,
                content: self.manifest.content,
                state: AwaitingWrite {
                    task: self.task,
                    pending: self.pending,
                    collected: self.collected,
                    found,
                },
            };
        }
        let mut collected = self.collected;
        if self.manifest.has_added_files || self.manifest.has_existing_files {
            collected.push(self.manifest);
        }
        next_step(self.task, self.pending, collected, found)
    }
}

impl AwaitingWrite {
    /// The step after the manifest was written.
    pub fn written(self, manifest: ManifestFile) -> (r: ManifestStep)
        ensures
            r@ == StepView::next(
                self.removal(),
                self.pending(),
                self.collected().push(manifest),
                self.found(),
            ),
    {
        let mut collected = self.collected;
        collected.push(manifest);
        next_step(self.task, self.pending, collected, self.found)
    }
}

/// How the entries of a manifest are encoded.
#[derive(Debug, Clone, Copy, PartialEq, Eq, Structural)]
pub enum ManifestWriterKind {
    /// In version 1 of the format.
    V1,
    /// In version 2, of data files.
    V2Data,
    /// In version 2, of files of deletes.
    V2Deletes,
    /// In version 3, of data files.
    V3Data,
    /// In version 3, of files of deletes.
    V3Deletes,
}

/// A manifest to be written.
#[derive(Debug, Clone)]
pub struct ManifestWriteRequest {
    /// Where to write it.
    pub path: String,
    /// How to encode its entries.
    pub writer: ManifestWriterKind,
    /// The snapshot that it is written for; none if that is inherited.
    pub snapshot_id: Option<i64>,
    /// Key metadata of the manifest.
    pub key_metadata: Option<Vec<u8>>,
    /// The schema that it is written with.
    pub schema_id: i32,
    /// The partition spec that it is written with.
    pub partition_spec_id: i32,
    /// Its entries, in order.
    pub entries: Vec<ManifestEntry>,
}

/// The path of a new manifest of a table, made from a UUID and the time in
/// milliseconds.
pub open spec fn manifest_path(location: Seq<char>, uuid: u128, millis: i64) -> Seq<char> {
    location + "/metadata/"@ + uuid_text(uuid) + "-m"@ + int_text(millis as int) + ".avro"@
}

/// How the entries of a manifest of the given table format and content are
/// encoded.
pub open spec fn writer_kind(version: FormatVersion, content: ManifestContentType) -> ManifestWriterKind {
    match (version, content) {
        (FormatVersion::V1, _) => ManifestWriterKind::V1,
        (FormatVersion::V2, ManifestContentType::Data) => ManifestWriterKind::V2Data,
        (FormatVersion::V2, ManifestContentType::Deletes) => ManifestWriterKind::V2Deletes,
        (FormatVersion::V3, ManifestContentType::Data) => ManifestWriterKind::V3Data,
        (FormatVersion::V3, ManifestContentType::Deletes) => ManifestWriterKind::V3Deletes,
    }
}

/// Whether `request` is to write the entries as a manifest of the table, at the
/// path made from the UUID and the time.
pub open spec fn requests_manifest(
    request: ManifestWriteRequest,
    table: TableMetadataView,
    entries: Seq<ManifestEntry>,
    content: ManifestContentType,
    uuid: u128,
    millis: i64,
) -> bool {
    &&& request.path@ == manifest_path(table.location, uuid, millis)
    &&& request.writer == writer_kind(table.format_version, content)
    &&& request.snapshot_id is None
    &&& request.key_metadata is None
    &&& request.schema_id == table.current_schema_id
    &&& request.partition_spec_id == table.default_partition_spec_id
    &&& request.entries@ == entries
}

impl ManifestWriteRequest {
    /// The request to write the entries as a manifest of the table, at the
    /// path made from the UUID and the time in milliseconds.
    pub fn new(
        table: &Table,
        entries: Vec<ManifestEntry>,
        content: ManifestContentType,
        uuid: Uuid,
        millis: i64,
    ) -> (r: ManifestWriteRequest)
        ensures
            requests_manifest(r, table@, entries@, content, uuid.value, millis),
            r.path@ == table@.location + "/metadata/"@ + uuid_text(uuid.value) + "-m"@ + int_text(
                millis as int,
            ) + ".avro"@,
            match table@.format_version {
                FormatVersion::V1 => r.writer == ManifestWriterKind::V1,
                FormatVersion::V2 => r.writer == match content {
                    ManifestContentType::Data => ManifestWriterKind::V2Data,
                    ManifestContentType::Deletes => ManifestWriterKind::V2Deletes,
                },
                FormatVersion::V3 => r.writer == match content {
                    ManifestContentType::Data => ManifestWriterKind::V3Data,
                    ManifestContentType::Deletes => ManifestWriterKind::V3Deletes,
                },
            },
            r.snapshot_id is None,
            r.key_metadata is None,
            r.schema_id == table@.current_schema_id,
            r.partition_spec_id == table@.default_partition_spec_id,
            r.entries@ == entries@,
    {
        let metadata = table.metadata();
        let mut path = metadata.location().to_string();
        path.append("/metadata/");
        path.append(display(uuid.value).as_str());
        path.append("-m");
        push_i64(&mut path, millis);
        path.append(".avro");
        let writer = match metadata.format_version() {
            FormatVersion::V1 => ManifestWriterKind::V1,
            FormatVersion::V2 => match content {
                ManifestContentType::Data => ManifestWriterKind::V2Data,
                ManifestContentType::Deletes => ManifestWriterKind::V2Deletes,
            },
            FormatVersion::V3 => match content {
                ManifestContentType::Data => ManifestWriterKind::V3Data,
                ManifestContentType::Deletes => ManifestWriterKind::V3Deletes,
            },
        };
        ManifestWriteRequest {
            path,
            writer,
            snapshot_id: None,
            key_metadata: None,
            schema_id: metadata.current_schema_id(),
            partition_spec_id: metadata.default_partition_spec_id(),
            entries,
        }
    }
}

impl RewriteOperation {
    /// The request to write the entries as a manifest of the table, at a fresh
    /// path.
    pub fn write_manifest_with_entries(
        table: &Table,
        entries: Vec<ManifestEntry>,
        content: ManifestContentType,
    ) -> (r: ManifestWriteRequest)
        ensures
            exists|uuid: u128, millis: i64|
                {
                    &&& #[trigger] requests_manifest(r, table@, entries@, content, uuid, millis)
                    &&& uuid_version(uuid) == 4
                    &&& has_standard_variant(uuid)
                    &&& millis >= 0
                    &&& r.path@ == table@.location + "/metadata/"@ + uuid_text(uuid) + "-m"@
                        + int_text(millis as int) + ".avro"@
                },
            match table@.format_version {
                FormatVersion::V1 => r.writer == ManifestWriterKind::V1,
                FormatVersion::V2 => r.writer == match content {
                    ManifestContentType::Data => ManifestWriterKind::V2Data,
                    ManifestContentType::Deletes => ManifestWriterKind::V2Deletes,
                },
                FormatVersion::V3 => r.writer == match content {
                    ManifestContentType::Data => ManifestWriterKind::V3Data,
                    ManifestContentType::Deletes => ManifestWriterKind::V3Deletes,
                },
            },
            r.snapshot_id is None,
            r.key_metadata is None,
            r.schema_id == table@.current_schema_id,
            r.partition_spec_id == table@.default_partition_spec_id,
            r.entries@ == entries@,
    {
        let uuid = Uuid { value: new_v4() };
        let millis: i64 = now_millis();
        ManifestWriteRequest::new(table, entries, content, uuid, millis)
    }
}

} // verus!
