//! Detecting conflicts between an action and what was committed since it
//! started.

use vstd::hash_set::StringHashSet;
use vstd::prelude::*;
use vstd::string::StringExecFns;

use crate::data_file::{file_paths, partitions_of, DataFile, LiteralView, PartitionSet};
use crate::error::{data_invalid, Error, ErrorKind};
use crate::manifest::{has_file, insert_live_paths, live_paths, ManifestEntry};
use crate::snapshot::Snapshot;
use crate::text::{int_text, push_i64};

verus! {

/// Decides whether an action can still be committed safely: whether what was
/// committed between the snapshot that it started from and the current one
/// conflicts with it.
pub trait SnapshotValidator: Send + Sync {
    /// Checks the snapshot that the action started from against the current
    /// one, and returns an error if there is a conflict.
    fn validate(&self, base_snapshot: &Snapshot, current_snapshot: &Snapshot) -> Result<(), Error>;
}

/// The validator of actions that rewrite files.
///
/// It finds a conflict
/// - if a file that the action removes is no longer part of the current
///   snapshot,
/// - if files, of rows or of deletes, were added to the affected partitions, or
/// - if the current snapshot was committed later than the one that the action
///   started from: either may then have happened.
///
/// The last it tells from the snapshots alone ([`SnapshotValidator`]). The
/// others it tells from the entries of the manifests
/// ([`RewriteValidator::validate_files`],
/// [`RewriteValidator::validate_partitions`]), however the current snapshot
/// came to be the current one. With neither check enabled it finds no
/// conflict.
#[derive(Debug, Clone)]
pub struct RewriteValidator {
    files_to_remove: Vec<String>,
    affected_partitions: Option<PartitionSet>,
    check_concurrent_deletes: bool,
}

/// What a [`RewriteValidator`] detects.
pub struct RewriteValidatorView {
    /// The paths of the files that the action removes, in order.
    pub files_to_remove: Seq<Seq<char>>,
    /// The partitions that no file may have been added to, if that is to be
    /// detected.
    pub affected_partitions: Option<Set<Seq<Option<LiteralView>>>>,
    /// Whether deletes of the files being rewritten are to be detected.
    pub check_concurrent_deletes: bool,
}

/// The texts of the strings.
spec fn texts(strings: Seq<String>) -> Seq<Seq<char>> {
    strings.map_values(|string: String| string@)
}

impl View for RewriteValidator {
    type V = RewriteValidatorView;

    closed spec fn view(&self) -> RewriteValidatorView {
        RewriteValidatorView {
            files_to_remove: texts(self.files_to_remove@),
            affected_partitions: match self.affected_partitions {
                Some(partitions) => Some(partitions@),
                None => None,
            },
            check_concurrent_deletes: self.check_concurrent_deletes,
        }
    }
}

/// The message for a snapshot committed later than the one that an action
/// started from.
pub open spec fn concurrent_modification(base_sequence: i64, current_sequence: i64) -> Seq<char> {
    "Concurrent modification detected: base sequence "@ + int_text(base_sequence as int)
        + " != current sequence "@ + int_text(current_sequence as int)
        + ". Files may have been added, removed, or modified in affected partitions."@
}

/// The message for a file to remove that is not part of the current snapshot.
pub open spec fn missing_file(path: Seq<char>) -> Seq<char> {
    "Concurrent modification detected: file to remove '"@ + path
        + "' does not exist in the current snapshot"@
}

/// The message for a file that was added to an affected partition.
pub open spec fn added_file(path: Seq<char>) -> Seq<char> {
    "Concurrent modification detected: file '"@ + path
        + "' was added to an affected partition"@
}

impl RewriteValidatorView {
    /// Detects nothing of an action that removes the files with these paths.
    pub open spec fn lenient(files_to_remove: Seq<Seq<char>>) -> RewriteValidatorView {
        RewriteValidatorView {
            files_to_remove,
            affected_partitions: None,
            check_concurrent_deletes: false,
        }
    }

    /// Detects, besides, files added to the partitions of the given files.
    pub open spec fn partition_validation(self, files: Seq<DataFile>) -> RewriteValidatorView {
        RewriteValidatorView { affected_partitions: Some(partitions_of(files)), ..self }
    }

    /// Detects, besides, deletes of the files being rewritten.
    pub open spec fn concurrent_delete_check(self) -> RewriteValidatorView {
        RewriteValidatorView { check_concurrent_deletes: true, ..self }
    }

    /// Whether anything is to be detected.
    pub open spec fn enabled(self) -> bool {
        self.affected_partitions is Some || self.check_concurrent_deletes
    }

    /// The message of the conflict that the two snapshots show by themselves,
    /// if they show one.
    pub open spec fn snapshot_conflict(self, base: Snapshot, current: Snapshot) -> Option<
        Seq<char>,
    > {
        if base.snapshot_id != current.snapshot_id && current.sequence_number
            > base.sequence_number && self.enabled() {
            Some(concurrent_modification(base.sequence_number, current.sequence_number))
        } else {
            None
        }
    }

    /// Whether file `i` is the first one to remove that is not among the files
    /// with the paths `live`.
    pub open spec fn first_missing(self, live: Set<Seq<char>>, i: int) -> bool {
        &&& 0 <= i < self.files_to_remove.len()
        &&& !live.contains(self.files_to_remove[i])
        &&& forall|j: int| 0 <= j < i ==> live.contains(#[trigger] self.files_to_remove[j])
    }

    /// The message of the conflict with a current snapshot whose files have the
    /// paths `live`, if there is one: it names the first file to remove that is
    /// not among them.
    pub open spec fn file_conflict(self, live: Set<Seq<char>>) -> Option<Seq<char>> {
        if self.enabled() && exists|i: int| self.first_missing(live, i) {
            let i = choose|i: int| self.first_missing(live, i);
            Some(missing_file(self.files_to_remove[i]))
        } else {
            None
        }
    }

    /// Whether the entry of the current snapshot is of a file that was added to
    /// an affected partition: it is part of the table, and not among the files
    /// with the paths `base`.
    pub open spec fn adds(self, base: Set<Seq<char>>, entry: ManifestEntry) -> bool {
        match self.affected_partitions {
            Some(partitions) => {
                &&& entry.alive()
                &&& partitions.contains(entry.data_file.partition@)
                &&& !base.contains(entry.data_file.file_path@)
            },
            None => false,
        }
    }

    /// Whether entry `i` is the first one of a file that was added to an
    /// affected partition.
    pub open spec fn first_added(
        self,
        base: Set<Seq<char>>,
        current: Seq<ManifestEntry>,
        i: int,
    ) -> bool {
        &&& 0 <= i < current.len()
        &&& self.adds(base, current[i])
        &&& forall|j: int| 0 <= j < i ==> !self.adds(base, #[trigger] current[j])
    }

    /// The message of the conflict between a base snapshot whose files have the
    /// paths `base` and a current one with the given entries, if there is one:
    /// it names the first file that was added to an affected partition.
    pub open spec fn partition_conflict(
        self,
        base: Set<Seq<char>>,
        current: Seq<ManifestEntry>,
    ) -> Option<Seq<char>> {
        if exists|i: int| self.first_added(base, current, i) {
            let i = choose|i: int| self.first_added(base, current, i);
            Some(added_file(current[i].data_file.file_path@))
        } else {
            None
        }
    }
}

/// The first file that is missing is one of those up to `n`, if any of these is.
proof fn lemma_first_missing(validator: RewriteValidatorView, live: Set<Seq<char>>, n: int)
    requires
        0 <= n < validator.files_to_remove.len(),
        !live.contains(validator.files_to_remove[n]),
    ensures
        exists|i: int| validator.first_missing(live, i),
    decreases n,
{
    if exists|j: int| 0 <= j < n && !live.contains(#[trigger] validator.files_to_remove[j]) {
        let j = choose|j: int|
            0 <= j < n && !live.contains(#[trigger] validator.files_to_remove[j]);
        lemma_first_missing(validator, live, j);
    } else {
        assert(validator.first_missing(live, n));
    }
}

/// The first file that was added is one of those up to entry `n`, if any of
/// these was.
proof fn lemma_first_added(
    validator: RewriteValidatorView,
    base: Set<Seq<char>>,
    current: Seq<ManifestEntry>,
    n: int,
)
    requires
        0 <= n < current.len(),
        validator.adds(base, current[n]),
    ensures
        exists|i: int| validator.first_added(base, current, i),
    decreases n,
{
    if exists|j: int| 0 <= j < n && validator.adds(base, #[trigger] current[j]) {
        let j = choose|j: int| 0 <= j < n && validator.adds(base, #[trigger] current[j]);
        lemma_first_added(validator, base, current, j);
    } else {
        assert(validator.first_added(base, current, n));
    }
}

impl RewriteValidator {
    /// A validator for an action that removes the given files. It detects
    /// nothing as long as nothing is enabled.
    pub fn new(files_to_remove: Vec<DataFile>) -> (r: RewriteValidator)
        ensures
            r@ == RewriteValidatorView::lenient(file_paths(files_to_remove@)),
            r@.files_to_remove.len() == files_to_remove@.len(),
            forall|i: int|
                0 <= i < files_to_remove@.len() ==> #[trigger] r@.files_to_remove[i]
                    == files_to_remove@[i].file_path@,
            r@.affected_partitions is None,
            !r@.check_concurrent_deletes,
    {
        let mut paths: Vec<String> = Vec::new();
        let mut i: usize = 0;
        while i < files_to_remove.len()
            invariant
                i <= files_to_remove.len(),
                paths.len() == i,
                forall|j: int|
                    0 <= j < i ==> (#[trigger] paths@[j])@ == files_to_remove@[j].file_path@,
            decreases files_to_remove.len() - i,
        {
            paths.push(files_to_remove[i].file_path.clone());
            i = i + 1;
        }
        assert(texts(paths@) =~= file_paths(files_to_remove@));
        RewriteValidator {
            files_to_remove: paths,
            affected_partitions: None,
            check_concurrent_deletes: false,
        }
    }

    /// Detects that files were added to the partitions of the given files.
    pub fn with_partition_validation(self, files_to_remove: &[DataFile]) -> (r: RewriteValidator)
        ensures
            r@ == self@.partition_validation(files_to_remove@),
            r@ == (RewriteValidatorView {
                affected_partitions: Some(partitions_of(files_to_remove@)),
                ..self@
            }),
    {
        RewriteValidator { affected_partitions: Some(PartitionSet::of(files_to_remove)), ..self }
    }

    /// Detects that deletes were applied to the files being rewritten.
    pub fn with_concurrent_delete_check(self) -> (r: RewriteValidator)
        ensures
            r@ == self@.concurrent_delete_check(),
            r@ == (RewriteValidatorView { check_concurrent_deletes: true, ..self@ }),
    {
        RewriteValidator { check_concurrent_deletes: true, ..self }
    }

    /// Whether files added to affected partitions are to be detected.
    pub(crate) fn validates_partitions(&self) -> (r: bool)
        ensures
            r == (self@.affected_partitions is Some),
    {
        self.affected_partitions.is_some()
    }

    /// Checks that every file to remove is among the files with the given
    /// paths.
    pub(crate) fn validate_paths(&self, live: &StringHashSet) -> (r: Result<(), Error>)
        ensures
            match self@.file_conflict(live@) {
                None => r is Ok,
                Some(message) => r is Err && r->Err_0@ == data_invalid(message),
            },
    {
        if self.affected_partitions.is_none() && !self.check_concurrent_deletes {
            return Ok(());
        }
        let mut i: usize = 0;
        while i < self.files_to_remove.len()
            invariant
                i <= self.files_to_remove.len(),
                self@.enabled(),
                self@.files_to_remove == texts(self.files_to_remove@),
                forall|j: int| 0 <= j < i ==> live@.contains(#[trigger] self@.files_to_remove[j]),
            decreases self.files_to_remove.len() - i,
        {
            let path = &self.files_to_remove[i];
            assert(self@.files_to_remove[i as int] == path@);
            if !live.contains(path.as_str()) {
                assert(self@.first_missing(live@, i as int));
                let mut message =
                    "Concurrent modification detected: file to remove '".to_string();
                message.append(path.as_str());
                message.append("' does not exist in the current snapshot");
                return Err(Error::new(ErrorKind::DataInvalid, message));
            }
            i = i + 1;
        }
        Ok(())
    }

    /// Checks that every file to remove is still part of the current snapshot,
    /// whose manifests have the entries `live`. An error names the first file
    /// that is not.
    pub fn validate_files(&self, live: &[ManifestEntry]) -> (r: Result<(), Error>)
        ensures
            r is Ok <==> !self@.enabled() || forall|path: Seq<char>|
                self@.files_to_remove.contains(path) ==> has_file(live@, path),
            self@.enabled() <==> self@.affected_partitions is Some
                || self@.check_concurrent_deletes,
            match self@.file_conflict(live_paths(live@)) {
                None => r is Ok,
                Some(message) => r is Err && r->Err_0@ == data_invalid(message),
            },
    {
        let mut paths = StringHashSet::new();
        insert_live_paths(live, &mut paths);
        assert(paths@ =~= live_paths(live@));
        proof {
            law_files_to_remove_must_exist(self@, live_paths(live@));
            assert forall|path: Seq<char>|
                #![trigger has_file(live@, path)]
                #![trigger self@.files_to_remove.contains(path)]
                live_paths(live@).contains(path) == has_file(live@, path) by {}
        }
        self.validate_paths(&paths)
    }

    /// Checks that no entry is of a file that was added to an affected
    /// partition, that is, of one that is not among the files with the paths
    /// `base`.
    pub(crate) fn validate_added(&self, base: &StringHashSet, current: &[ManifestEntry]) -> (r:
        Result<(), Error>)
        ensures
            match self@.partition_conflict(base@, current@) {
                None => r is Ok,
                Some(message) => r is Err && r->Err_0@ == data_invalid(message),
            },
    {
        if let Some(partitions) = &self.affected_partitions {
            let mut i: usize = 0;
            while i < current.len()
                invariant
                    i <= current.len(),
                    self@.affected_partitions == Some(partitions@),
                    forall|j: int| 0 <= j < i ==> !self@.adds(base@, #[trigger] current@[j]),
                decreases current.len() - i,
            {
                let entry = &current[i];
                let file = &entry.data_file;
                if entry.is_alive() && partitions.contains(&file.partition) && !base.contains(
                    file.file_path.as_str(),
                ) {
                    assert(self@.first_added(base@, current@, i as int));
                    let mut message = "Concurrent modification detected: file '".to_string();
                    message.append(file.file_path.as_str());
                    message.append("' was added to an affected partition");
                    return Err(Error::new(ErrorKind::DataInvalid, message));
                }
                i = i + 1;
            }
        }
        Ok(())
    }

    /// Checks that no file was added to an affected partition since the
    /// snapshot that the action started from. The manifests of that snapshot
    /// have the entries `base`, those of the current one the entries
    /// `current`. An error names the first file that was added.
    pub fn validate_partitions(&self, base: &[ManifestEntry], current: &[ManifestEntry]) -> (r:
        Result<(), Error>)
        ensures
            r is Ok <==> (self@.affected_partitions matches Some(partitions) ==> forall|i: int|
                0 <= i < current@.len() && (#[trigger] current@[i]).alive() && partitions.contains(
                    current@[i].data_file.partition@,
                ) ==> has_file(base@, current@[i].data_file.file_path@)),
            match self@.partition_conflict(live_paths(base@), current@) {
                None => r is Ok,
                Some(message) => r is Err && r->Err_0@ == data_invalid(message),
            },
    {
        let mut paths = StringHashSet::new();
        insert_live_paths(base, &mut paths);
        assert(paths@ =~= live_paths(base@));
        proof {
            law_no_file_may_be_added_to_affected_partitions(self@, paths@, current@);
            if let Some(partitions) = self@.affected_partitions {
                assert forall|i: int| 0 <= i < current@.len() implies (self@.adds(
                    paths@,
                    #[trigger] current@[i],
                ) <==> current@[i].alive() && partitions.contains(
                    current@[i].data_file.partition@,
                ) && !has_file(base@, current@[i].data_file.file_path@)) by {}
            }
        }
        self.validate_added(&paths, current)
    }
}

impl SnapshotValidator for RewriteValidator {
    /// Checks what the two snapshots show by themselves.
    fn validate(&self, base_snapshot: &Snapshot, current_snapshot: &Snapshot) -> (r: Result<
        (),
        Error,
    >)
        ensures
            match self@.snapshot_conflict(*base_snapshot, *current_snapshot) {
                None => r is Ok,
                Some(message) => r is Err && r->Err_0@ == data_invalid(message),
            },
            r is Err <==> {
                &&& base_snapshot.snapshot_id != current_snapshot.snapshot_id
                &&& current_snapshot.sequence_number > base_snapshot.sequence_number
                &&& self@.affected_partitions is Some || self@.check_concurrent_deletes
            },
    {
        if base_snapshot.snapshot_id() == current_snapshot.snapshot_id() {
            return Ok(());
        }
        if current_snapshot.sequence_number() > base_snapshot.sequence_number() {
            if self.affected_partitions.is_some() || self.check_concurrent_deletes {
                let mut message = "Concurrent modification detected: base sequence ".to_string();
                push_i64(&mut message, base_snapshot.sequence_number());
                message.append(" != current sequence ");
                push_i64(&mut message, current_snapshot.sequence_number());
                message.append(
                    ". Files may have been added, removed, or modified in affected partitions.",
                );
                return Err(Error::new(ErrorKind::DataInvalid, message));
            }
        }
        Ok(())
    }
}

/// With either of the checks enabled, there is no conflict exactly if every
/// file to remove is still among the files of the current snapshot, whichever
/// snapshot that is.
pub proof fn law_files_to_remove_must_exist(validator: RewriteValidatorView, live: Set<Seq<char>>)
    ensures
        validator.file_conflict(live) is None <==> !validator.enabled() || forall|path: Seq<char>|
            validator.files_to_remove.contains(path) ==> live.contains(path),
{
    let files = validator.files_to_remove;
    if exists|path: Seq<char>| files.contains(path) && !live.contains(path) {
        let path = choose|path: Seq<char>| files.contains(path) && !live.contains(path);
        let n = choose|n: int| 0 <= n < files.len() && files[n] == path;
        lemma_first_missing(validator, live, n);
    }
    if exists|i: int| validator.first_missing(live, i) {
        let i = choose|i: int| validator.first_missing(live, i);
        assert(files.contains(files[i]));
    }
}

/// There is no conflict over the affected partitions exactly if each file of
/// the current snapshot in one of them was there in the base snapshot, whatever
/// the sequence numbers of the two are.
pub proof fn law_no_file_may_be_added_to_affected_partitions(
    validator: RewriteValidatorView,
    base: Set<Seq<char>>,
    current: Seq<ManifestEntry>,
)
    ensures
        validator.partition_conflict(base, current) is None <==> forall|i: int|
            0 <= i < current.len() ==> !validator.adds(base, #[trigger] current[i]),
{
    if exists|n: int| 0 <= n < current.len() && validator.adds(base, #[trigger] current[n]) {
        let n = choose|n: int| 0 <= n < current.len() && validator.adds(base, #[trigger] current[n]);
        lemma_first_added(validator, base, current, n);
    }
    if exists|i: int| validator.first_added(base, current, i) {
        let i = choose|i: int| validator.first_added(base, current, i);
        assert(validator.adds(base, current[i]));
    }
}

/// Two snapshots with the same id show no conflict, whatever is to be detected.
pub proof fn law_same_snapshot_never_conflicts(
    validator: RewriteValidatorView,
    snapshot: Snapshot,
    current: Snapshot,
)
    requires
        snapshot.snapshot_id == current.snapshot_id,
    ensures
        validator.snapshot_conflict(snapshot, current) is None,
{
}

/// A validator for which nothing is enabled finds no conflict at all.
pub proof fn law_nothing_enabled_never_conflicts(
    files_to_remove: Seq<Seq<char>>,
    base: Snapshot,
    current: Snapshot,
    live: Set<Seq<char>>,
    entries: Seq<ManifestEntry>,
)
    ensures
        RewriteValidatorView::lenient(files_to_remove).snapshot_conflict(base, current) is None,
        RewriteValidatorView::lenient(files_to_remove).file_conflict(live) is None,
        RewriteValidatorView::lenient(files_to_remove).partition_conflict(live, entries) is None,
{
}

/// With either of the two checks enabled, in whatever order and whatever else
/// is, the snapshots show a conflict by themselves exactly if the current one
/// is another one, committed later.
pub proof fn law_enabled_check_detects_later_snapshot(
    validator: RewriteValidatorView,
    files: Seq<DataFile>,
    base: Snapshot,
    current: Snapshot,
)
    ensures
        validator.partition_validation(files).snapshot_conflict(base, current) is Some
            <==> base.snapshot_id != current.snapshot_id && current.sequence_number
            > base.sequence_number,
        validator.concurrent_delete_check().snapshot_conflict(base, current)
            == validator.partition_validation(files).snapshot_conflict(base, current),
{
}

/// The two checks can be enabled in either order.
pub proof fn law_checks_commute(validator: RewriteValidatorView, files: Seq<DataFile>)
    ensures
        validator.partition_validation(files).concurrent_delete_check()
            == validator.concurrent_delete_check().partition_validation(files),
{
}

/// Two snapshots show a conflict by themselves exactly if they are different,
/// the current one has the higher sequence number, and anything is to be
/// detected, whatever that is. The message names both sequence numbers.
pub proof fn law_later_snapshots_conflict(
    validator: RewriteValidatorView,
    base: Snapshot,
    current: Snapshot,
)
    ensures
        ({
            let conflict = validator.snapshot_conflict(base, current);
            &&& conflict is Some <==> {
                &&& base.snapshot_id != current.snapshot_id
                &&& current.sequence_number > base.sequence_number
                &&& validator.affected_partitions is Some || validator.check_concurrent_deletes
            }
            &&& conflict matches Some(message) ==> message
                == "Concurrent modification detected: base sequence "@ + int_text(
                base.sequence_number as int,
            ) + " != current sequence "@ + int_text(current.sequence_number as int)
                + ". Files may have been added, removed, or modified in affected partitions."@
        }),
{
}

/// A conflict over the files to remove is found exactly if anything is to be
/// detected and one of them is not among the files of the current snapshot. The
/// message names the first such file.
pub proof fn law_first_missing_file_is_named(validator: RewriteValidatorView, live: Set<Seq<char>>)
    ensures
        ({
            let files = validator.files_to_remove;
            let conflict = validator.file_conflict(live);
            &&& conflict is Some <==> (validator.affected_partitions is Some
                || validator.check_concurrent_deletes) && exists|i: int|
                0 <= i < files.len() && !live.contains(#[trigger] files[i])
            &&& conflict matches Some(message) ==> exists|i: int|
                {
                    &&& 0 <= i < files.len()
                    &&& !live.contains(#[trigger] files[i])
                    &&& forall|j: int| 0 <= j < i ==> live.contains(#[trigger] files[j])
                    &&& message == "Concurrent modification detected: file to remove '"@ + files[i]
                        + "' does not exist in the current snapshot"@
                }
        }),
{
    let files = validator.files_to_remove;
    if exists|i: int| 0 <= i < files.len() && !live.contains(#[trigger] files[i]) {
        let n = choose|n: int| 0 <= n < files.len() && !live.contains(#[trigger] files[n]);
        lemma_first_missing(validator, live, n);
    }
    if exists|i: int| validator.first_missing(live, i) {
        let i = choose|i: int| validator.first_missing(live, i);
        assert(!live.contains(files[i]));
    }
}

/// A conflict over the affected partitions is found exactly if these are to be
/// watched and a file of the current snapshot in one of them, part of the table,
/// is not among the files of the base snapshot. The message names the first
/// such file.
pub proof fn law_first_added_file_is_named(
    validator: RewriteValidatorView,
    base: Set<Seq<char>>,
    current: Seq<ManifestEntry>,
)
    ensures
        ({
            let conflict = validator.partition_conflict(base, current);
            &&& validator.affected_partitions is None ==> conflict is None
            &&& validator.affected_partitions matches Some(partitions) ==> {
                &&& conflict is Some <==> exists|i: int|
                    {
                        &&& 0 <= i < current.len()
                        &&& (#[trigger] current[i]).alive()
                        &&& partitions.contains(current[i].data_file.partition@)
                        &&& !base.contains(current[i].data_file.file_path@)
                    }
                &&& conflict matches Some(message) ==> exists|i: int|
                    {
                        &&& 0 <= i < current.len()
                        &&& (#[trigger] current[i]).alive()
                        &&& partitions.contains(current[i].data_file.partition@)
                        &&& !base.contains(current[i].data_file.file_path@)
                        &&& message == "Concurrent modification detected: file '"@
                            + current[i].data_file.file_path@
                            + "' was added to an affected partition"@
                        &&& forall|j: int|
                            0 <= j < i && (#[trigger] current[j]).alive() && partitions.contains(
                                current[j].data_file.partition@,
                            ) ==> base.contains(current[j].data_file.file_path@)
                    }
            }
        }),
{
    if let Some(partitions) = validator.affected_partitions {
        if exists|i: int|
            {
                &&& 0 <= i < current.len()
                &&& (#[trigger] current[i]).alive()
                &&& partitions.contains(current[i].data_file.partition@)
                &&& !base.contains(current[i].data_file.file_path@)
            } {
            let n = choose|n: int|
                {
                    &&& 0 <= n < current.len()
                    &&& (#[trigger] current[n]).alive()
                    &&& partitions.contains(current[n].data_file.partition@)
                    &&& !base.contains(current[n].data_file.file_path@)
                };
            lemma_first_added(validator, base, current, n);
        }
        if exists|i: int| validator.first_added(base, current, i) {
            let i = choose|i: int| validator.first_added(base, current, i);
            assert(current[i].alive());
            assert forall|j: int|
                0 <= j < i && (#[trigger] current[j]).alive() && partitions.contains(
                    current[j].data_file.partition@,
                ) implies base.contains(current[j].data_file.file_path@) by {
                assert(!validator.adds(base, current[j]));
            }
        }
    } else if exists|i: int| validator.first_added(base, current, i) {
        let i = choose|i: int| validator.first_added(base, current, i);
        assert(validator.adds(base, current[i]));
    }
}

/// Enabling a check enables that check and leaves the files to remove and the
/// other check as they are.
pub proof fn law_a_check_is_enabled_by_itself(
    validator: RewriteValidatorView,
    files_to_remove: Seq<Seq<char>>,
    files: Seq<DataFile>,
)
    ensures
        ({
            let lenient = RewriteValidatorView::lenient(files_to_remove);
            let partitions = validator.partition_validation(files);
            let deletes = validator.concurrent_delete_check();
            &&& lenient.files_to_remove == files_to_remove
            &&& lenient.affected_partitions is None
            &&& !lenient.check_concurrent_deletes
            &&& partitions.affected_partitions == Some(partitions_of(files))
            &&& partitions.files_to_remove == validator.files_to_remove
            &&& partitions.check_concurrent_deletes == validator.check_concurrent_deletes
            &&& deletes.check_concurrent_deletes
            &&& deletes.files_to_remove == validator.files_to_remove
            &&& deletes.affected_partitions == validator.affected_partitions
        }),
{
}

} // verus!
