//! Replacing data files of a table by others.

use std::collections::HashMap;

use vstd::hash_set::StringHashSet;
use vstd::prelude::*;

use crate::data_file::{file_paths, paths_of, DataContentType, DataFile};
use crate::error::{data_invalid, Error, ErrorKind};
use crate::ids::{has_standard_variant, now_v7, uuid_version, Uuid};
use crate::metadata::{Table, TableMetadataView};
use crate::producer::SnapshotProducer;
use crate::rewrite_operation::{validator_view, RewriteOperation, RewriteOperationView};
use crate::validator::{RewriteValidator, RewriteValidatorView, SnapshotValidator};

verus! {

/// An action that removes data files from a table and adds others in their
/// place, in one transaction.
///
/// It serves to combine small files into larger ones, to change how files are
/// encoded or sorted, and whatever else replaces files without changing the
/// rows of the table.
#[derive(Debug, Clone)]
pub struct RewriteFilesAction {
    files_to_delete: Vec<DataFile>,
    files_to_add: Vec<DataFile>,
    snapshot_properties: HashMap<String, String>,
    check_concurrent_deletes: bool,
    commit_uuid: Option<Uuid>,
    key_metadata: Option<Vec<u8>>,
    validate_from_snapshot_id: Option<i64>,
}

/// What a [`RewriteFilesAction`] is to do.
#[verifier::ext_equal]
pub struct RewriteFilesView {
    /// The files to remove.
    pub files_to_delete: Seq<DataFile>,
    /// The files to add.
    pub files_to_add: Seq<DataFile>,
    /// Properties for the summary of the new snapshot.
    pub snapshot_properties: Map<String, String>,
    /// Whether deletes of the files to remove are to be detected.
    pub check_concurrent_deletes: bool,
    /// The id of the commit, if it is given.
    pub commit_uuid: Option<Uuid>,
    /// Key metadata for the manifests that are written.
    pub key_metadata: Option<Seq<u8>>,
    /// The snapshot from which on conflicts are detected, if they are.
    pub validate_from_snapshot_id: Option<i64>,
}

impl View for RewriteFilesAction {
    type V = RewriteFilesView;

    closed spec fn view(&self) -> RewriteFilesView {
        RewriteFilesView {
            files_to_delete: self.files_to_delete@,
            files_to_add: self.files_to_add@,
            snapshot_properties: self.snapshot_properties@,
            check_concurrent_deletes: self.check_concurrent_deletes,
            commit_uuid: self.commit_uuid,
            key_metadata: bytes_view(self.key_metadata),
            validate_from_snapshot_id: self.validate_from_snapshot_id,
        }
    }
}

/// The bytes, if there are any given.
pub open spec fn bytes_view(bytes: Option<Vec<u8>>) -> Option<Seq<u8>> {
    match bytes {
        Some(bytes) => Some(bytes@),
        None => None,
    }
}

/// Why a file cannot be added to a table with the given default partition
/// spec, if it cannot.
pub open spec fn file_rejection(file: DataFile, default_partition_spec_id: i32) -> Option<
    Seq<char>,
> {
    if file.content != DataContentType::Data {
        Some("Only data content type is allowed for rewrite files"@)
    } else if file.partition_spec_id != default_partition_spec_id {
        Some("Data file partition spec id does not match table default partition spec id"@)
    } else {
        None
    }
}

/// Whether file `i` is the first one that cannot be added.
pub open spec fn first_rejected_file(
    files: Seq<DataFile>,
    default_partition_spec_id: i32,
    i: int,
) -> bool {
    &&& 0 <= i < files.len()
    &&& file_rejection(files[i], default_partition_spec_id) is Some
    &&& forall|j: int|
        0 <= j < i ==> file_rejection(#[trigger] files[j], default_partition_spec_id) is None
}

/// Why the files cannot be added, if they cannot: the reason of the first one
/// that cannot.
pub open spec fn files_rejection(files: Seq<DataFile>, default_partition_spec_id: i32) -> Option<
    Seq<char>,
> {
    if exists|i: int| first_rejected_file(files, default_partition_spec_id, i) {
        let i = choose|i: int| first_rejected_file(files, default_partition_spec_id, i);
        file_rejection(files[i], default_partition_spec_id)
    } else {
        None
    }
}

impl RewriteFilesView {
    /// The action that removes further files.
    pub open spec fn deleting(self, files: Seq<DataFile>) -> RewriteFilesView {
        RewriteFilesView { files_to_delete: self.files_to_delete + files, ..self }
    }

    /// The action that adds further files.
    pub open spec fn adding(self, files: Seq<DataFile>) -> RewriteFilesView {
        RewriteFilesView { files_to_add: self.files_to_add + files, ..self }
    }

    /// The action that detects conflicts with what was committed since the
    /// given snapshot, if one is given.
    pub open spec fn validating_from(self, snapshot_id: Option<i64>) -> RewriteFilesView {
        RewriteFilesView { validate_from_snapshot_id: snapshot_id, ..self }
    }

    /// The action that also detects deletes of the files to remove.
    pub open spec fn checking_deletes(self) -> RewriteFilesView {
        RewriteFilesView { check_concurrent_deletes: true, ..self }
    }

    /// How conflicts are detected, if they are: with a snapshot to validate
    /// from, everything is; without one, deletes of the files to remove are,
    /// where that was asked for.
    pub open spec fn validator(self) -> Option<RewriteValidatorView> {
        let lenient = RewriteValidatorView::lenient(file_paths(self.files_to_delete));
        if self.validate_from_snapshot_id is Some {
            Some(lenient.partition_validation(self.files_to_delete).concurrent_delete_check())
        } else if self.check_concurrent_deletes {
            Some(lenient.concurrent_delete_check())
        } else {
            None
        }
    }

    /// The operation that removes the files.
    pub open spec fn operation(self) -> RewriteOperationView {
        RewriteOperationView {
            paths: paths_of(self.files_to_delete),
            validator: self.validator(),
            base_snapshot_id: self.validate_from_snapshot_id,
        }
    }

    /// The message of the conflict that the snapshot to validate from and the
    /// current one show by themselves, if they show one. There is none if there
    /// is no snapshot to validate from, if the table lacks it, or if the table
    /// has no current one.
    pub open spec fn snapshot_conflict(self, table: TableMetadataView) -> Option<Seq<char>> {
        match (self.validator(), self.validate_from_snapshot_id, table.current_snapshot()) {
            (Some(validator), Some(base_id), Some(current)) if table.snapshots.contains_key(
                base_id,
            ) => validator.snapshot_conflict(table.snapshots[base_id], current),
            _ => None,
        }
    }

    /// The message with which the table rejects the action, if it does.
    pub open spec fn rejection(self, table: TableMetadataView) -> Option<Seq<char>> {
        if self.files_to_delete.len() == 0 {
            Some("RewriteFiles requires at least one file to delete"@)
        } else if self.files_to_add.len() == 0 {
            Some("RewriteFiles requires at least one file to add"@)
        } else {
            match files_rejection(self.files_to_add, table.default_partition_spec_id) {
                Some(message) => Some(message),
                None => self.snapshot_conflict(table),
            }
        }
    }
}

fn invalid(message: &str) -> (r: Error)
    ensures
        r@ == data_invalid(message@),
{
    Error::new(ErrorKind::DataInvalid, message.to_string())
}

fn path_set(files: &Vec<DataFile>) -> (r: StringHashSet)
    ensures
        r@ == paths_of(files@),
{
    let mut paths = StringHashSet::new();
    let ghost all = file_paths(files@);
    let mut i: usize = 0;
    assert(paths@ =~= all.take(0).to_set());
    while i < files.len()
        invariant
            i <= files.len(),
            all == file_paths(files@),
            paths@ == all.take(i as int).to_set(),
        decreases files.len() - i,
    {
        paths.insert(files[i].file_path.clone());
        i = i + 1;
        proof {
            let before = all.take(i - 1);
            let path = files@[i - 1].file_path@;
            assert(all.take(i as int) =~= before.push(path));
            before.lemma_push_to_set_commute(path);
        }
    }
    assert(all.take(i as int) =~= all);
    paths
}

impl RewriteFilesAction {
    /// An action without files.
    pub fn new() -> (r: RewriteFilesAction)
        ensures
            r@ == (RewriteFilesView {
                files_to_delete: seq![],
                files_to_add: seq![],
                snapshot_properties: Map::empty(),
                check_concurrent_deletes: false,
                commit_uuid: None,
                key_metadata: None,
                validate_from_snapshot_id: None,
            }),
    {
        RewriteFilesAction {
            files_to_delete: Vec::new(),
            files_to_add: Vec::new(),
            snapshot_properties: HashMap::new(),
            check_concurrent_deletes: false,
            commit_uuid: None,
            key_metadata: None,
            validate_from_snapshot_id: None,
        }
    }

    /// Removes further files from the table.
    pub fn delete_files(self, files: Vec<DataFile>) -> (r: RewriteFilesAction)
        ensures
            r@ == self@.deleting(files@),
            r@ == (RewriteFilesView { files_to_delete: self@.files_to_delete + files@, ..self@ }),
    {
        let mut files_to_delete = self.files_to_delete;
        let mut more = files;
        files_to_delete.append(&mut more);
        RewriteFilesAction { files_to_delete, ..self }
    }

    /// Adds further files to the table.
    pub fn add_files(self, files: Vec<DataFile>) -> (r: RewriteFilesAction)
        ensures
            r@ == self@.adding(files@),
            r@ == (RewriteFilesView { files_to_add: self@.files_to_add + files@, ..self@ }),
    {
        let mut files_to_add = self.files_to_add;
        let mut more = files;
        files_to_add.append(&mut more);
        RewriteFilesAction { files_to_add, ..self }
    }

    /// Sets the properties for the summary of the new snapshot.
    pub fn set_snapshot_properties(self, props: HashMap<String, String>) -> (r: RewriteFilesAction)
        ensures
            r@ == (RewriteFilesView { snapshot_properties: props@, ..self@ }),
    {
        RewriteFilesAction { snapshot_properties: props, ..self }
    }

    /// Sets the id of the commit.
    pub fn set_commit_uuid(self, commit_uuid: Uuid) -> (r: RewriteFilesAction)
        ensures
            r@ == (RewriteFilesView { commit_uuid: Some(commit_uuid), ..self@ }),
    {
        RewriteFilesAction { commit_uuid: Some(commit_uuid), ..self }
    }

    /// Sets key metadata for the manifests that are written.
    pub fn set_key_metadata(self, key_metadata: Vec<u8>) -> (r: RewriteFilesAction)
        ensures
            r@ == (RewriteFilesView { key_metadata: Some(key_metadata@), ..self@ }),
    {
        RewriteFilesAction { key_metadata: Some(key_metadata), ..self }
    }

    /// Detects conflicts with what was committed since the given snapshot,
    /// if one is given: a file to remove that no longer exists, files added to
    /// the partitions of the files to remove, and deletes of these files. The
    /// files to remove are those that the action has when it is committed.
    /// On a table that lacks the snapshot, only the first is detected.
    pub fn validate_from_snapshot(self, snapshot_id: Option<i64>) -> (r: RewriteFilesAction)
        ensures
            r@ == self@.validating_from(snapshot_id),
            r@ == (RewriteFilesView { validate_from_snapshot_id: snapshot_id, ..self@ }),
    {
        RewriteFilesAction { validate_from_snapshot_id: snapshot_id, ..self }
    }

    /// Detects deletes of the files to remove, with or without a snapshot to
    /// validate from: each of them has to be part of the current snapshot.
    pub fn validate_no_concurrent_deletes(self) -> (r: RewriteFilesAction)
        ensures
            r@ == self@.checking_deletes(),
            r@ == (RewriteFilesView { check_concurrent_deletes: true, ..self@ }),
    {
        RewriteFilesAction { check_concurrent_deletes: true, ..self }
    }

    /// How conflicts are detected, if they are.
    fn validator(&self) -> (r: Option<RewriteValidator>)
        ensures
            validator_view(r) == self@.validator(),
    {
        let validating = self.validate_from_snapshot_id.is_some();
        if !validating && !self.check_concurrent_deletes {
            return None;
        }
        let files = self.files_to_delete.clone();
        assert(file_paths(files@) =~= file_paths(self.files_to_delete@));
        let validator = RewriteValidator::new(files);
        if validating {
            Some(
                validator.with_partition_validation(
                    self.files_to_delete.as_slice(),
                ).with_concurrent_delete_check(),
            )
        } else {
            Some(validator.with_concurrent_delete_check())
        }
    }

    /// Checks the action against the table.
    fn validate(&self, table: &Table) -> (r: Result<(), Error>)
        ensures
            match self@.rejection(table@) {
                None => r is Ok,
                Some(message) => r is Err && r->Err_0@ == data_invalid(message),
            },
    {
        if self.files_to_delete.is_empty() {
            return Err(invalid("RewriteFiles requires at least one file to delete"));
        }
        if self.files_to_add.is_empty() {
            return Err(invalid("RewriteFiles requires at least one file to add"));
        }
        let metadata = table.metadata();
        let spec_id = metadata.default_partition_spec_id();
        let mut i: usize = 0;
        while i < self.files_to_add.len()
            invariant
                i <= self.files_to_add.len(),
                self@.files_to_add == self.files_to_add@,
                self@.files_to_delete.len() > 0,
                self@.files_to_add.len() > 0,
                spec_id == table@.default_partition_spec_id,
                forall|j: int|
                    0 <= j < i ==> file_rejection(
                        #[trigger] self.files_to_add@[j],
                        spec_id,
                    ) is None,
            decreases self.files_to_add.len() - i,
        {
            let file = &self.files_to_add[i];
            if file.content != DataContentType::Data {
                assert(first_rejected_file(self.files_to_add@, spec_id, i as int));
                return Err(invalid("Only data content type is allowed for rewrite files"));
            }
            if spec_id != file.partition_spec_id {
                assert(first_rejected_file(self.files_to_add@, spec_id, i as int));
                return Err(
                    invalid(
                        "Data file partition spec id does not match table default partition spec id",
                    ),
                );
            }
            i = i + 1;
        }
        assert(files_rejection(self@.files_to_add, spec_id) is None);
        if let Some(validator) = self.validator() {
            if let Some(base_snapshot_id) = self.validate_from_snapshot_id {
                if let Some(base_snapshot) = metadata.snapshot_by_id(base_snapshot_id) {
                    if let Some(current_snapshot) = metadata.current_snapshot() {
                        return validator.validate(base_snapshot, current_snapshot);
                    }
                }
            }
        }
        Ok(())
    }

    /// What the action hands on, with the given id of the commit.
    fn prepare(self, commit_uuid: Uuid) -> (r: (SnapshotProducer, RewriteOperation))
        ensures
            self@.commit_uuid is None || self@.commit_uuid == Some(commit_uuid) ==> prepares(
                self@,
                r,
                commit_uuid,
            ),
            r.0.commit_uuid == commit_uuid,
    {
        let operation = RewriteOperation::new(
            path_set(&self.files_to_delete),
            self.validator(),
            self.validate_from_snapshot_id,
        );
        let producer = SnapshotProducer {
            commit_uuid,
            key_metadata: self.key_metadata,
            snapshot_properties: self.snapshot_properties,
            added_data_files: self.files_to_add,
        };
        (producer, operation)
    }

    /// What the new snapshot is produced from, and the operation that removes
    /// the files; or the error with which the table rejects the action. The
    /// id of the commit is the one that was set, and else the given one.
    pub fn commit_as(self, table: &Table, fresh_uuid: Uuid) -> (r: Result<
        (SnapshotProducer, RewriteOperation),
        Error,
    >)
        ensures
            match self@.rejection(table@) {
                None => r is Ok && prepares(self@, r->Ok_0, fresh_uuid),
                Some(message) => r is Err && r->Err_0@ == data_invalid(message),
            },
            r matches Ok(prepared) ==> {
                &&& prepared.0.commit_uuid == match self@.commit_uuid {
                    Some(commit_uuid) => commit_uuid,
                    None => fresh_uuid,
                }
                &&& prepared.0.key_metadata is Some <==> self@.key_metadata is Some
                &&& self@.key_metadata is Some ==> prepared.0.key_metadata->0@
                    == self@.key_metadata->0
                &&& prepared.0.snapshot_properties@ == self@.snapshot_properties
                &&& prepared.0.added_data_files@ == self@.files_to_add
                &&& self@.files_to_delete.len() > 0
                &&& self@.files_to_add.len() > 0
                &&& forall|i: int|
                    0 <= i < self@.files_to_add.len() ==> (
                    #[trigger] self@.files_to_add[i]).content == DataContentType::Data
                        && self@.files_to_add[i].partition_spec_id
                        == table@.default_partition_spec_id
            },
    {
        match self.validate(table) {
            Err(error) => {
                return Err(error);
            },
            Ok(_) => {},
        }
        proof {
            law_accepted_files_fit_the_table(self@, table@);
        }
        let commit_uuid = match self.commit_uuid {
            Some(commit_uuid) => commit_uuid,
            None => fresh_uuid,
        };
        Ok(self.prepare(commit_uuid))
    }

    /// What the new snapshot is produced from, and the operation that removes
    /// the files; or the error with which the table rejects the action. The
    /// id of the commit is the one that was set, and else a fresh one.
    pub fn commit(self, table: &Table) -> (r: Result<(SnapshotProducer, RewriteOperation), Error>)
        ensures
            match self@.rejection(table@) {
                None => {
                    &&& r is Ok
                    &&& prepares(self@, r->Ok_0, r->Ok_0.0.commit_uuid)
                    &&& self@.commit_uuid is None ==> uuid_version(r->Ok_0.0.commit_uuid.value) == 7
                        && has_standard_variant(r->Ok_0.0.commit_uuid.value)
                },
                Some(message) => r is Err && r->Err_0@ == data_invalid(message),
            },
            r matches Ok(prepared) ==> {
                &&& self@.commit_uuid is Some ==> prepared.0.commit_uuid == self@.commit_uuid->0
                &&& prepared.0.key_metadata is Some <==> self@.key_metadata is Some
                &&& self@.key_metadata is Some ==> prepared.0.key_metadata->0@
                    == self@.key_metadata->0
                &&& prepared.0.snapshot_properties@ == self@.snapshot_properties
                &&& prepared.0.added_data_files@ == self@.files_to_add
                &&& self@.files_to_delete.len() > 0
                &&& self@.files_to_add.len() > 0
                &&& forall|i: int|
                    0 <= i < self@.files_to_add.len() ==> (
                    #[trigger] self@.files_to_add[i]).content == DataContentType::Data
                        && self@.files_to_add[i].partition_spec_id
                        == table@.default_partition_spec_id
            },
    {
        match self.validate(table) {
            Err(error) => {
                return Err(error);
            },
            Ok(_) => {},
        }
        proof {
            law_accepted_files_fit_the_table(self@, table@);
        }
        let commit_uuid = match self.commit_uuid {
            Some(commit_uuid) => commit_uuid,
            None => Uuid { value: now_v7() },
        };
        Ok(self.prepare(commit_uuid))
    }
}

/// Whether `prepared` is what the accepted action hands on: its properties,
/// key metadata and files to add, the operation that removes its files, and
/// the id of the commit, which is `fresh_uuid` if the action has none.
pub open spec fn prepares(
    action: RewriteFilesView,
    prepared: (SnapshotProducer, RewriteOperation),
    fresh_uuid: Uuid,
) -> bool {
    let (producer, operation) = prepared;
    &&& producer.commit_uuid == match action.commit_uuid {
        Some(commit_uuid) => commit_uuid,
        None => fresh_uuid,
    }
    &&& bytes_view(producer.key_metadata) == action.key_metadata
    &&& producer.snapshot_properties@ == action.snapshot_properties
    &&& producer.added_data_files@ == action.files_to_add
    &&& operation@ == action.operation()
}

/// The first file that cannot be added is one of those up to file `n`, if any
/// of these cannot.
proof fn lemma_first_rejected_file(files: Seq<DataFile>, default_partition_spec_id: i32, n: int)
    requires
        0 <= n < files.len(),
        file_rejection(files[n], default_partition_spec_id) is Some,
    ensures
        exists|i: int| first_rejected_file(files, default_partition_spec_id, i),
    decreases n,
{
    if exists|j: int|
        0 <= j < n && file_rejection(#[trigger] files[j], default_partition_spec_id) is Some {
        let j = choose|j: int|
            0 <= j < n && file_rejection(#[trigger] files[j], default_partition_spec_id) is Some;
        lemma_first_rejected_file(files, default_partition_spec_id, j);
    } else {
        assert(first_rejected_file(files, default_partition_spec_id, n));
    }
}

/// An action that a table accepts has files to remove and files to add, and
/// each file to add holds rows and has the partition spec that is the table's
/// default.
pub proof fn law_accepted_files_fit_the_table(action: RewriteFilesView, table: TableMetadataView)
    requires
        action.rejection(table) is None,
    ensures
        action.files_to_delete.len() > 0,
        action.files_to_add.len() > 0,
        forall|i: int|
            0 <= i < action.files_to_add.len() ==> (#[trigger] action.files_to_add[i]).content
                == DataContentType::Data && action.files_to_add[i].partition_spec_id
                == table.default_partition_spec_id,
{
    let files = action.files_to_add;
    let spec_id = table.default_partition_spec_id;
    assert forall|i: int| 0 <= i < files.len() implies (#[trigger] files[i]).content
        == DataContentType::Data && files[i].partition_spec_id == spec_id by {
        if file_rejection(files[i], spec_id) is Some {
            lemma_first_rejected_file(files, spec_id, i);
        }
    }
}

} // verus!
