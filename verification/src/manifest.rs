//! Manifests: the lists of the files of a table.

use vstd::hash_set::StringHashSet;
use vstd::prelude::*;

use crate::data_file::DataFile;

verus! {

/// What became of a file in the snapshot that its manifest was written for.
#[derive(Debug, Clone, Copy, PartialEq, Eq, Structural)]
pub enum ManifestStatus {
    /// The file was there before.
    Existing,
    /// The file was added.
    Added,
    /// The file was deleted.
    Deleted,
}

/// An entry of a manifest: a file and what became of it.
#[derive(Debug, Clone)]
pub struct ManifestEntry {
    /// What became of the file.
    pub status: ManifestStatus,
    /// The snapshot in which that happened, if it is not inherited.
    pub snapshot_id: Option<i64>,
    /// The sequence number of the file's data, if it is not inherited.
    pub sequence_number: Option<i64>,
    /// The sequence number with which the file was added, if it is not
    /// inherited.
    pub file_sequence_number: Option<i64>,
    /// The file.
    pub data_file: DataFile,
}

impl ManifestEntry {
    /// Whether the file is part of the table.
    pub open spec fn alive(self) -> bool {
        self.status != ManifestStatus::Deleted
    }

    /// Whether the file is part of the table.
    pub fn is_alive(&self) -> (r: bool)
        ensures
            r == self.alive(),
            r <==> self.status == ManifestStatus::Existing || self.status == ManifestStatus::Added,
    {
        match self.status {
            ManifestStatus::Existing => true,
            ManifestStatus::Added => true,
            ManifestStatus::Deleted => false,
        }
    }
}

/// Whether a file with the given path is part of the table by these entries.
pub open spec fn has_file(entries: Seq<ManifestEntry>, path: Seq<char>) -> bool {
    exists|i: int|
        {
            &&& 0 <= i < entries.len()
            &&& (#[trigger] entries[i]).alive()
            &&& entries[i].data_file.file_path@ == path
        }
}

/// The paths of the files that are part of the table by these entries.
pub open spec fn live_paths(entries: Seq<ManifestEntry>) -> Set<Seq<char>> {
    Set::new(|path: Seq<char>| has_file(entries, path))
}

/// What the next entry adds to the files that are part of the table.
pub proof fn lemma_has_file_push(
    entries: Seq<ManifestEntry>,
    entry: ManifestEntry,
    path: Seq<char>,
)
    ensures
        has_file(entries.push(entry), path) == (has_file(entries, path) || entry.alive()
            && entry.data_file.file_path@ == path),
{
    let more = entries.push(entry);
    if has_file(entries, path) {
        let i = choose|i: int|
            {
                &&& 0 <= i < entries.len()
                &&& (#[trigger] entries[i]).alive()
                &&& entries[i].data_file.file_path@ == path
            };
        assert(more[i] == entries[i]);
    }
    if entry.alive() && entry.data_file.file_path@ == path {
        assert(more[entries.len() as int] == entry);
    }
    if has_file(more, path) {
        let i = choose|i: int|
            {
                &&& 0 <= i < more.len()
                &&& (#[trigger] more[i]).alive()
                &&& more[i].data_file.file_path@ == path
            };
        if i < entries.len() {
            assert(entries[i] == more[i]);
        }
    }
}

/// Adds the paths of the files that are part of the table by these entries.
pub(crate) fn insert_live_paths(entries: &[ManifestEntry], paths: &mut StringHashSet)
    ensures
        final(paths)@ == old(paths)@.union(live_paths(entries@)),
{
    let ghost before = paths@;
    let mut i: usize = 0;
    assert(paths@ =~= before.union(live_paths(entries@.take(0))));
    while i < entries.len()
        invariant
            i <= entries.len(),
            paths@ == before.union(live_paths(entries@.take(i as int))),
        decreases entries.len() - i,
    {
        let ghost seen = entries@.take(i as int);
        if entries[i].is_alive() {
            paths.insert(entries[i].data_file.file_path.clone());
        }
        proof {
            let entry = entries@[i as int];
            assert(entries@.take(i + 1) =~= seen.push(entry));
            assert forall|path: Seq<char>|
                has_file(seen.push(entry), path) == (has_file(seen, path) || entry.alive()
                    && entry.data_file.file_path@ == path) by {
                lemma_has_file_push(seen, entry, path);
            }
            assert(paths@ =~= before.union(live_paths(entries@.take(i + 1))));
        }
        i = i + 1;
    }
    assert(entries@.take(i as int) =~= entries@);
}

/// What the files of a manifest hold.
#[derive(Debug, Clone, Copy, PartialEq, Eq, Structural)]
pub enum ManifestContentType {
    /// Rows.
    Data,
    /// Deletes of rows.
    Deletes,
}

/// A manifest, as the list of manifests of a snapshot knows it.
#[derive(Debug, Clone, PartialEq, Eq)]
pub struct ManifestFile {
    /// Where the manifest is stored.
    pub manifest_path: String,
    /// What the files of the manifest hold.
    pub content: ManifestContentType,
    /// Whether the manifest may have entries of added files.
    pub has_added_files: bool,
    /// Whether the manifest may have entries of existing files.
    pub has_existing_files: bool,
}

/// A file is part of the table exactly if it was there before or was added,
/// whatever else its entry says.
pub proof fn law_existing_and_added_files_are_alive(entry: ManifestEntry)
    ensures
        entry.alive() <==> entry.status is Existing || entry.status is Added,
{
}

/// A list of entries has the files of both of its parts.
pub proof fn law_files_of_both_parts(
    first: Seq<ManifestEntry>,
    second: Seq<ManifestEntry>,
    path: Seq<char>,
)
    ensures
        has_file(first + second, path) <==> has_file(first, path) || has_file(second, path),
        live_paths(first + second).contains(path) <==> has_file(first + second, path),
    decreases second.len(),
{
    if second.len() == 0 {
        assert(first + second =~= first);
    } else {
        let rest = second.drop_last();
        law_files_of_both_parts(first, rest, path);
        lemma_has_file_push(first + rest, second.last(), path);
        lemma_has_file_push(rest, second.last(), path);
        assert((first + rest).push(second.last()) =~= first + second);
        assert(rest.push(second.last()) =~= second);
    }
}

/// A single entry has its own file, if that is part of the table, and no other.
pub proof fn law_file_of_one_entry(entry: ManifestEntry, path: Seq<char>)
    ensures
        has_file(seq![entry], path) <==> entry.status != ManifestStatus::Deleted
            && entry.data_file.file_path@ == path,
{
    lemma_has_file_push(seq![], entry, path);
    assert(Seq::<ManifestEntry>::empty().push(entry) =~= seq![entry]);
}

} // verus!
