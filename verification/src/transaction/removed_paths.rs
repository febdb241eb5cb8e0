//! The paths of the files that a commit removes.
use vstd::hash_set::StringHashSet;
use vstd::prelude::*;

use crate::metadata::data_file::{DataContentType, DataFile};
use crate::metadata::manifest::ManifestEntry;

verus! {

/// The paths of the files that a commit removes, data files apart from delete files.
pub struct RemovedPaths {
    pub data_file_paths: StringHashSet,
    pub delete_file_paths: StringHashSet,
}

/// The removed paths as sets.
#[verifier::ext_equal]
pub struct RemovedPathsView {
    pub data_file_paths: Set<Seq<char>>,
    pub delete_file_paths: Set<Seq<char>>,
}

impl View for RemovedPaths {
    type V = RemovedPathsView;

    open spec fn view(&self) -> RemovedPathsView {
        RemovedPathsView {
            data_file_paths: self.data_file_paths@,
            delete_file_paths: self.delete_file_paths@,
        }
    }
}

impl RemovedPathsView {
    /// Whether the path of an entry is among the removed ones, whatever its file holds.
    pub open spec fn has_path(self, entry: ManifestEntry) -> bool {
        let path = entry.data_file.file_path@;
        self.data_file_paths.contains(path) || self.delete_file_paths.contains(path)
    }

    /// Whether an entry is of a removed file: its path is among those of the kind of its file.
    pub open spec fn has_file(self, entry: ManifestEntry) -> bool {
        let path = entry.data_file.file_path@;
        match entry.data_file.content {
            DataContentType::Data => self.data_file_paths.contains(path),
            DataContentType::PositionDeletes => self.delete_file_paths.contains(path),
            DataContentType::EqualityDeletes => self.delete_file_paths.contains(path),
        }
    }
}

/// The paths of files.
pub open spec fn paths_of(files: Seq<DataFile>) -> Set<Seq<char>> {
    Set::new(
        |path: Seq<char>|
            exists|i: int| 0 <= i < files.len() && #[trigger] files[i].file_path@ == path,
    )
}

impl RemovedPaths {
    /// The paths of removed files.
    pub fn collect(data_files: &Vec<DataFile>, delete_files: &Vec<DataFile>) -> (paths: Self)
        ensures
            paths@ == (RemovedPathsView {
                data_file_paths: paths_of(data_files@),
                delete_file_paths: paths_of(delete_files@),
            }),
    {
        RemovedPaths {
            data_file_paths: collect_paths(data_files),
            delete_file_paths: collect_paths(delete_files),
        }
    }

    /// Whether the path of an entry is among the removed ones, whatever its file holds.
    pub fn contains_path(&self, entry: &ManifestEntry) -> (found: bool)
        ensures
            found == self@.has_path(*entry),
    {
        let file_path = entry.file_path();
        self.data_file_paths.contains(file_path) || self.delete_file_paths.contains(file_path)
    }
}

/// Whether an entry is of a removed file.
pub fn is_removed_file(
    entry: &ManifestEntry,
    removed_data_file_paths: &StringHashSet,
    removed_delete_file_paths: &StringHashSet,
) -> (found: bool)
    ensures
        found == (RemovedPathsView {
            data_file_paths: removed_data_file_paths@,
            delete_file_paths: removed_delete_file_paths@,
        }).has_file(*entry),
{
    let file_path = entry.file_path();
    match entry.content_type() {
        DataContentType::Data => removed_data_file_paths.contains(file_path),
        DataContentType::PositionDeletes => removed_delete_file_paths.contains(file_path),
        DataContentType::EqualityDeletes => removed_delete_file_paths.contains(file_path),
    }
}

fn collect_paths(files: &Vec<DataFile>) -> (paths: StringHashSet)
    ensures
        paths@ == paths_of(files@),
{
    let mut paths = StringHashSet::new();
    let mut i: usize = 0;
    while i < files.len()
        invariant
            i <= files.len(),
            paths@ =~= paths_of(files@.take(i as int)),
        decreases files.len() - i,
    {
        let ghost before = files@.take(i as int);
        let ghost after = files@.take(i + 1);
        paths.insert(files[i].file_path.clone());
        proof {
            assert forall|path: Seq<char>| #[trigger] paths@.contains(path) == paths_of(
                after,
            ).contains(path) by {
                if paths_of(before).contains(path) {
                    let k = choose|k: int|
                        0 <= k < before.len() && #[trigger] before[k].file_path@ == path;
                    assert(after[k].file_path@ == path);
                }
                assert(after[i as int].file_path@ == files[i as int].file_path@);
                if paths_of(after).contains(path) && path != files[i as int].file_path@ {
                    let k = choose|k: int|
                        0 <= k < after.len() && #[trigger] after[k].file_path@ == path;
                    assert(before[k].file_path@ == path);
                }
            }
        }
        i += 1;
    }
    assert(files@.take(i as int) =~= files@);
    paths
}

} // verus!
