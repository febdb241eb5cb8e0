//! The operations that carry out a rewrite of files: one loads manifests one after the other, one
//! loads them all at once.
use std::sync::Arc;
use vstd::hash_map::StringHashMap;
use vstd::hash_set::StringHashSet;
use vstd::prelude::*;

use crate::metadata::manifest::{Manifest, ManifestEntry, ManifestFile, ManifestList};
use crate::metadata::snapshot::{Operation, Snapshot};
use crate::transaction::delete_entries::{
    can_remove, deletions, manifest_deletions, record_deletions, removable, DeleteEntriesRun,
};
use crate::transaction::existing_manifests::{
    ExistingManifestRun, LoadedManifest, PreloadedManifestRun,
};
use crate::transaction::removed_paths::{RemovedPaths, RemovedPathsView};

verus! {

/// The entries of manifests.
pub open spec fn entries_of(manifests: Seq<LoadedManifest>) -> Seq<Seq<Arc<ManifestEntry>>> {
    manifests.map_values(|loaded: LoadedManifest| loaded.1.entries@)
}

/// Whether the removal of every removed file of manifests can be recorded.
pub open spec fn all_removable(
    manifests: Seq<LoadedManifest>,
    removed: RemovedPathsView,
) -> bool {
    forall|i: int|
        0 <= i < manifests.len() ==> removable((#[trigger] manifests[i]).1.entries@, removed)
}

/// Manifests by their paths. Of several with one path the last one counts.
pub open spec fn by_path(manifests: Seq<LoadedManifest>) -> Map<Seq<char>, Arc<Manifest>>
    decreases manifests.len(),
{
    if manifests.len() == 0 {
        Map::empty()
    } else {
        let (manifest_file, manifest) = manifests.last();
        by_path(manifests.drop_last()).insert(manifest_file.manifest_path@, manifest)
    }
}

/// The operation that loads manifests one after the other.
pub struct RewriteFilesOperation;

impl RewriteFilesOperation {
    /// The kind of snapshot that comes out: the rows of the table stay the same.
    pub fn operation(&self) -> (operation: Operation)
        ensures
            operation == Operation::Replace,
    {
        Operation::Replace
    }

    /// Records the removal of files from the manifests of the snapshot of the target branch.
    pub fn delete_entries(
        &self,
        snapshot: Option<Arc<Snapshot>>,
        removed: Arc<RemovedPaths>,
    ) -> (run: DeleteEntriesRun)
        ensures
            run.wf(),
            run.removed() == removed@,
            run.awaited_list() == snapshot,
            run.manifest_files() == Seq::<ManifestFile>::empty(),
            run.manifests() == Seq::<Seq<Arc<ManifestEntry>>>::empty(),
    {
        DeleteEntriesRun::start(snapshot, removed)
    }

    /// Finds the manifests of the snapshot of the target branch that stay, and has those that
    /// list some of the removed files written anew.
    pub fn existing_manifest(
        &self,
        snapshot: Option<Arc<Snapshot>>,
        removed: Arc<RemovedPaths>,
    ) -> (run: ExistingManifestRun)
        ensures
            run.wf(),
            run.removed() == removed@,
            run.awaited_list() == snapshot,
            run.manifest_files() == Seq::<ManifestFile>::empty(),
            run.manifests() == Seq::<LoadedManifest>::empty(),
            run.written() == Seq::<ManifestFile>::empty(),
    {
        ExistingManifestRun::start(snapshot, removed)
    }
}

/// The operation that loads all manifests at once.
///
/// The manifests are kept, so that [`RewriteFilesOperationConcurrent::existing_manifest`] and
/// [`RewriteFilesOperationConcurrent::delete_entries`] load them only once between them.
pub struct RewriteFilesOperationConcurrent {
    cached_manifests: Option<Arc<Vec<LoadedManifest>>>,
}

impl View for RewriteFilesOperationConcurrent {
    type V = Option<Seq<LoadedManifest>>;

    /// The manifests that are kept, once they are loaded.
    closed spec fn view(&self) -> Option<Seq<LoadedManifest>> {
        match self.cached_manifests {
            Some(manifests) => Some(manifests@),
            None => None,
        }
    }
}

/// The manifests that are kept after a load: the ones that were kept already, else the new ones.
pub open spec fn kept(
    cached: Option<Seq<LoadedManifest>>,
    loaded: Option<Vec<LoadedManifest>>,
) -> Option<Seq<LoadedManifest>> {
    match (cached, loaded) {
        (Some(manifests), _) => Some(manifests),
        (None, Some(manifests)) => Some(manifests@),
        (None, None) => None,
    }
}

impl RewriteFilesOperationConcurrent {
    /// No manifests are loaded yet.
    pub fn new() -> (operation: Self)
        ensures
            operation@ is None,
    {
        RewriteFilesOperationConcurrent { cached_manifests: None }
    }

    /// The kind of snapshot that comes out: the rows of the table stay the same.
    pub fn operation(&self) -> (operation: Operation)
        ensures
            operation == Operation::Replace,
    {
        Operation::Replace
    }

    /// Puts each manifest of a list, once all of them are loaded, alongside what the list says of
    /// it.
    pub fn pair_manifests(manifest_list: &ManifestList, manifests: &Vec<Arc<Manifest>>) -> (pairs:
        Vec<LoadedManifest>)
        requires
            manifest_list.entries.len() == manifests.len(),
        ensures
            pairs@ == manifest_list.entries@.zip_with(manifests@),
    {
        let mut pairs: Vec<LoadedManifest> = Vec::new();
        let mut i: usize = 0;
        while i < manifests.len()
            invariant
                i <= manifests.len(),
                manifest_list.entries.len() == manifests.len(),
                pairs@ =~= manifest_list.entries@.zip_with(manifests@).take(i as int),
            decreases manifests.len() - i,
        {
            pairs.push((manifest_list.entries[i].clone(), manifests[i].clone()));
            i += 1;
        }
        pairs
    }

    /// The manifests that are kept. Where there are none yet, those that were loaded are kept from
    /// now on; `None` says that they have to be loaded first.
    pub fn get_or_load_manifests(&mut self, loaded: Option<Vec<LoadedManifest>>) -> (manifests:
        Option<Arc<Vec<LoadedManifest>>>)
        ensures
            final(self)@ == kept(old(self)@, loaded),
            match manifests {
                Some(manifests) => final(self)@ == Some(manifests@),
                None => final(self)@ is None,
            },
    {
        if let Some(cached) = &self.cached_manifests {
            return Some(cached.clone());
        }
        match loaded {
            Some(manifests) => {
                let manifests = Arc::new(manifests);
                self.cached_manifests = Some(manifests.clone());
                Some(manifests)
            },
            None => None,
        }
    }

    /// Records the removal of files from manifests.
    pub fn generate_delete_entries_from_manifests(
        manifests: &[LoadedManifest],
        removed_data_file_paths: &StringHashSet,
        removed_delete_file_paths: &StringHashSet,
    ) -> (deleted_entries: Vec<ManifestEntry>)
        requires
            all_removable(
                manifests@,
                RemovedPathsView {
                    data_file_paths: removed_data_file_paths@,
                    delete_file_paths: removed_delete_file_paths@,
                },
            ),
        ensures
            deleted_entries@ == deletions(
                entries_of(manifests@),
                RemovedPathsView {
                    data_file_paths: removed_data_file_paths@,
                    delete_file_paths: removed_delete_file_paths@,
                },
            ),
    {
        let ghost removed = RemovedPathsView {
            data_file_paths: removed_data_file_paths@,
            delete_file_paths: removed_delete_file_paths@,
        };
        let mut deleted_entries: Vec<ManifestEntry> = Vec::new();
        let mut i: usize = 0;
        assert(entries_of(manifests@.take(0)) =~= Seq::empty());
        while i < manifests.len()
            invariant
                i <= manifests.len(),
                removed.data_file_paths == removed_data_file_paths@,
                removed.delete_file_paths == removed_delete_file_paths@,
                all_removable(manifests@, removed),
                deleted_entries@ == deletions(entries_of(manifests@.take(i as int)), removed),
            decreases manifests.len() - i,
        {
            proof {
                let done = entries_of(manifests@.take(i as int));
                let next = manifests@[i as int].1.entries@;
                done.lemma_flat_map_push(
                    |entries: Seq<Arc<ManifestEntry>>| manifest_deletions(entries, removed),
                    next,
                );
                assert(entries_of(manifests@.take(i + 1)) =~= done.push(next));
            }
            record_deletions(
                &manifests[i].1,
                removed_data_file_paths,
                removed_delete_file_paths,
                &mut deleted_entries,
            );
            i += 1;
        }
        assert(manifests@.take(i as int) =~= manifests@);
        deleted_entries
    }

    /// Tests whether the removal of every removed file of manifests can be recorded.
    pub fn can_remove_from_manifests(
        manifests: &[LoadedManifest],
        removed: &RemovedPaths,
    ) -> (possible: bool)
        ensures
            possible == all_removable(manifests@, removed@),
    {
        let mut i: usize = 0;
        while i < manifests.len()
            invariant
                i <= manifests.len(),
                forall|j: int|
                    0 <= j < i ==> removable((#[trigger] manifests@[j]).1.entries@, removed@),
            decreases manifests.len() - i,
        {
            if !can_remove(&manifests[i].1, removed) {
                assert(!removable(manifests@[i as int].1.entries@, removed@));
                return false;
            }
            i += 1;
        }
        true
    }

    /// Records the removal of files from the manifests of the snapshot of the target branch, if
    /// there is one. `None` says that the manifests have to be loaded first.
    pub fn delete_entries(
        &mut self,
        snapshot: Option<Arc<Snapshot>>,
        loaded: Option<Vec<LoadedManifest>>,
        removed: &RemovedPaths,
    ) -> (deleted_entries: Option<Vec<ManifestEntry>>)
        requires
            snapshot is Some ==> (kept(old(self)@, loaded) matches Some(manifests)
                ==> all_removable(manifests, removed@)),
        ensures
            match snapshot {
                None => *final(self) == *old(self) && (deleted_entries matches Some(entries)
                    && entries@.len() == 0),
                Some(_) => final(self)@ == kept(old(self)@, loaded) && match final(self)@ {
                    Some(manifests) => deleted_entries matches Some(entries) && entries@
                        == deletions(entries_of(manifests), removed@),
                    None => deleted_entries is None,
                },
            },
    {
        if snapshot.is_none() {
            return Some(Vec::new());
        }
        match self.get_or_load_manifests(loaded) {
            Some(manifests) => Some(
                Self::generate_delete_entries_from_manifests(
                    manifests.as_slice(),
                    &removed.data_file_paths,
                    &removed.delete_file_paths,
                ),
            ),
            None => None,
        }
    }

    /// Finds the manifests of the snapshot of the target branch, if there is one, that stay, and
    /// has those that list some of the removed files written anew. `None` says that the manifests
    /// have to be loaded first.
    pub fn existing_manifest(
        &mut self,
        snapshot: Option<Arc<Snapshot>>,
        loaded: Option<Vec<LoadedManifest>>,
        removed: Arc<RemovedPaths>,
    ) -> (run: Option<PreloadedManifestRun>)
        ensures
            run matches Some(run) ==> run.wf() && run.removed() == removed@ && run.written()
                == Seq::<ManifestFile>::empty(),
            match snapshot {
                None => *final(self) == *old(self) && (run matches Some(run) && run.manifests()
                    == Seq::<LoadedManifest>::empty()),
                Some(_) => final(self)@ == kept(old(self)@, loaded) && match final(self)@ {
                    Some(manifests) => run matches Some(run) && run.manifests() == manifests,
                    None => run is None,
                },
            },
    {
        if snapshot.is_none() {
            return Some(PreloadedManifestRun::start(Arc::new(Vec::new()), removed));
        }
        match self.get_or_load_manifests(loaded) {
            Some(manifests) => Some(PreloadedManifestRun::start(manifests, removed)),
            None => None,
        }
    }

    /// The manifests that are kept, by their paths, so that they need not be loaded again.
    pub fn get_manifest_cache(&self) -> (cache: StringHashMap<Arc<Manifest>>)
        ensures
            cache@ == match self@ {
                Some(manifests) => by_path(manifests),
                None => Map::empty(),
            },
    {
        let mut cache = StringHashMap::new();
        if let Some(manifests) = &self.cached_manifests {
            let mut i: usize = 0;
            while i < manifests.len()
                invariant
                    i <= manifests.len(),
                    cache@ =~= by_path(manifests@.take(i as int)),
                decreases manifests.len() - i,
            {
                let (manifest_file, manifest) = &manifests[i];
                assert(manifests@.take(i + 1).drop_last() =~= manifests@.take(i as int));
                cache.insert(manifest_file.manifest_path.clone(), manifest.clone());
                i += 1;
            }
            assert(manifests@.take(i as int) =~= manifests@);
        }
        cache
    }
}

impl Default for RewriteFilesOperationConcurrent {
    fn default() -> (operation: Self)
        ensures
            operation@ is None,
    {
        Self::new()
    }
}

} // verus!
