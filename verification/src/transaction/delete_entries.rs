//! The entries that record the removal of files.
use std::sync::Arc;
use vstd::hash_set::StringHashSet;
use vstd::prelude::*;

use crate::metadata::manifest::{
    Manifest, ManifestEntry, ManifestFile, ManifestList, ManifestStatus,
};
use crate::metadata::snapshot::Snapshot;
use crate::seqs::lemma_filter_map_take_succ;
use crate::transaction::removed_paths::{is_removed_file, RemovedPaths, RemovedPathsView};

verus! {

/// Whether an entry is of a removed file.
pub open spec fn is_removed(removed: RemovedPathsView) -> spec_fn(Arc<ManifestEntry>) -> bool {
    |entry: Arc<ManifestEntry>| removed.has_file(*entry)
}

/// The entry that records the removal of the file of an entry.
pub open spec fn deleted() -> spec_fn(Arc<ManifestEntry>) -> ManifestEntry {
    |entry: Arc<ManifestEntry>| ManifestEntry { status: ManifestStatus::Deleted, ..*entry }
}

/// The entries that record the removal of files that a manifest lists, in its order.
pub open spec fn manifest_deletions(
    entries: Seq<Arc<ManifestEntry>>,
    removed: RemovedPathsView,
) -> Seq<ManifestEntry> {
    entries.filter(is_removed(removed)).map_values(deleted())
}

/// The entries that record the removal of files that manifests list, manifest by manifest.
pub open spec fn deletions(
    manifests: Seq<Seq<Arc<ManifestEntry>>>,
    removed: RemovedPathsView,
) -> Seq<ManifestEntry> {
    manifests.flat_map(|entries: Seq<Arc<ManifestEntry>>| manifest_deletions(entries, removed))
}

/// Whether an entry knows the snapshot and the sequence number of its file, which the entry that
/// records the removal of the file carries on.
pub open spec fn is_numbered(entry: ManifestEntry) -> bool {
    entry.snapshot_id is Some && entry.sequence_number is Some
}

/// Whether the removal of every removed file of a manifest can be recorded.
pub open spec fn removable(entries: Seq<Arc<ManifestEntry>>, removed: RemovedPathsView) -> bool {
    forall|i: int|
        0 <= i < entries.len() && removed.has_file(*#[trigger] entries[i]) ==> is_numbered(
            *entries[i],
        )
}

/// Makes the entry that records the removal of the file of an entry.
pub fn gen_manifest_entry(old_entry: &Arc<ManifestEntry>) -> (entry: ManifestEntry)
    requires
        is_numbered(**old_entry),
    ensures
        entry == deleted()(*old_entry),
{
    ManifestEntry {
        status: ManifestStatus::Deleted,
        snapshot_id: Some(old_entry.snapshot_id.unwrap()),
        sequence_number: Some(old_entry.sequence_number.unwrap()),
        file_sequence_number: old_entry.file_sequence_number,
        data_file: old_entry.data_file.clone(),
    }
}

/// Tests whether the removal of every removed file of a manifest can be recorded.
pub fn can_remove(manifest: &Manifest, removed: &RemovedPaths) -> (possible: bool)
    ensures
        possible == removable(manifest.entries@, removed@),
{
    let mut i: usize = 0;
    while i < manifest.entries.len()
        invariant
            i <= manifest.entries.len(),
            removable(manifest.entries@.take(i as int), removed@),
        decreases manifest.entries.len() - i,
    {
        let entry = &manifest.entries[i];
        let ghost next = manifest.entries@.take(i + 1);
        if is_removed_file(entry, &removed.data_file_paths, &removed.delete_file_paths) && (
        entry.snapshot_id.is_none() || entry.sequence_number.is_none()) {
            assert(!is_numbered(*manifest.entries@[i as int]));
            return false;
        }
        assert forall|j: int| 0 <= j < next.len() && removed@.has_file(*#[trigger] next[j]) implies
            is_numbered(*next[j]) by {
            if j < i {
                assert(manifest.entries@.take(i as int)[j] == next[j]);
            }
        }
        i += 1;
    }
    assert(manifest.entries@.take(i as int) =~= manifest.entries@);
    true
}

/// Records the removal of the removed files of a manifest.
pub fn record_deletions(
    manifest: &Manifest,
    removed_data_file_paths: &StringHashSet,
    removed_delete_file_paths: &StringHashSet,
    deleted_entries: &mut Vec<ManifestEntry>,
)
    requires
        removable(
            manifest.entries@,
            RemovedPathsView {
                data_file_paths: removed_data_file_paths@,
                delete_file_paths: removed_delete_file_paths@,
            },
        ),
    ensures
        final(deleted_entries)@ == old(deleted_entries)@ + manifest_deletions(
            manifest.entries@,
            RemovedPathsView {
                data_file_paths: removed_data_file_paths@,
                delete_file_paths: removed_delete_file_paths@,
            },
        ),
{
    let ghost removed = RemovedPathsView {
        data_file_paths: removed_data_file_paths@,
        delete_file_paths: removed_delete_file_paths@,
    };
    let ghost start = deleted_entries@;
    let mut i: usize = 0;
    proof {
        reveal(Seq::filter);
    }
    while i < manifest.entries.len()
        invariant
            i <= manifest.entries.len(),
            removed.data_file_paths == removed_data_file_paths@,
            removed.delete_file_paths == removed_delete_file_paths@,
            removable(manifest.entries@, removed),
            deleted_entries@ =~= start + manifest_deletions(
                manifest.entries@.take(i as int),
                removed,
            ),
        decreases manifest.entries.len() - i,
    {
        proof {
            lemma_filter_map_take_succ(
                manifest.entries@,
                i as int,
                is_removed(removed),
                deleted(),
            );
        }
        let entry = &manifest.entries[i];
        if is_removed_file(entry, removed_data_file_paths, removed_delete_file_paths) {
            deleted_entries.push(gen_manifest_entry(entry));
        }
        i += 1;
    }
    assert(manifest.entries@.take(i as int) =~= manifest.entries@);
}

/// What a pass over the manifests of a snapshot needs next.
pub enum LoadAction {
    /// The manifest list of this snapshot.
    LoadManifestList(Arc<Snapshot>),
    /// The entries of this manifest.
    LoadManifest(ManifestFile),
    /// Nothing: the pass is over.
    Finish,
}

/// A pass over the manifests of a snapshot, one after the other, that records the removal of
/// files.
pub struct DeleteEntriesRun {
    removed: Arc<RemovedPaths>,
    /// The snapshot whose manifest list is being loaded, if it is.
    snapshot: Option<Arc<Snapshot>>,
    manifest_files: Vec<ManifestFile>,
    /// How many of the manifests were handed in.
    loaded: usize,
    deleted_entries: Vec<ManifestEntry>,
    manifests: Ghost<Seq<Seq<Arc<ManifestEntry>>>>,
}

impl DeleteEntriesRun {
    /// The paths of the removed files.
    pub closed spec fn removed(self) -> RemovedPathsView {
        self.removed@
    }

    /// The snapshot whose manifest list is being loaded.
    pub closed spec fn awaited_list(self) -> Option<Arc<Snapshot>> {
        self.snapshot
    }

    /// The manifests of the snapshot.
    pub closed spec fn manifest_files(self) -> Seq<ManifestFile> {
        self.manifest_files@
    }

    /// The manifests that were handed in.
    pub closed spec fn manifests(self) -> Seq<Seq<Arc<ManifestEntry>>> {
        self.manifests@
    }

    /// The run is in order: it holds what the manifests handed in so far come to.
    pub closed spec fn wf(self) -> bool {
        &&& self.loaded == self.manifests@.len()
        &&& self.loaded <= self.manifest_files@.len()
        &&& self.snapshot is Some ==> self.manifest_files@.len() == 0
        &&& self.deleted_entries@ == deletions(self.manifests@, self.removed@)
    }

    /// What the run needs next.
    pub open spec fn needs(self) -> LoadAction {
        match self.awaited_list() {
            Some(snapshot) => LoadAction::LoadManifestList(snapshot),
            None => if self.manifests().len() < self.manifest_files().len() {
                LoadAction::LoadManifest(self.manifest_files()[self.manifests().len() as int])
            } else {
                LoadAction::Finish
            },
        }
    }

    /// Starts a pass over the manifests of a snapshot; without one there is nothing to pass over.
    pub fn start(snapshot: Option<Arc<Snapshot>>, removed: Arc<RemovedPaths>) -> (run: Self)
        ensures
            run.wf(),
            run.removed() == removed@,
            run.awaited_list() == snapshot,
            run.manifest_files() == Seq::<ManifestFile>::empty(),
            run.manifests() == Seq::<Seq<Arc<ManifestEntry>>>::empty(),
    {
        DeleteEntriesRun {
            removed,
            snapshot,
            manifest_files: Vec::new(),
            loaded: 0,
            deleted_entries: Vec::new(),
            manifests: Ghost(Seq::empty()),
        }
    }

    /// What is to be loaded next.
    pub fn next_action(&self) -> (action: LoadAction)
        requires
            self.wf(),
        ensures
            action == self.needs(),
    {
        match &self.snapshot {
            Some(snapshot) => LoadAction::LoadManifestList(snapshot.clone()),
            None => if self.loaded < self.manifest_files.len() {
                LoadAction::LoadManifest(self.manifest_files[self.loaded].clone())
            } else {
                LoadAction::Finish
            },
        }
    }

    /// Takes in the manifest list of the snapshot.
    pub fn manifest_list_loaded(&mut self, manifest_list: ManifestList)
        requires
            old(self).wf(),
            old(self).needs() is LoadManifestList,
        ensures
            final(self).wf(),
            final(self).removed() == old(self).removed(),
            final(self).awaited_list() is None,
            final(self).manifest_files() == manifest_list.entries@,
            final(self).manifests() == Seq::<Seq<Arc<ManifestEntry>>>::empty(),
    {
        self.snapshot = None;
        self.manifest_files = manifest_list.entries;
        assert(self.manifests@ =~= Seq::empty());
    }

    /// Takes in the manifest that was needed.
    pub fn manifest_loaded(&mut self, manifest: &Manifest)
        requires
            old(self).wf(),
            old(self).needs() is LoadManifest,
            removable(manifest.entries@, old(self).removed()),
        ensures
            final(self).wf(),
            final(self).removed() == old(self).removed(),
            final(self).awaited_list() is None,
            final(self).manifest_files() == old(self).manifest_files(),
            final(self).manifests() == old(self).manifests().push(manifest.entries@),
    {
        assert(self.loaded < self.manifest_files.len());
        record_deletions(
            manifest,
            &self.removed.data_file_paths,
            &self.removed.delete_file_paths,
            &mut self.deleted_entries,
        );
        self.loaded = self.loaded + 1;
        proof {
            self.manifests@.lemma_flat_map_push(
                |entries: Seq<Arc<ManifestEntry>>| manifest_deletions(entries, self.removed@),
                manifest.entries@,
            );
            self.manifests@ = self.manifests@.push(manifest.entries@);
        }
    }

    /// The entries that record the removal of the removed files.
    pub fn finish(self) -> (deleted_entries: Vec<ManifestEntry>)
        requires
            self.wf(),
            self.needs() is Finish,
        ensures
            self.manifests().len() == self.manifest_files().len(),
            deleted_entries@ == deletions(self.manifests(), self.removed()),
    {
        self.deleted_entries
    }
}

} // verus!
