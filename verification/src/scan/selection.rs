//! Choosing the manifests that a scan considers.
use std::collections::HashSet;
use std::sync::Arc;
use vstd::prelude::*;

use crate::metadata::data_file::DataContentType;
use crate::metadata::manifest::{ManifestEntry, ManifestFile, ManifestList, ManifestStatus};
use crate::metadata::snapshot::{Operation, Snapshot};
use crate::scan::context::PlanContext;
use crate::scan::services::ScanServices;
use crate::seqs::lemma_filter_map_take_succ;

verus! {

/// Lets through the entries that an incremental scan reads: data files that one of the scanned
/// snapshots added.
pub struct EntryFilter {
    /// The snapshots that the scan covers.
    pub snapshot_ids: Arc<HashSet<i64>>,
}

impl EntryFilter {
    /// Whether the filter lets an entry through. An entry without a snapshot id belongs to the
    /// snapshot that added its manifest.
    pub open spec fn admits(self, entry: ManifestEntry) -> bool {
        &&& entry.status == ManifestStatus::Added
        &&& entry.data_file.content == DataContentType::Data
        &&& entry.snapshot_id matches Some(id) ==> self.snapshot_ids@.contains(id)
    }

    /// Whether the filter lets an entry through.
    pub fn matches(&self, entry: &ManifestEntry) -> (admitted: bool)
        ensures
            admitted == self.admits(*entry),
    {
        let added: bool = match entry.status {
            ManifestStatus::Added => true,
            _ => false,
        };
        let data: bool = match entry.content_type() {
            DataContentType::Data => true,
            _ => false,
        };
        added && data && match entry.snapshot_id {
            None => true,
            Some(id) => self.snapshot_ids.contains(&id),
        }
    }
}

impl Clone for EntryFilter {
    fn clone(&self) -> (copy: Self)
        ensures
            copy == *self,
    {
        EntryFilter { snapshot_ids: self.snapshot_ids.clone() }
    }
}

/// Another handle on the same filter.
pub fn clone_entry_filter(entry_filter: &Option<EntryFilter>) -> (copy: Option<EntryFilter>)
    ensures
        copy == *entry_filter,
{
    match entry_filter {
        Some(filter) => Some(filter.clone()),
        None => None,
    }
}

/// The manifests that a scan considers, and the entries it reads of them.
pub struct ManifestSelection {
    pub manifest_files: Vec<ManifestFile>,
    pub entry_filter: Option<EntryFilter>,
}

/// Whether an incremental scan reads the files of a snapshot. Snapshots that only replace files by
/// others with the same rows, and those that only delete, add no rows.
pub open spec fn adds_rows() -> spec_fn(Arc<Snapshot>) -> bool {
    |snapshot: Arc<Snapshot>|
        snapshot.summary.operation == Operation::Append || snapshot.summary.operation
            == Operation::Overwrite
}

/// The snapshots of a lineage that an incremental scan reads.
pub open spec fn scanned_snapshots(lineage: Seq<Arc<Snapshot>>) -> Seq<Arc<Snapshot>> {
    lineage.filter(adds_rows())
}

/// The ids of snapshots.
pub open spec fn ids_of(snapshots: Seq<Arc<Snapshot>>) -> Set<i64> {
    Set::new(|id: i64| exists|i: int| 0 <= i < snapshots.len() && #[trigger] snapshots[i].snapshot_id == id)
}

/// Whether one of the given snapshots added a manifest.
pub open spec fn added_by(snapshot_ids: Set<i64>) -> spec_fn(ManifestFile) -> bool {
    |manifest_file: ManifestFile| snapshot_ids.contains(manifest_file.added_snapshot_id)
}

/// The manifests that the given snapshots added, out of manifest lists, list by list. A manifest
/// that is in several of the lists occurs several times.
pub open spec fn added_manifests(
    manifest_lists: Seq<Seq<ManifestFile>>,
    snapshot_ids: Set<i64>,
) -> Seq<ManifestFile> {
    manifest_lists.flat_map(|list: Seq<ManifestFile>| list.filter(added_by(snapshot_ids)))
}

/// Where choosing the manifests of a scan stands.
pub struct ManifestSelectionRun {
    /// The snapshots whose manifest lists are needed.
    snapshots: Vec<Arc<Snapshot>>,
    /// How many of those lists were handed in.
    loaded: usize,
    manifest_files: Vec<ManifestFile>,
    entry_filter: Option<EntryFilter>,
    manifest_lists: Ghost<Seq<Seq<ManifestFile>>>,
}

impl ManifestSelectionRun {
    /// The snapshots whose manifest lists the run needs, in the order in which it needs them.
    pub closed spec fn snapshots(self) -> Seq<Arc<Snapshot>> {
        self.snapshots@
    }

    /// The manifest lists that were handed in.
    pub closed spec fn manifest_lists(self) -> Seq<Seq<ManifestFile>> {
        self.manifest_lists@
    }

    /// The manifests chosen so far.
    pub closed spec fn manifest_files(self) -> Seq<ManifestFile> {
        self.manifest_files@
    }

    /// Which entries are read of the chosen manifests.
    pub closed spec fn entry_filter(self) -> Option<EntryFilter> {
        self.entry_filter
    }

    /// The run is in order: it holds what the lists handed in so far come to.
    pub closed spec fn wf(self) -> bool {
        &&& self.loaded == self.manifest_lists@.len()
        &&& self.loaded <= self.snapshots@.len()
        &&& match self.entry_filter {
            Some(filter) => {
                &&& filter.snapshot_ids@ == ids_of(self.snapshots@)
                &&& self.manifest_files@ == added_manifests(
                    self.manifest_lists@,
                    ids_of(self.snapshots@),
                )
            },
            None => self.snapshots@.len() == 0,
        }
    }

    /// The snapshot whose manifest list is needed next.
    pub open spec fn needs(self) -> Option<Arc<Snapshot>> {
        if self.manifest_lists().len() < self.snapshots().len() {
            Some(self.snapshots()[self.manifest_lists().len() as int])
        } else {
            None
        }
    }

    /// Whether this is the selection that the run comes to: for an incremental scan, the manifests
    /// that the scanned snapshots added, and the entries of those snapshots; else all manifests of
    /// the list, and all entries.
    pub open spec fn comes_to(self, selection: ManifestSelection) -> bool {
        &&& selection.manifest_files@ == self.manifest_files()
        &&& selection.entry_filter == self.entry_filter()
        &&& self.entry_filter() matches Some(filter) ==> {
            &&& filter.snapshot_ids@ == ids_of(self.snapshots())
            &&& selection.manifest_files@ == added_manifests(
                self.manifest_lists(),
                ids_of(self.snapshots()),
            )
        }
    }

    /// Starts a choice among the manifests of one list: all of them.
    pub fn whole(manifest_list: &ManifestList) -> (run: Self)
        ensures
            run.wf(),
            run.needs() is None,
            run.snapshots() == Seq::<Arc<Snapshot>>::empty(),
            run.entry_filter() is None,
            run.manifest_files() == manifest_list.entries@,
    {
        let mut manifest_files: Vec<ManifestFile> = Vec::new();
        let mut i: usize = 0;
        while i < manifest_list.entries.len()
            invariant
                i <= manifest_list.entries.len(),
                manifest_files@ =~= manifest_list.entries@.take(i as int),
            decreases manifest_list.entries.len() - i,
        {
            manifest_files.push(manifest_list.entries[i].clone());
            i += 1;
        }
        ManifestSelectionRun {
            snapshots: Vec::new(),
            loaded: 0,
            manifest_files,
            entry_filter: None,
            manifest_lists: Ghost(Seq::empty()),
        }
    }

    /// Starts a choice among the manifests that the snapshots of a lineage added.
    pub fn incremental(lineage: &Vec<Arc<Snapshot>>) -> (run: Self)
        ensures
            run.wf(),
            run.snapshots() == scanned_snapshots(lineage@),
            run.manifest_lists() == Seq::<Seq<ManifestFile>>::empty(),
            run.entry_filter() matches Some(filter) && filter.snapshot_ids@ == ids_of(
                scanned_snapshots(lineage@),
            ),
    {
        let mut snapshots: Vec<Arc<Snapshot>> = Vec::new();
        let mut snapshot_ids: HashSet<i64> = HashSet::new();
        let mut i: usize = 0;
        proof {
            reveal(Seq::filter);
        }
        while i < lineage.len()
            invariant
                i <= lineage.len(),
                snapshots@ == lineage@.take(i as int).filter(adds_rows()),
                snapshot_ids@ =~= ids_of(snapshots@),
            decreases lineage.len() - i,
        {
            let snapshot = &lineage[i];
            let ghost before = snapshots@;
            proof {
                lemma_filter_map_take_succ(lineage@, i as int, adds_rows(), |s: Arc<Snapshot>| s);
            }
            let scanned: bool = match snapshot.summary.operation {
                Operation::Append => true,
                Operation::Overwrite => true,
                _ => false,
            };
            if scanned {
                snapshots.push(snapshot.clone());
                snapshot_ids.insert(snapshot.snapshot_id);
                assert forall|id: i64| #[trigger] snapshot_ids@.contains(id) == ids_of(
                    snapshots@,
                ).contains(id) by {
                    if ids_of(before).contains(id) {
                        let k = choose|k: int|
                            0 <= k < before.len() && #[trigger] before[k].snapshot_id == id;
                        assert(snapshots@[k].snapshot_id == id);
                    }
                    if id == snapshot.snapshot_id {
                        assert(snapshots@[before.len() as int].snapshot_id == id);
                    }
                    if ids_of(snapshots@).contains(id) && id != snapshot.snapshot_id {
                        let k = choose|k: int|
                            0 <= k < snapshots@.len() && #[trigger] snapshots@[k].snapshot_id == id;
                        assert(before[k].snapshot_id == id);
                    }
                }
            }
            i += 1;
        }
        assert(lineage@.take(i as int) =~= lineage@);
        ManifestSelectionRun {
            snapshots,
            loaded: 0,
            manifest_files: Vec::new(),
            entry_filter: Some(EntryFilter { snapshot_ids: Arc::new(snapshot_ids) }),
            manifest_lists: Ghost(Seq::empty()),
        }
    }

    /// The snapshot whose manifest list is to be loaded next; `None` when the choice is complete.
    pub fn next_snapshot(&self) -> (snapshot: Option<Arc<Snapshot>>)
        requires
            self.wf(),
        ensures
            snapshot == self.needs(),
    {
        if self.loaded < self.snapshots.len() {
            Some(self.snapshots[self.loaded].clone())
        } else {
            None
        }
    }

    /// Takes in the manifest list of the snapshot that was needed.
    pub fn manifest_list_loaded(&mut self, manifest_list: &ManifestList)
        requires
            old(self).wf(),
            old(self).needs() is Some,
        ensures
            final(self).wf(),
            final(self).snapshots() == old(self).snapshots(),
            final(self).entry_filter() == old(self).entry_filter(),
            final(self).manifest_lists() == old(self).manifest_lists().push(
                manifest_list.entries@,
            ),
    {
        let ghost ids = ids_of(self.snapshots@);
        let ghost start = self.manifest_files@;
        let mut i: usize = 0;
        proof {
            reveal(Seq::filter);
        }
        while i < manifest_list.entries.len()
            invariant
                i <= manifest_list.entries.len(),
                self.snapshots == old(self).snapshots,
                self.loaded == old(self).loaded,
                self.loaded < self.snapshots.len(),
                self.entry_filter == old(self).entry_filter,
                self.manifest_lists == old(self).manifest_lists,
                self.entry_filter matches Some(filter) && filter.snapshot_ids@ == ids,
                self.manifest_files@ =~= start + manifest_list.entries@.take(i as int).filter(
                    added_by(ids),
                ),
            decreases manifest_list.entries.len() - i,
        {
            let entry = &manifest_list.entries[i];
            proof {
                lemma_filter_map_take_succ(
                    manifest_list.entries@,
                    i as int,
                    added_by(ids),
                    |m: ManifestFile| m,
                );
            }
            let added: bool = match &self.entry_filter {
                Some(filter) => filter.snapshot_ids.contains(&entry.added_snapshot_id),
                None => false,
            };
            if added {
                self.manifest_files.push(entry.clone());
            }
            i += 1;
        }
        self.loaded = self.loaded + 1;
        proof {
            assert(manifest_list.entries@.take(i as int) =~= manifest_list.entries@);
            self.manifest_lists@.lemma_flat_map_push(
                |list: Seq<ManifestFile>| list.filter(added_by(ids)),
                manifest_list.entries@,
            );
            self.manifest_lists@ = self.manifest_lists@.push(manifest_list.entries@);
        }
    }

    /// The chosen manifests.
    pub fn finish(self) -> (selection: ManifestSelection)
        requires
            self.wf(),
            self.needs() is None,
        ensures
            self.comes_to(selection),
            self.manifest_lists().len() == self.snapshots().len(),
    {
        ManifestSelection { manifest_files: self.manifest_files, entry_filter: self.entry_filter }
    }
}

impl<E: ScanServices> PlanContext<E> {
    /// Starts choosing the manifests of a scan: for an incremental scan, those that were added
    /// after the snapshot to start from and up to the snapshot to end with; else all manifests of
    /// the snapshot.
    pub fn select_manifests(&self, manifest_list: &ManifestList) -> (run: ManifestSelectionRun)
        ensures
            run.wf(),
            match self.to_snapshot_id {
                None => {
                    &&& run.needs() is None
                    &&& run.entry_filter() is None
                    &&& run.manifest_files() == manifest_list.entries@
                },
                Some(to_snapshot_id) => exists|lineage: Vec<Arc<Snapshot>>|
                    {
                        &&& #[trigger] call_ensures(
                            E::ancestors_between,
                            (
                                &*self.services,
                                &self.table_metadata,
                                to_snapshot_id,
                                self.from_snapshot_id,
                            ),
                            lineage,
                        )
                        &&& run.snapshots() == scanned_snapshots(lineage@)
                        &&& run.manifest_lists() == Seq::<Seq<ManifestFile>>::empty()
                        &&& run.entry_filter() matches Some(filter) && filter.snapshot_ids@
                            == ids_of(scanned_snapshots(lineage@))
                    },
            },
    {
        match self.to_snapshot_id {
            Some(to_snapshot_id) => {
                let lineage = self.services.ancestors_between(
                    &self.table_metadata,
                    to_snapshot_id,
                    self.from_snapshot_id,
                );
                ManifestSelectionRun::incremental(&lineage)
            },
            None => ManifestSelectionRun::whole(manifest_list),
        }
    }
}

} // verus!
