//! Finding the delete files of a scan, for the index of delete files.
use std::sync::Arc;
use vstd::prelude::*;

use crate::error::Error;
use crate::metadata::data_file::DataContentType;
use crate::metadata::manifest::{
    Manifest, ManifestContentType, ManifestEntry, ManifestFile, ManifestList,
};
use crate::scan::context::PlanContext;
use crate::scan::matching::ManifestMatch;
use crate::scan::planning::{admitted, manifests_of_kind, of_kind};
use crate::scan::services::ScanServices;
use crate::seqs::lemma_filter_map_take_succ;

verus! {

/// A delete file alongside what is needed to apply it.
pub struct DeleteFileContext<E: ScanServices> {
    pub manifest_entry: Arc<ManifestEntry>,
    pub partition_spec_id: i32,
    pub snapshot_schema: Arc<E::Schema>,
    pub field_ids: Arc<Vec<i32>>,
}

/// Whether an entry can be of a delete file of the table: it is not removed, and not of data.
pub open spec fn is_live_delete(entry: ManifestEntry) -> bool {
    entry.alive() && entry.data_file.content != DataContentType::Data
}

impl<E: ScanServices> PlanContext<E> {
    /// Whether testing an entry of a delete manifest can have this outcome.
    pub open spec fn entry_outcome(
        self,
        manifest_file: ManifestFile,
        partition_filter: Option<Arc<E::BoundPredicate>>,
        entry: Arc<ManifestEntry>,
        outcome: Result<bool, Error>,
    ) -> bool {
        if !is_live_delete(*entry) {
            outcome == Ok::<bool, Error>(false)
        } else {
            match partition_filter {
                None => outcome == Ok::<bool, Error>(true),
                Some(filter) => call_ensures(
                    E::file_matches,
                    (
                        &*self.services,
                        manifest_file.partition_spec_id,
                        &filter,
                        &*entry.data_file,
                    ),
                    outcome,
                ),
            }
        }
    }

    /// Tests whether an entry of a delete manifest is of a delete file that the scan needs.
    pub fn match_delete_entry(
        &self,
        manifest_file: &ManifestFile,
        partition_filter: &Option<Arc<E::BoundPredicate>>,
        entry: &Arc<ManifestEntry>,
    ) -> (outcome: Result<bool, Error>)
        ensures
            self.entry_outcome(*manifest_file, *partition_filter, *entry, outcome),
    {
        // Removed entries are of no use.
        if !entry.is_alive() {
            return Ok(false);
        }
        // A delete manifest lists no data files, but one that does must do no harm.
        if entry.content_type() == DataContentType::Data {
            return Ok(false);
        }
        match partition_filter {
            None => Ok(true),
            Some(filter) => self.services.file_matches(
                manifest_file.partition_spec_id,
                filter,
                &entry.data_file,
            ),
        }
    }

    /// Whether testing the first entries of a delete manifest can have found this of each of them.
    pub open spec fn entries_before(
        self,
        manifest_file: ManifestFile,
        partition_filter: Option<Arc<E::BoundPredicate>>,
        entries: Seq<Arc<ManifestEntry>>,
        n: int,
        found: Seq<bool>,
    ) -> bool {
        &&& found.len() == n
        &&& forall|i: int|
            0 <= i < n ==> self.entry_outcome(
                manifest_file,
                partition_filter,
                entries[i],
                Ok(#[trigger] found[i]),
            )
    }

    /// Whether testing the entries of a delete manifest in order can have this outcome: what was
    /// found of each of them, or the error of the first test that failed.
    pub open spec fn entries_outcome(
        self,
        manifest_file: ManifestFile,
        partition_filter: Option<Arc<E::BoundPredicate>>,
        entries: Seq<Arc<ManifestEntry>>,
        outcome: Result<Seq<bool>, Error>,
    ) -> bool {
        match outcome {
            Ok(found) => self.entries_before(
                manifest_file,
                partition_filter,
                entries,
                entries.len() as int,
                found,
            ),
            Err(error) => exists|n: int, found: Seq<bool>|
                {
                    &&& 0 <= n < entries.len()
                    &&& #[trigger] self.entries_before(
                        manifest_file,
                        partition_filter,
                        entries,
                        n,
                        found,
                    )
                    &&& self.entry_outcome(
                        manifest_file,
                        partition_filter,
                        entries[n],
                        Err(error),
                    )
                },
        }
    }

    /// Tests the entries of a delete manifest in order, up to the first test that fails.
    pub fn match_delete_entries(
        &self,
        manifest_file: &ManifestFile,
        partition_filter: &Option<Arc<E::BoundPredicate>>,
        manifest: &Manifest,
    ) -> (outcome: Result<Vec<bool>, Error>)
        ensures
            match outcome {
                Ok(found) => self.entries_outcome(
                    *manifest_file,
                    *partition_filter,
                    manifest.entries@,
                    Ok(found@),
                ),
                Err(error) => self.entries_outcome(
                    *manifest_file,
                    *partition_filter,
                    manifest.entries@,
                    Err(error),
                ),
            },
            *partition_filter is None ==> outcome is Ok,
    {
        let mut found: Vec<bool> = Vec::new();
        let mut i: usize = 0;
        while i < manifest.entries.len()
            invariant
                i <= manifest.entries.len(),
                self.entries_before(
                    *manifest_file,
                    *partition_filter,
                    manifest.entries@,
                    i as int,
                    found@,
                ),
            decreases manifest.entries.len() - i,
        {
            match self.match_delete_entry(manifest_file, partition_filter, &manifest.entries[i]) {
                Err(error) => {
                    assert(self.entries_before(
                        *manifest_file,
                        *partition_filter,
                        manifest.entries@,
                        i as int,
                        found@,
                    ));
                    return Err(error);
                },
                Ok(matched) => {
                    found.push(matched);
                },
            }
            i += 1;
        }
        Ok(found)
    }

    /// The context of a delete file.
    pub open spec fn delete_file_context(self, manifest_file: ManifestFile) -> spec_fn(
        (Arc<ManifestEntry>, bool),
    ) -> DeleteFileContext<E> {
        |e: (Arc<ManifestEntry>, bool)|
            DeleteFileContext {
                manifest_entry: e.0,
                partition_spec_id: manifest_file.partition_spec_id,
                snapshot_schema: self.snapshot_schema,
                field_ids: self.field_ids,
            }
    }

    /// The contexts of the entries of a delete manifest that passed their tests, in order.
    pub open spec fn delete_file_contexts(
        self,
        manifest_file: ManifestFile,
        entries: Seq<Arc<ManifestEntry>>,
        found: Seq<bool>,
    ) -> Seq<DeleteFileContext<E>> {
        entries.zip_with(found).filter(passed()).map_values(
            self.delete_file_context(manifest_file),
        )
    }

    /// Makes the contexts of the entries of a delete manifest that passed their tests.
    pub fn arrange_delete_file_contexts(
        &self,
        manifest_file: &ManifestFile,
        manifest: &Manifest,
        found: &Vec<bool>,
    ) -> (contexts: Vec<DeleteFileContext<E>>)
        requires
            manifest.entries.len() == found.len(),
        ensures
            contexts@ == self.delete_file_contexts(*manifest_file, manifest.entries@, found@),
    {
        let ghost pairs = manifest.entries@.zip_with(found@);
        let ghost context_of = self.delete_file_context(*manifest_file);
        let mut contexts: Vec<DeleteFileContext<E>> = Vec::new();
        let mut i: usize = 0;
        proof {
            reveal(Seq::filter);
        }
        while i < manifest.entries.len()
            invariant
                i <= manifest.entries.len(),
                manifest.entries.len() == found.len(),
                pairs == manifest.entries@.zip_with(found@),
                context_of == self.delete_file_context(*manifest_file),
                contexts@ == pairs.take(i as int).filter(passed()).map_values(context_of),
            decreases manifest.entries.len() - i,
        {
            proof {
                assert(pairs[i as int] == (manifest.entries[i as int], found[i as int]));
                lemma_filter_map_take_succ(pairs, i as int, passed(), context_of);
            }
            if found[i] {
                contexts.push(
                    DeleteFileContext {
                        manifest_entry: manifest.entries[i].clone(),
                        partition_spec_id: manifest_file.partition_spec_id,
                        snapshot_schema: self.snapshot_schema.clone(),
                        field_ids: self.field_ids.clone(),
                    },
                );
            }
            i += 1;
        }
        assert(pairs.take(i as int) =~= pairs);
        contexts
    }
}

/// Whether an entry passed its test.
pub open spec fn passed() -> spec_fn((Arc<ManifestEntry>, bool)) -> bool {
    |e: (Arc<ManifestEntry>, bool)| e.1
}

/// What was read of one delete manifest.
pub struct DeleteManifestRead<B> {
    pub manifest_file: ManifestFile,
    pub partition_filter: Option<Arc<B>>,
    pub entries: Seq<Arc<ManifestEntry>>,
    /// For each entry, whether it passed its test.
    pub found: Seq<bool>,
}

impl<E: ScanServices> PlanContext<E> {
    /// Whether a read is of a manifest with this match, and its entries can have come out so.
    pub open spec fn read_follows(
        self,
        m: (ManifestFile, ManifestMatch<E::BoundPredicate>),
        read: DeleteManifestRead<E::BoundPredicate>,
    ) -> bool {
        &&& read.manifest_file == m.0
        &&& read.partition_filter == m.1.partition_filter()
        &&& self.entries_outcome(m.0, m.1.partition_filter(), read.entries, Ok(read.found))
    }

    /// Whether reads are of manifests with these matches, one by one.
    pub open spec fn reads_follow(
        self,
        ms: Seq<(ManifestFile, ManifestMatch<E::BoundPredicate>)>,
        reads: Seq<DeleteManifestRead<E::BoundPredicate>>,
    ) -> bool {
        &&& reads.len() == ms.len()
        &&& forall|i: int| 0 <= i < ms.len() ==> self.read_follows(ms[i], #[trigger] reads[i])
    }

    /// The contexts that reads of delete manifests come to.
    pub open spec fn contexts_of_reads(
        self,
        reads: Seq<DeleteManifestRead<E::BoundPredicate>>,
    ) -> Seq<DeleteFileContext<E>> {
        reads.flat_map(
            |read: DeleteManifestRead<E::BoundPredicate>|
                self.delete_file_contexts(read.manifest_file, read.entries, read.found),
        )
    }

    /// The delete manifests that the delete files of a scan come from. An incremental scan ignores
    /// delete files.
    pub open spec fn delete_manifests(self, manifest_list: ManifestList) -> Seq<ManifestFile> {
        if self.to_snapshot_id is Some {
            Seq::empty()
        } else {
            manifest_list.entries@.filter(of_kind(ManifestContentType::Deletes))
        }
    }

    /// Starts finding the delete files that a scan needs, among the manifests of a list.
    pub fn load_delete_file_contexts_for_streams<'a>(&'a self, manifest_list: &ManifestList) -> (run:
        DeleteFileRun<'a, E>)
        ensures
            run.wf(),
            run.plan() == *self,
            run.manifest_files() == self.delete_manifests(*manifest_list),
            run.matches() == Seq::<ManifestMatch<E::BoundPredicate>>::empty(),
            run.reads() == Seq::<DeleteManifestRead<E::BoundPredicate>>::empty(),
            run.awaits() is None,
    {
        let manifest_files: Vec<ManifestFile> = if self.to_snapshot_id.is_some() {
            Vec::new()
        } else {
            manifests_of_kind(&manifest_list.entries, ManifestContentType::Deletes)
        };
        proof {
            reveal(Seq::filter);
        }
        DeleteFileRun {
            plan: self,
            manifest_files,
            tested: 0,
            awaits: None,
            contexts: Vec::new(),
            matches: Ghost(Seq::empty()),
            reads: Ghost(Seq::empty()),
        }
    }
}

/// Whether the manifests from one position up to another cannot list a matching file.
pub open spec fn all_excluded<B>(matches: Seq<ManifestMatch<B>>, from: int, to: int) -> bool {
    forall|i: int| from <= i < to ==> #[trigger] matches[i] == ManifestMatch::<B>::Excluded
}

/// What a search for delete files needs next.
pub enum DeleteFileAction {
    /// The entries of this manifest.
    LoadManifest(ManifestFile),
    /// Nothing: all delete files are found.
    Finish,
}

/// Where a search for the delete files of a scan stands.
pub struct DeleteFileRun<'a, E: ScanServices> {
    plan: &'a PlanContext<E>,
    manifest_files: Vec<ManifestFile>,
    /// How many of the manifests were tested.
    tested: usize,
    /// The partition filter for the manifest that is being loaded, if one is.
    awaits: Option<Option<Arc<E::BoundPredicate>>>,
    contexts: Vec<DeleteFileContext<E>>,
    matches: Ghost<Seq<ManifestMatch<E::BoundPredicate>>>,
    reads: Ghost<Seq<DeleteManifestRead<E::BoundPredicate>>>,
}

impl<'a, E: ScanServices> DeleteFileRun<'a, E> {
    /// The plan that the delete files are for.
    pub closed spec fn plan(self) -> PlanContext<E> {
        *self.plan
    }

    /// The manifests that are searched.
    pub closed spec fn manifest_files(self) -> Seq<ManifestFile> {
        self.manifest_files@
    }

    /// What was found of the manifests that were tested so far.
    pub closed spec fn matches(self) -> Seq<ManifestMatch<E::BoundPredicate>> {
        self.matches@
    }

    /// What was read of the manifests that were loaded so far.
    pub closed spec fn reads(self) -> Seq<DeleteManifestRead<E::BoundPredicate>> {
        self.reads@
    }

    /// The manifest that is being loaded, and the partition filter for its entries.
    pub closed spec fn awaits(self) -> Option<(ManifestFile, Option<Arc<E::BoundPredicate>>)> {
        match self.awaits {
            Some(filter) => Some((self.manifest_files@[self.tested - 1], filter)),
            None => None,
        }
    }

    /// The manifests among the tested ones that are not excluded.
    pub open spec fn tested_and_admitted(self) -> Seq<
        (ManifestFile, ManifestMatch<E::BoundPredicate>),
    > {
        self.manifest_files().take(self.matches().len() as int).zip_with(self.matches()).filter(
            admitted(ManifestContentType::Deletes),
        )
    }

    /// The run is in order: each manifest that is not excluded was read in its turn, but for the
    /// one that is being loaded, and the contexts are those that the reads come to.
    pub closed spec fn wf(self) -> bool {
        let done = self.tested_and_admitted();
        &&& self.tested == self.matches@.len()
        &&& self.tested <= self.manifest_files@.len()
        &&& forall|i: int|
            0 <= i < self.manifest_files@.len() ==> #[trigger] self.manifest_files@[i].content
                == ManifestContentType::Deletes
        &&& self.plan.matches_before(self.manifest_files@, self.tested as int, self.matches@)
        &&& match self.awaits {
            None => self.plan.reads_follow(done, self.reads@),
            Some(filter) => {
                &&& self.tested > 0
                &&& done.len() > 0
                &&& done.last() == (
                    self.manifest_files@[self.tested - 1],
                    self.matches@[self.tested - 1],
                )
                &&& filter == done.last().1.partition_filter()
                &&& self.plan.reads_follow(done.drop_last(), self.reads@)
            },
        }
        &&& self.contexts@ == self.plan.contexts_of_reads(self.reads@)
    }

    /// Tests manifests until one has to be loaded, or none is left.
    ///
    /// Fails with the error of the first manifest that could not be tested.
    pub fn next_action(&mut self) -> (action: Result<DeleteFileAction, Error>)
        requires
            old(self).wf(),
            old(self).awaits() is None,
        ensures
            final(self).wf(),
            final(self).plan() == old(self).plan(),
            final(self).manifest_files() == old(self).manifest_files(),
            final(self).reads() == old(self).reads(),
            old(self).matches().is_prefix_of(final(self).matches()),
            final(self).matches().len() <= final(self).manifest_files().len(),
            final(self).plan().matches_before(
                final(self).manifest_files(),
                final(self).matches().len() as int,
                final(self).matches(),
            ),
            match action {
                Ok(DeleteFileAction::LoadManifest(manifest_file)) => {
                    let last = final(self).matches().len() - 1;
                    &&& old(self).matches().len() <= last < final(self).manifest_files().len()
                    &&& all_excluded(final(self).matches(), old(self).matches().len() as int, last)
                    &&& final(self).matches()[last] != ManifestMatch::<E::BoundPredicate>::Excluded
                    &&& manifest_file == final(self).manifest_files()[last]
                    &&& final(self).awaits() == Some(
                        (manifest_file, final(self).matches()[last].partition_filter()),
                    )
                },
                Ok(DeleteFileAction::Finish) => {
                    &&& final(self).awaits() is None
                    &&& final(self).matches().len() == final(self).manifest_files().len()
                    &&& all_excluded(
                        final(self).matches(),
                        old(self).matches().len() as int,
                        final(self).matches().len() as int,
                    )
                },
                Err(error) => {
                    &&& final(self).awaits() is None
                    &&& final(self).matches().len() < final(self).manifest_files().len()
                    &&& all_excluded(
                        final(self).matches(),
                        old(self).matches().len() as int,
                        final(self).matches().len() as int,
                    )
                    &&& final(self).plan().match_outcome(
                        final(self).manifest_files()[final(self).matches().len() as int],
                        Err(error),
                    )
                },
            },
            old(self).plan().predicate is None ==> action is Ok,
    {
        while self.tested < self.manifest_files.len()
            invariant
                self.wf(),
                self.awaits is None,
                self.plan == old(self).plan,
                self.manifest_files == old(self).manifest_files,
                self.reads == old(self).reads,
                old(self).matches@.is_prefix_of(self.matches@),
                all_excluded(
                    self.matches@,
                    old(self).matches@.len() as int,
                    self.matches@.len() as int,
                ),
            decreases self.manifest_files.len() - self.tested,
        {
            let ghost before = *self;
            let manifest_file = self.manifest_files[self.tested].clone();
            let found = match self.plan.match_manifest(&manifest_file) {
                Err(error) => {
                    return Err(error);
                },
                Ok(found) => found,
            };
            let filter = found.unless_excluded();
            proof {
                self.matches@ = self.matches@.push(found);
            }
            self.tested = self.tested + 1;
            proof {
                let n = before.tested as int;
                let pairs = self.manifest_files@.take(n + 1).zip_with(self.matches@);
                assert(pairs.take(n) =~= before.manifest_files@.take(n).zip_with(before.matches@));
                assert(pairs.take(n + 1) =~= pairs);
                assert(pairs[n] == (manifest_file, found));
                lemma_filter_map_take_succ(
                    pairs,
                    n,
                    admitted(ManifestContentType::Deletes),
                    |m: (ManifestFile, ManifestMatch<E::BoundPredicate>)| m,
                );
            }
            match filter {
                Some(filter) => {
                    self.awaits = Some(filter);
                    assert(self.tested_and_admitted().drop_last()
                        =~= before.tested_and_admitted());
                    return Ok(DeleteFileAction::LoadManifest(manifest_file));
                },
                None => {},
            }
        }
        Ok(DeleteFileAction::Finish)
    }

    /// Takes in the manifest that was being loaded.
    ///
    /// Fails with the error of the first entry that could not be tested; the run then stands where
    /// it stood.
    pub fn manifest_loaded(&mut self, manifest: &Manifest) -> (outcome: Result<(), Error>)
        requires
            old(self).wf(),
            old(self).awaits() is Some,
        ensures
            final(self).wf(),
            final(self).plan() == old(self).plan(),
            final(self).manifest_files() == old(self).manifest_files(),
            final(self).matches() == old(self).matches(),
            ({
                let (manifest_file, partition_filter) = old(self).awaits()->0;
                match outcome {
                    Ok(_) => {
                        &&& final(self).awaits() is None
                        &&& exists|found: Seq<bool>|
                            {
                                &&& #[trigger] old(self).plan().entries_outcome(
                                    manifest_file,
                                    partition_filter,
                                    manifest.entries@,
                                    Ok(found),
                                )
                                &&& final(self).reads() == old(self).reads().push(
                                    DeleteManifestRead {
                                        manifest_file,
                                        partition_filter,
                                        entries: manifest.entries@,
                                        found,
                                    },
                                )
                            }
                    },
                    Err(error) => {
                        &&& *final(self) == *old(self)
                        &&& old(self).plan().entries_outcome(
                            manifest_file,
                            partition_filter,
                            manifest.entries@,
                            Err(error),
                        )
                    },
                }
            }),
            (old(self).awaits() matches Some((_, filter)) && filter is None) ==> outcome is Ok,
    {
        let partition_filter = match &self.awaits {
            Some(Some(filter)) => Some(filter.clone()),
            _ => None,
        };
        let manifest_file = self.manifest_files[self.tested - 1].clone();
        assert(old(self).awaits() == Some((manifest_file, partition_filter)));
        let found = match self.plan.match_delete_entries(
            &manifest_file,
            &partition_filter,
            manifest,
        ) {
            Err(error) => {
                return Err(error);
            },
            Ok(found) => found,
        };
        let mut contexts = self.plan.arrange_delete_file_contexts(
            &manifest_file,
            manifest,
            &found,
        );
        self.contexts.append(&mut contexts);
        self.awaits = None;
        proof {
            let read = DeleteManifestRead {
                manifest_file,
                partition_filter,
                entries: manifest.entries@,
                found: found@,
            };
            self.reads@.lemma_flat_map_push(
                |read: DeleteManifestRead<E::BoundPredicate>|
                    self.plan.delete_file_contexts(read.manifest_file, read.entries, read.found),
                read,
            );
            self.reads@ = self.reads@.push(read);
            assert(self.reads() == old(self).reads().push(read));
        }
        Ok(())
    }

    /// The delete files that were found.
    pub fn finish(self) -> (contexts: Vec<DeleteFileContext<E>>)
        requires
            self.wf(),
            self.awaits() is None,
            self.matches().len() == self.manifest_files().len(),
        ensures
            self.plan().matches_outcome(self.manifest_files(), Ok(self.matches())),
            self.plan().reads_follow(
                self.manifest_files().zip_with(self.matches()).filter(
                    admitted(ManifestContentType::Deletes),
                ),
                self.reads(),
            ),
            contexts@ == self.plan().contexts_of_reads(self.reads()),
    {
        assert(self.manifest_files@.take(self.tested as int) =~= self.manifest_files@);
        self.contexts
    }
}

} // verus!
