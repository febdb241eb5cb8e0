//! What becomes of the manifests of a table when files are removed.
use std::sync::Arc;
use vstd::prelude::*;

use crate::metadata::manifest::{
    Manifest, ManifestContentType, ManifestEntry, ManifestFile, ManifestList,
};
use crate::metadata::snapshot::Snapshot;
use crate::seqs::{clone_arcs, lemma_filter_map_take_succ};
use crate::transaction::removed_paths::{RemovedPaths, RemovedPathsView};

verus! {

/// A manifest alongside what its manifest list says of it.
pub type LoadedManifest = (ManifestFile, Arc<Manifest>);

/// What becomes of a manifest.
#[derive(Clone, Copy, PartialEq, Eq, Structural, Debug)]
pub enum ManifestDisposition {
    /// None of its files is removed: it stays as it is.
    Keep,
    /// All of its files are removed: it goes.
    Drop,
    /// Some of its files are removed: it is written anew without them.
    Rewrite,
}

/// Whether no entry has a removed path.
pub open spec fn untouched(
    entries: Seq<Arc<ManifestEntry>>,
    removed: RemovedPathsView,
) -> bool {
    forall|i: int| 0 <= i < entries.len() ==> !removed.has_path(*#[trigger] entries[i])
}

/// Whether all entries have a removed path.
pub open spec fn emptied(entries: Seq<Arc<ManifestEntry>>, removed: RemovedPathsView) -> bool {
    forall|i: int| 0 <= i < entries.len() ==> removed.has_path(*#[trigger] entries[i])
}

/// What becomes of a manifest.
pub open spec fn disposition(
    entries: Seq<Arc<ManifestEntry>>,
    removed: RemovedPathsView,
) -> ManifestDisposition {
    if untouched(entries, removed) {
        ManifestDisposition::Keep
    } else if emptied(entries, removed) {
        ManifestDisposition::Drop
    } else {
        ManifestDisposition::Rewrite
    }
}

/// Whether an entry goes into the manifest that is written anew: its path is not removed, and it
/// does not itself record a removal.
pub open spec fn survives(removed: RemovedPathsView) -> spec_fn(Arc<ManifestEntry>) -> bool {
    |entry: Arc<ManifestEntry>| !removed.has_path(*entry) && entry.alive()
}

/// A manifest that is to be written. Its entries are added as entries of existing files, so that
/// none of them seems to be new.
pub struct ManifestRewrite {
    pub content: ManifestContentType,
    pub partition_spec_id: i32,
    pub existing_entries: Vec<Arc<ManifestEntry>>,
}

impl ManifestRewrite {
    /// Whether this is how a manifest is written anew.
    pub open spec fn replaces(
        self,
        manifest_file: ManifestFile,
        entries: Seq<Arc<ManifestEntry>>,
        removed: RemovedPathsView,
    ) -> bool {
        &&& self.content == ManifestContentType::Data
        &&& self.partition_spec_id == manifest_file.partition_spec_id
        &&& self.existing_entries@ == entries.filter(survives(removed))
    }

    /// The same manifest to write.
    pub fn copy(&self) -> (copy: Self)
        ensures
            copy.content == self.content,
            copy.partition_spec_id == self.partition_spec_id,
            copy.existing_entries@ == self.existing_entries@,
    {
        ManifestRewrite {
            content: self.content,
            partition_spec_id: self.partition_spec_id,
            existing_entries: clone_arcs(&self.existing_entries),
        }
    }
}

/// Decides what becomes of a manifest.
pub fn dispose(manifest: &Manifest, removed: &RemovedPaths) -> (fate: ManifestDisposition)
    ensures
        fate == disposition(manifest.entries@, removed@),
{
    let mut found_removed: bool = false;
    let mut found_remaining: bool = false;
    let mut i: usize = 0;
    while i < manifest.entries.len()
        invariant
            i <= manifest.entries.len(),
            found_removed == !untouched(manifest.entries@.take(i as int), removed@),
            found_remaining == !emptied(manifest.entries@.take(i as int), removed@),
        decreases manifest.entries.len() - i,
    {
        let ghost before = manifest.entries@.take(i as int);
        let ghost after = manifest.entries@.take(i + 1);
        proof {
            assert(forall|j: int| 0 <= j < i ==> before[j] == after[j]);
            assert(after[i as int] == manifest.entries@[i as int]);
            if !untouched(before, removed@) {
                let j = choose|j: int|
                    0 <= j < before.len() && removed@.has_path(*#[trigger] before[j]);
                assert(removed@.has_path(*after[j]));
            }
            if !emptied(before, removed@) {
                let j = choose|j: int|
                    0 <= j < before.len() && !removed@.has_path(*#[trigger] before[j]);
                assert(!removed@.has_path(*after[j]));
            }
        }
        if removed.contains_path(&manifest.entries[i]) {
            found_removed = true;
            assert(removed@.has_path(*after[i as int]));
        } else {
            found_remaining = true;
            assert(!removed@.has_path(*after[i as int]));
        }
        i += 1;
    }
    assert(manifest.entries@.take(i as int) =~= manifest.entries@);
    if !found_removed {
        ManifestDisposition::Keep
    } else if found_remaining {
        ManifestDisposition::Rewrite
    } else {
        ManifestDisposition::Drop
    }
}

/// How a manifest is written anew without the removed files.
pub fn rewrite_manifest(
    manifest_file: &ManifestFile,
    manifest: &Manifest,
    removed: &RemovedPaths,
) -> (rewrite: ManifestRewrite)
    ensures
        rewrite.replaces(*manifest_file, manifest.entries@, removed@),
{
    let mut entries: Vec<Arc<ManifestEntry>> = Vec::new();
    let mut i: usize = 0;
    proof {
        reveal(Seq::filter);
    }
    while i < manifest.entries.len()
        invariant
            i <= manifest.entries.len(),
            entries@ == manifest.entries@.take(i as int).filter(survives(removed@)),
        decreases manifest.entries.len() - i,
    {
        proof {
            lemma_filter_map_take_succ(
                manifest.entries@,
                i as int,
                survives(removed@),
                |e: Arc<ManifestEntry>| e,
            );
        }
        let entry = &manifest.entries[i];
        // Files that are removed are left out, and so are entries that record removals.
        if !removed.contains_path(entry) && entry.is_alive() {
            entries.push(entry.clone());
        }
        i += 1;
    }
    assert(manifest.entries@.take(i as int) =~= manifest.entries@);
    ManifestRewrite {
        content: ManifestContentType::Data,
        partition_spec_id: manifest_file.partition_spec_id,
        existing_entries: entries,
    }
}

/// Whether a manifest is written anew.
pub open spec fn is_rewritten(removed: RemovedPathsView) -> spec_fn(LoadedManifest) -> bool {
    |loaded: LoadedManifest|
        disposition(loaded.1.entries@, removed) == ManifestDisposition::Rewrite
}

/// The manifests that are written anew, in order.
pub open spec fn rewrites(
    manifests: Seq<LoadedManifest>,
    removed: RemovedPathsView,
) -> Seq<LoadedManifest> {
    manifests.filter(is_rewritten(removed))
}

/// The manifests that stay in the table, in order, where `written` are the ones that were written
/// in the place of those that are written anew.
pub open spec fn existing_files(
    manifests: Seq<LoadedManifest>,
    written: Seq<ManifestFile>,
    removed: RemovedPathsView,
) -> Seq<ManifestFile>
    decreases manifests.len(),
{
    if manifests.len() == 0 {
        Seq::empty()
    } else {
        let (manifest_file, manifest) = manifests.last();
        let others = manifests.drop_last();
        match disposition(manifest.entries@, removed) {
            ManifestDisposition::Keep => existing_files(others, written, removed).push(
                manifest_file,
            ),
            ManifestDisposition::Drop => existing_files(others, written, removed),
            ManifestDisposition::Rewrite => existing_files(
                others,
                written.drop_last(),
                removed,
            ).push(written.last()),
        }
    }
}

/// What one more manifest adds, where it is not written anew.
proof fn lemma_one_more(
    manifests: Seq<LoadedManifest>,
    written: Seq<ManifestFile>,
    removed: RemovedPathsView,
    loaded: LoadedManifest,
)
    ensures
        rewrites(manifests.push(loaded), removed) == if is_rewritten(removed)(loaded) {
            rewrites(manifests, removed).push(loaded)
        } else {
            rewrites(manifests, removed)
        },
        disposition(loaded.1.entries@, removed) == ManifestDisposition::Keep ==> existing_files(
            manifests.push(loaded),
            written,
            removed,
        ) == existing_files(manifests, written, removed).push(loaded.0),
        disposition(loaded.1.entries@, removed) == ManifestDisposition::Drop ==> existing_files(
            manifests.push(loaded),
            written,
            removed,
        ) == existing_files(manifests, written, removed),
{
    reveal(Seq::filter);
    assert(manifests.push(loaded).drop_last() =~= manifests);
}

/// What a manifest that is written anew adds.
proof fn lemma_one_more_written(
    manifests: Seq<LoadedManifest>,
    written: Seq<ManifestFile>,
    removed: RemovedPathsView,
    loaded: LoadedManifest,
    manifest_file: ManifestFile,
)
    requires
        is_rewritten(removed)(loaded),
    ensures
        existing_files(manifests.push(loaded), written.push(manifest_file), removed)
            == existing_files(manifests, written, removed).push(manifest_file),
{
    assert(manifests.push(loaded).drop_last() =~= manifests);
    assert(written.push(manifest_file).drop_last() =~= written);
}

/// Keeps a manifest, drops it, or says how it is written anew.
fn keep_or_rewrite(
    manifest_file: &ManifestFile,
    manifest: &Manifest,
    removed: &RemovedPaths,
    existing: &mut Vec<ManifestFile>,
) -> (rewrite: Option<ManifestRewrite>)
    ensures
        match disposition(manifest.entries@, removed@) {
            ManifestDisposition::Keep => rewrite is None && final(existing)@ == old(
                existing,
            )@.push(*manifest_file),
            ManifestDisposition::Drop => rewrite is None && final(existing)@ == old(existing)@,
            ManifestDisposition::Rewrite => final(existing)@ == old(existing)@ && (rewrite matches
                Some(rewrite) && rewrite.replaces(*manifest_file, manifest.entries@, removed@)),
        },
{
    match dispose(manifest, removed) {
        ManifestDisposition::Keep => {
            existing.push(manifest_file.clone());
            None
        },
        ManifestDisposition::Drop => None,
        ManifestDisposition::Rewrite => Some(rewrite_manifest(manifest_file, manifest, removed)),
    }
}

/// What a pass over the manifests of a snapshot needs next.
pub enum RewriteAction {
    /// The manifest list of this snapshot.
    LoadManifestList(Arc<Snapshot>),
    /// The entries of this manifest.
    LoadManifest(ManifestFile),
    /// That this manifest is written.
    WriteManifest(ManifestRewrite),
    /// Nothing: the pass is over.
    Finish,
}

/// A pass over the manifests of a snapshot, one after the other, that finds those that stay in
/// the table and has others written anew.
pub struct ExistingManifestRun {
    removed: Arc<RemovedPaths>,
    /// The snapshot whose manifest list is being loaded, if it is.
    snapshot: Option<Arc<Snapshot>>,
    manifest_files: Vec<ManifestFile>,
    /// How many of the manifests were handed in.
    loaded: usize,
    /// The manifest that is being written, if one is.
    writing: Option<ManifestRewrite>,
    existing: Vec<ManifestFile>,
    manifests: Ghost<Seq<LoadedManifest>>,
    written: Ghost<Seq<ManifestFile>>,
}

impl ExistingManifestRun {
    /// The paths of the removed files.
    pub closed spec fn removed(self) -> RemovedPathsView {
        self.removed@
    }

    /// The snapshot whose manifest list is being loaded.
    pub closed spec fn awaited_list(self) -> Option<Arc<Snapshot>> {
        self.snapshot
    }

    /// The manifests of the snapshot.
    pub closed spec fn manifest_files(self) -> Seq<ManifestFile> {
        self.manifest_files@
    }

    /// The manifests that were handed in.
    pub closed spec fn manifests(self) -> Seq<LoadedManifest> {
        self.manifests@
    }

    /// The manifests that were written.
    pub closed spec fn written(self) -> Seq<ManifestFile> {
        self.written@
    }

    /// Whether the last manifest that was handed in still has to be written anew.
    pub open spec fn is_writing(self) -> bool {
        self.written().len() < rewrites(self.manifests(), self.removed()).len()
    }

    /// The run is in order: it holds what the manifests handed in and written so far come to.
    pub closed spec fn wf(self) -> bool {
        &&& self.loaded == self.manifests@.len()
        &&& self.loaded <= self.manifest_files@.len()
        &&& forall|i: int|
            0 <= i < self.loaded ==> (#[trigger] self.manifests@[i]).0 == self.manifest_files@[i]
        &&& self.snapshot is Some ==> self.manifest_files@.len() == 0
        &&& match self.writing {
            Some(rewrite) => {
                &&& self.loaded > 0
                &&& is_rewritten(self.removed@)(self.manifests@.last())
                &&& rewrite.replaces(
                    self.manifests@.last().0,
                    self.manifests@.last().1.entries@,
                    self.removed@,
                )
                &&& self.written@.len() + 1 == rewrites(self.manifests@, self.removed@).len()
                &&& self.existing@ == existing_files(
                    self.manifests@.drop_last(),
                    self.written@,
                    self.removed@,
                )
            },
            None => {
                &&& self.written@.len() == rewrites(self.manifests@, self.removed@).len()
                &&& self.existing@ == existing_files(
                    self.manifests@,
                    self.written@,
                    self.removed@,
                )
            },
        }
    }

    /// Whether this is what the run needs next.
    pub open spec fn needs(self, action: RewriteAction) -> bool {
        match self.awaited_list() {
            Some(snapshot) => action == RewriteAction::LoadManifestList(snapshot),
            None => if self.is_writing() {
                action matches RewriteAction::WriteManifest(rewrite) && rewrite.replaces(
                    self.manifests().last().0,
                    self.manifests().last().1.entries@,
                    self.removed(),
                )
            } else if self.manifests().len() < self.manifest_files().len() {
                action == RewriteAction::LoadManifest(
                    self.manifest_files()[self.manifests().len() as int],
                )
            } else {
                action is Finish
            },
        }
    }

    /// The manifest that has to be written anew is the one that was handed in last. The ones
    /// before it that had to be were written.
    pub proof fn lemma_writes_last(self)
        requires
            self.wf(),
            self.is_writing(),
        ensures
            self.written().len() + 1 == rewrites(self.manifests(), self.removed()).len(),
            rewrites(self.manifests(), self.removed()).last() == self.manifests().last(),
    {
        reveal(Seq::filter);
    }

    /// No more manifests were written than had to be.
    pub proof fn lemma_written_in_turn(self)
        requires
            self.wf(),
        ensures
            self.written().len() <= rewrites(self.manifests(), self.removed()).len(),
    {
    }

    /// Starts a pass over the manifests of a snapshot; without one there is nothing to pass over.
    pub fn start(snapshot: Option<Arc<Snapshot>>, removed: Arc<RemovedPaths>) -> (run: Self)
        ensures
            run.wf(),
            run.removed() == removed@,
            run.awaited_list() == snapshot,
            run.manifest_files() == Seq::<ManifestFile>::empty(),
            run.manifests() == Seq::<LoadedManifest>::empty(),
            run.written() == Seq::<ManifestFile>::empty(),
    {
        proof {
            reveal(Seq::filter);
        }
        ExistingManifestRun {
            removed,
            snapshot,
            manifest_files: Vec::new(),
            loaded: 0,
            writing: None,
            existing: Vec::new(),
            manifests: Ghost(Seq::empty()),
            written: Ghost(Seq::empty()),
        }
    }

    /// What is to be done next.
    pub fn next_action(&self) -> (action: RewriteAction)
        requires
            self.wf(),
        ensures
            self.needs(action),
    {
        match &self.snapshot {
            Some(snapshot) => RewriteAction::LoadManifestList(snapshot.clone()),
            None => match &self.writing {
                Some(rewrite) => RewriteAction::WriteManifest(rewrite.copy()),
                None => if self.loaded < self.manifest_files.len() {
                    RewriteAction::LoadManifest(self.manifest_files[self.loaded].clone())
                } else {
                    RewriteAction::Finish
                },
            },
        }
    }

    /// Takes in the manifest list of the snapshot.
    pub fn manifest_list_loaded(&mut self, manifest_list: ManifestList)
        requires
            old(self).wf(),
            old(self).awaited_list() is Some,
        ensures
            final(self).wf(),
            final(self).removed() == old(self).removed(),
            final(self).awaited_list() is None,
            final(self).manifest_files() == manifest_list.entries@,
            final(self).manifests() == old(self).manifests(),
            final(self).written() == old(self).written(),
    {
        self.snapshot = None;
        self.manifest_files = manifest_list.entries;
    }

    /// Takes in the manifest that was needed.
    pub fn manifest_loaded(&mut self, manifest: Arc<Manifest>)
        requires
            old(self).wf(),
            old(self).awaited_list() is None,
            !old(self).is_writing(),
            old(self).manifests().len() < old(self).manifest_files().len(),
        ensures
            final(self).wf(),
            final(self).removed() == old(self).removed(),
            final(self).awaited_list() is None,
            final(self).manifest_files() == old(self).manifest_files(),
            final(self).manifests() == old(self).manifests().push(
                (old(self).manifest_files()[old(self).manifests().len() as int], manifest),
            ),
            final(self).written() == old(self).written(),
    {
        assert(self.loaded < self.manifest_files.len());
        let ghost loaded = (self.manifest_files@[self.loaded as int], manifest);
        let ghost before = self.manifests@;
        self.writing = keep_or_rewrite(
            &self.manifest_files[self.loaded],
            &manifest,
            &self.removed,
            &mut self.existing,
        );
        self.loaded = self.loaded + 1;
        proof {
            lemma_one_more(before, self.written@, self.removed@, loaded);
            self.manifests@ = before.push(loaded);
            assert(self.manifests@.drop_last() =~= before);
            assert forall|i: int| 0 <= i < self.loaded implies (
            #[trigger] self.manifests@[i]).0 == self.manifest_files@[i] by {
                if i < before.len() {
                    assert(self.manifests@[i] == before[i]);
                }
            }
        }
    }

    /// Takes in the manifest that was written.
    pub fn manifest_written(&mut self, manifest_file: ManifestFile)
        requires
            old(self).wf(),
            old(self).is_writing(),
        ensures
            final(self).wf(),
            final(self).removed() == old(self).removed(),
            final(self).awaited_list() is None,
            final(self).manifest_files() == old(self).manifest_files(),
            final(self).manifests() == old(self).manifests(),
            final(self).written() == old(self).written().push(manifest_file),
    {
        proof {
            lemma_one_more_written(
                self.manifests@.drop_last(),
                self.written@,
                self.removed@,
                self.manifests@.last(),
                manifest_file,
            );
            assert(self.manifests@.drop_last().push(self.manifests@.last()) =~= self.manifests@);
            self.written@ = self.written@.push(manifest_file);
        }
        self.writing = None;
        self.existing.push(manifest_file);
    }

    /// The manifests that stay in the table.
    pub fn finish(self) -> (files: Vec<ManifestFile>)
        requires
            self.wf(),
            self.needs(RewriteAction::Finish),
        ensures
            self.manifests().map_values(|loaded: LoadedManifest| loaded.0)
                == self.manifest_files(),
            self.written().len() == rewrites(self.manifests(), self.removed()).len(),
            files@ == existing_files(self.manifests(), self.written(), self.removed()),
    {
        assert(self.manifests@.map_values(|loaded: LoadedManifest| loaded.0)
            =~= self.manifest_files@);
        self.existing
    }
}

/// A pass over manifests that are all at hand, which finds those that stay in the table and has
/// others written anew.
pub struct PreloadedManifestRun {
    removed: Arc<RemovedPaths>,
    manifests: Arc<Vec<LoadedManifest>>,
    /// How many of the manifests are done with.
    handled: usize,
    /// The manifest that is being written, if one is.
    writing: Option<ManifestRewrite>,
    existing: Vec<ManifestFile>,
    written: Ghost<Seq<ManifestFile>>,
}

impl PreloadedManifestRun {
    /// The paths of the removed files.
    pub closed spec fn removed(self) -> RemovedPathsView {
        self.removed@
    }

    /// The manifests.
    pub closed spec fn manifests(self) -> Seq<LoadedManifest> {
        self.manifests@
    }

    /// The manifests that were written.
    pub closed spec fn written(self) -> Seq<ManifestFile> {
        self.written@
    }

    /// Whether a manifest still has to be written anew.
    pub open spec fn is_writing(self) -> bool {
        self.written().len() < rewrites(self.manifests(), self.removed()).len()
    }

    /// The manifest that has to be written anew next.
    pub open spec fn next_rewrite(self) -> LoadedManifest {
        rewrites(self.manifests(), self.removed())[self.written().len() as int]
    }

    /// What the manifests that are done with come to.
    spec fn adds_up(self) -> bool {
        let done = self.manifests@.take(self.handled as int);
        &&& self.handled <= self.manifests@.len()
        &&& self.written@.len() == rewrites(done, self.removed@).len()
        &&& self.existing@ == existing_files(done, self.written@, self.removed@)
    }

    /// The run is in order: it holds what the manifests done with so far come to, and the next one
    /// has to be written anew.
    pub closed spec fn wf(self) -> bool {
        &&& self.adds_up()
        &&& match self.writing {
            Some(rewrite) => {
                let (manifest_file, manifest) = self.manifests@[self.handled as int];
                &&& self.handled < self.manifests@.len()
                &&& is_rewritten(self.removed@)((manifest_file, manifest))
                &&& rewrite.replaces(manifest_file, manifest.entries@, self.removed@)
            },
            None => self.handled == self.manifests@.len(),
        }
    }

    /// Where the run stands among the manifests to be written.
    proof fn lemma_next(self)
        requires
            self.wf(),
        ensures
            self.is_writing() == (self.writing is Some),
            self.is_writing() ==> self.next_rewrite() == self.manifests@[self.handled as int],
    {
        let all = self.manifests@;
        let done = all.take(self.handled as int);
        if self.writing is Some {
            let next = all[self.handled as int];
            let rest = all.skip(self.handled + 1);
            assert(all =~= done.push(next) + rest);
            Seq::filter_distributes_over_add(done.push(next), rest, is_rewritten(self.removed@));
            lemma_one_more(done, self.written@, self.removed@, next);
        } else {
            assert(done =~= all);
        }
    }

    /// Starts a pass over manifests.
    pub fn start(manifests: Arc<Vec<LoadedManifest>>, removed: Arc<RemovedPaths>) -> (run: Self)
        ensures
            run.wf(),
            run.removed() == removed@,
            run.manifests() == manifests@,
            run.written() == Seq::<ManifestFile>::empty(),
    {
        proof {
            reveal(Seq::filter);
        }
        let mut run = PreloadedManifestRun {
            removed,
            manifests,
            handled: 0,
            writing: None,
            existing: Vec::new(),
            written: Ghost(Seq::empty()),
        };
        run.advance();
        run
    }

    /// Goes on to the next manifest that has to be written anew.
    fn advance(&mut self)
        requires
            old(self).adds_up(),
            old(self).writing is None,
        ensures
            final(self).wf(),
            final(self).removed == old(self).removed,
            final(self).manifests == old(self).manifests,
            final(self).written == old(self).written,
    {
        while self.handled < self.manifests.len() && self.writing.is_none()
            invariant
                self.adds_up(),
                self.writing is Some ==> self.wf(),
                self.removed == old(self).removed,
                self.manifests == old(self).manifests,
                self.written == old(self).written,
            decreases
                    self.manifests.len() - self.handled,
                    if self.writing is None {
                        1int
                    } else {
                        0int
                    },
        {
            let ghost next = self.manifests@[self.handled as int];
            proof {
                lemma_one_more(
                    self.manifests@.take(self.handled as int),
                    self.written@,
                    self.removed@,
                    next,
                );
                assert(self.manifests@.take(self.handled + 1) =~= self.manifests@.take(
                    self.handled as int,
                ).push(next));
            }
            let (manifest_file, manifest) = &self.manifests[self.handled];
            self.writing =
            keep_or_rewrite(manifest_file, manifest, &self.removed, &mut self.existing);
            if self.writing.is_none() {
                self.handled = self.handled + 1;
            }
        }
    }

    /// The manifest that has to be written next, if there is one.
    pub fn next_write(&self) -> (rewrite: Option<ManifestRewrite>)
        requires
            self.wf(),
        ensures
            rewrite is Some == self.is_writing(),
            rewrite matches Some(rewrite) ==> rewrite.replaces(
                self.next_rewrite().0,
                self.next_rewrite().1.entries@,
                self.removed(),
            ),
    {
        proof {
            self.lemma_next();
        }
        match &self.writing {
            Some(rewrite) => Some(rewrite.copy()),
            None => None,
        }
    }

    /// Takes in the manifest that was written.
    pub fn manifest_written(&mut self, manifest_file: ManifestFile)
        requires
            old(self).wf(),
            old(self).is_writing(),
        ensures
            final(self).wf(),
            final(self).removed() == old(self).removed(),
            final(self).manifests() == old(self).manifests(),
            final(self).written() == old(self).written().push(manifest_file),
    {
        proof {
            self.lemma_next();
            assert(self.handled < self.manifests.len());
            let done = self.manifests@.take(self.handled as int);
            let next = self.manifests@[self.handled as int];
            lemma_one_more(done, self.written@, self.removed@, next);
            lemma_one_more_written(done, self.written@, self.removed@, next, manifest_file);
            assert(self.manifests@.take(self.handled + 1) =~= done.push(next));
            self.written@ = self.written@.push(manifest_file);
        }
        self.writing = None;
        self.existing.push(manifest_file);
        self.handled = self.handled + 1;
        self.advance();
    }

    /// The manifests that stay in the table.
    pub fn finish(self) -> (files: Vec<ManifestFile>)
        requires
            self.wf(),
            !self.is_writing(),
        ensures
            self.written().len() == rewrites(self.manifests(), self.removed()).len(),
            files@ == existing_files(self.manifests(), self.written(), self.removed()),
    {
        proof {
            self.lemma_next();
            assert(self.manifests@.take(self.handled as int) =~= self.manifests@);
        }
        self.existing
    }
}

} // verus!
