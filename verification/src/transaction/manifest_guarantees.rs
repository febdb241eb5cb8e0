//! What a rewrite of files promises of entries and manifests, said of inputs and results alone.
use std::sync::Arc;
use vstd::hash_map::StringHashMap;
use vstd::hash_set::StringHashSet;
use vstd::prelude::*;

use crate::metadata::data_file::DataContentType;
use crate::metadata::manifest::{
    Manifest, ManifestContentType, ManifestEntry, ManifestFile, ManifestList, ManifestStatus,
};
use crate::metadata::snapshot::{Operation, Snapshot};
use crate::seqs::{lemma_filter_complete, lemma_filter_picks, lemma_filter_sound, picks};
use crate::transaction::delete_entries::{
    can_remove, deleted, deletions, gen_manifest_entry, is_numbered, is_removed,
    manifest_deletions, record_deletions, removable, DeleteEntriesRun, LoadAction,
};
use crate::transaction::existing_manifests::{
    dispose, disposition, existing_files, is_rewritten, rewrite_manifest, rewrites, survives,
    ExistingManifestRun, LoadedManifest, ManifestDisposition, ManifestRewrite,
    PreloadedManifestRun, RewriteAction,
};
use crate::transaction::laws::{
    law_manifests_are_found_by_path, law_only_kept_manifests_are_found, listed_after,
};
use crate::transaction::operation::{
    all_removable, entries_of, RewriteFilesOperation, RewriteFilesOperationConcurrent,
};
use crate::transaction::removed_paths::{RemovedPaths, RemovedPathsView};

verus! {

/// Whether the path of an entry is removed, whatever its file holds.
pub open spec fn path_is_gone(removed: RemovedPathsView) -> spec_fn(Arc<ManifestEntry>) -> bool {
    |e: Arc<ManifestEntry>|
        removed.data_file_paths.contains(e.data_file.file_path@)
            || removed.delete_file_paths.contains(e.data_file.file_path@)
}

/// Whether the file of an entry is removed: its path is among those of the files that hold the
/// same, rows or deletes.
pub open spec fn file_is_gone(removed: RemovedPathsView) -> spec_fn(Arc<ManifestEntry>) -> bool {
    |e: Arc<ManifestEntry>|
        if e.data_file.content == DataContentType::Data {
            removed.data_file_paths.contains(e.data_file.file_path@)
        } else {
            removed.delete_file_paths.contains(e.data_file.file_path@)
        }
}

/// The entry that says that the file of an entry is deleted, and is the same in everything else.
pub open spec fn as_deleted() -> spec_fn(Arc<ManifestEntry>) -> ManifestEntry {
    |e: Arc<ManifestEntry>|
        ManifestEntry {
            status: ManifestStatus::Deleted,
            snapshot_id: e.snapshot_id,
            sequence_number: e.sequence_number,
            file_sequence_number: e.file_sequence_number,
            data_file: e.data_file,
        }
}

/// Whether the removal of every removed file among entries can be recorded: each of those entries
/// has a snapshot id and a sequence number.
pub open spec fn recordable(entries: Seq<Arc<ManifestEntry>>, removed: RemovedPathsView) -> bool {
    forall|i: int|
        0 <= i < entries.len() && file_is_gone(removed)(#[trigger] entries[i]) ==> {
            &&& entries[i].snapshot_id is Some
            &&& entries[i].sequence_number is Some
        }
}

/// The removals that manifests come to: for each entry of a removed file one that says so, in
/// order.
pub open spec fn recorded(
    manifests: Seq<Seq<Arc<ManifestEntry>>>,
    removed: RemovedPathsView,
) -> Seq<ManifestEntry>
    decreases manifests.len(),
{
    if manifests.len() == 0 {
        Seq::empty()
    } else {
        recorded(manifests.drop_last(), removed) + manifests.last().filter(
            file_is_gone(removed),
        ).map_values(as_deleted())
    }
}

proof fn lemma_same_tests(removed: RemovedPathsView)
    ensures
        is_removed(removed) == file_is_gone(removed),
        deleted() == as_deleted(),
        survives(removed) == (|e: Arc<ManifestEntry>|
            e.status != ManifestStatus::Deleted && !path_is_gone(removed)(e)),
{
    assert(is_removed(removed) =~= file_is_gone(removed));
    assert(deleted() =~= as_deleted());
    assert(survives(removed) =~= (|e: Arc<ManifestEntry>|
        e.status != ManifestStatus::Deleted && !path_is_gone(removed)(e)));
}

proof fn lemma_recorded(manifests: Seq<Seq<Arc<ManifestEntry>>>, removed: RemovedPathsView)
    ensures
        deletions(manifests, removed) == recorded(manifests, removed),
    decreases manifests.len(),
{
    let of_manifest = |entries: Seq<Arc<ManifestEntry>>| manifest_deletions(entries, removed);
    lemma_same_tests(removed);
    if manifests.len() == 0 {
        assert(deletions(manifests, removed) =~= Seq::empty());
    } else {
        let others = manifests.drop_last();
        lemma_recorded(others, removed);
        assert(manifests =~= others.push(manifests.last()));
        others.lemma_flat_map_push(of_manifest, manifests.last());
    }
}

/// An entry is recorded as deleted with its numbers and its file, and can be if it has the numbers.
pub proof fn law_deleted_entries_keep_all_but_their_status(
    entry: Arc<ManifestEntry>,
    new: ManifestEntry,
)
    ensures
        entry.snapshot_id is Some && entry.sequence_number is Some ==> call_requires(
            gen_manifest_entry,
            (&entry,),
        ),
        call_ensures(gen_manifest_entry, (&entry,), new) ==> new == as_deleted()(entry),
{
}

/// Removals can be recorded exactly if the entries of removed files have their numbers.
pub proof fn law_removals_need_numbers(manifest: Manifest, removed: RemovedPaths, possible: bool)
    requires
        call_ensures(can_remove, (&manifest, &removed), possible),
    ensures
        possible <==> recordable(manifest.entries@, removed@),
{
    lemma_recordable(manifest.entries@, removed@);
}

/// The removals of a manifest go behind those recorded before, in order.
pub proof fn law_removals_are_recorded_in_order(
    manifest: Manifest,
    data_paths: StringHashSet,
    delete_paths: StringHashSet,
    entries: &mut Vec<ManifestEntry>,
)
    requires
        call_ensures(record_deletions, (&manifest, &data_paths, &delete_paths, entries), ()),
    ensures
        final(entries)@ == old(entries)@ + manifest.entries@.filter(
            file_is_gone(
                RemovedPathsView {
                    data_file_paths: data_paths@,
                    delete_file_paths: delete_paths@,
                },
            ),
        ).map_values(as_deleted()),
{
    lemma_same_tests(
        RemovedPathsView { data_file_paths: data_paths@, delete_file_paths: delete_paths@ },
    );
}

/// A pass that records removals begins with the snapshot that it is given, if any, and nothing
/// else.
pub proof fn law_passes_over_removals_begin_empty(
    operation: RewriteFilesOperation,
    snapshot: Option<Arc<Snapshot>>,
    removed: Arc<RemovedPaths>,
    run: DeleteEntriesRun,
    started: DeleteEntriesRun,
)
    requires
        call_ensures(
            RewriteFilesOperation::delete_entries,
            (&operation, snapshot, removed),
            run,
        ),
        call_ensures(DeleteEntriesRun::start, (snapshot, removed), started),
    ensures
        run.wf() && started.wf(),
        run.removed() == removed@ && started.removed() == removed@,
        run.awaited_list() == snapshot && started.awaited_list() == snapshot,
        run.manifest_files().len() == 0 && started.manifest_files().len() == 0,
        run.manifests().len() == 0 && started.manifests().len() == 0,
{
}

/// A pass that records removals asks for the manifest list, and then for each manifest of it, in
/// order, and ends when all were handed in.
pub proof fn law_passes_over_removals_ask_in_order(run: DeleteEntriesRun, action: LoadAction)
    requires
        call_ensures(DeleteEntriesRun::next_action, (&run,), action),
    ensures
        run.awaited_list() matches Some(snapshot) ==> action == LoadAction::LoadManifestList(
            snapshot,
        ),
        run.awaited_list() is None && run.manifests().len() < run.manifest_files().len() ==> action
            == LoadAction::LoadManifest(run.manifest_files()[run.manifests().len() as int]),
        run.awaited_list() is None && run.manifests().len() >= run.manifest_files().len()
            ==> action is Finish,
{
}

/// A pass that records removals takes the manifest list, and each manifest, as they are.
pub proof fn law_passes_over_removals_take_everything(
    listed: &mut DeleteEntriesRun,
    manifest_list: ManifestList,
    loaded: &mut DeleteEntriesRun,
    manifest: Manifest,
)
    requires
        call_ensures(DeleteEntriesRun::manifest_list_loaded, (listed, manifest_list), ()),
        call_ensures(DeleteEntriesRun::manifest_loaded, (loaded, &manifest), ()),
    ensures
        final(listed).wf(),
        final(listed).removed() == old(listed).removed(),
        final(listed).awaited_list() is None,
        final(listed).manifest_files() == manifest_list.entries@,
        final(listed).manifests().len() == 0,
        final(loaded).wf(),
        final(loaded).removed() == old(loaded).removed(),
        final(loaded).awaited_list() is None,
        final(loaded).manifest_files() == old(loaded).manifest_files(),
        final(loaded).manifests() == old(loaded).manifests().push(manifest.entries@),
{
}

/// A pass that records removals ends with those of all manifests of the list.
pub proof fn law_passes_record_all_removals(
    run: DeleteEntriesRun,
    deleted_entries: Vec<ManifestEntry>,
)
    requires
        call_ensures(DeleteEntriesRun::finish, (run,), deleted_entries),
    ensures
        run.manifests().len() == run.manifest_files().len(),
        deleted_entries@ == recorded(run.manifests(), run.removed()),
{
    lemma_recorded(run.manifests(), run.removed());
}

/// What becomes of a manifest with these entries: it is kept if no path is removed, dropped if all
/// are, and rewritten otherwise.
pub open spec fn fate(
    entries: Seq<Arc<ManifestEntry>>,
    removed: RemovedPathsView,
) -> ManifestDisposition {
    let some_gone = exists|i: int|
        0 <= i < entries.len() && path_is_gone(removed)(#[trigger] entries[i]);
    let some_left = exists|i: int|
        0 <= i < entries.len() && !path_is_gone(removed)(#[trigger] entries[i]);
    if !some_gone {
        ManifestDisposition::Keep
    } else if !some_left {
        ManifestDisposition::Drop
    } else {
        ManifestDisposition::Rewrite
    }
}

proof fn lemma_fate(entries: Seq<Arc<ManifestEntry>>, removed: RemovedPathsView)
    ensures
        disposition(entries, removed) == fate(entries, removed),
{
    let gone = |e: Arc<ManifestEntry>| removed.has_path(*e);
    assert(gone =~= path_is_gone(removed));
    assert forall|i: int| 0 <= i < entries.len() implies path_is_gone(removed)(
        #[trigger] entries[i],
    ) == gone(entries[i]) by {}
}

/// A manifest is judged by the paths of its entries alone: kept where none is removed, dropped
/// where all are, and rewritten otherwise.
pub proof fn law_manifests_are_judged_by_paths(
    manifest: Manifest,
    removed: RemovedPaths,
    judged: ManifestDisposition,
)
    requires
        call_ensures(dispose, (&manifest, &removed), judged),
    ensures
        judged == fate(manifest.entries@, removed@),
{
    lemma_fate(manifest.entries@, removed@);
}

/// Whether a manifest is what another one is rewritten to: a data manifest of the same partition
/// spec, with exactly the entries that are not removed themselves and whose paths are not, in
/// order.
pub open spec fn rewritten_from(
    rewrite: ManifestRewrite,
    manifest_file: ManifestFile,
    entries: Seq<Arc<ManifestEntry>>,
    removed: RemovedPathsView,
) -> bool {
    &&& rewrite.content == ManifestContentType::Data
    &&& rewrite.partition_spec_id == manifest_file.partition_spec_id
    &&& picks(
        entries,
        |e: Arc<ManifestEntry>|
            e.status != ManifestStatus::Deleted && !path_is_gone(removed)(e),
        |e: Arc<ManifestEntry>| e,
        rewrite.existing_entries@,
    )
}

proof fn lemma_replaces(
    rewrite: ManifestRewrite,
    manifest_file: ManifestFile,
    entries: Seq<Arc<ManifestEntry>>,
    removed: RemovedPathsView,
)
    requires
        rewrite.replaces(manifest_file, entries, removed),
    ensures
        rewritten_from(rewrite, manifest_file, entries, removed),
{
    lemma_same_tests(removed);
    lemma_filter_picks(
        entries,
        |e: Arc<ManifestEntry>| e.status != ManifestStatus::Deleted && !path_is_gone(removed)(e),
    );
}

/// A rewritten manifest holds exactly the entries that are alive and whose paths are not removed,
/// in order, whatever snapshot, number or kind they are of.
pub proof fn law_rewrites_keep_every_other_entry(
    manifest_file: ManifestFile,
    manifest: Manifest,
    removed: RemovedPaths,
    rewrite: ManifestRewrite,
    copy: ManifestRewrite,
)
    requires
        call_ensures(rewrite_manifest, (&manifest_file, &manifest, &removed), rewrite),
        call_ensures(ManifestRewrite::copy, (&rewrite,), copy),
    ensures
        rewritten_from(rewrite, manifest_file, manifest.entries@, removed@),
        rewritten_from(copy, manifest_file, manifest.entries@, removed@),
{
    lemma_replaces(rewrite, manifest_file, manifest.entries@, removed@);
}

/// What is written in the place of a manifest is what the manifest lists after the rewrite.
pub proof fn law_what_is_written_is_what_is_listed(
    rewrite: ManifestRewrite,
    manifest_file: ManifestFile,
    entries: Seq<Arc<ManifestEntry>>,
    removed: RemovedPathsView,
)
    requires
        rewrite.replaces(manifest_file, entries, removed),
    ensures
        disposition(entries, removed) == ManifestDisposition::Rewrite
            ==> rewrite.existing_entries@ == listed_after(entries, removed),
        rewritten_from(rewrite, manifest_file, entries, removed),
{
    lemma_replaces(rewrite, manifest_file, entries, removed);
}

/// An entry that nobody removed, and that does not record a removal, is written, wherever it
/// stands; and nothing else is.
pub proof fn law_entries_are_written_unless_removed(
    manifest_file: ManifestFile,
    manifest: Manifest,
    removed: RemovedPaths,
    rewrite: ManifestRewrite,
    i: int,
)
    requires
        call_ensures(rewrite_manifest, (&manifest_file, &manifest, &removed), rewrite),
        0 <= i < manifest.entries@.len(),
    ensures
        rewrite.existing_entries@.contains(manifest.entries@[i]) <==> {
            let entry = manifest.entries@[i];
            &&& entry.status != ManifestStatus::Deleted
            &&& !removed.data_file_paths@.contains(entry.data_file.file_path@)
            &&& !removed.delete_file_paths@.contains(entry.data_file.file_path@)
        },
{
    let entries = manifest.entries@;
    let keep = |e: Arc<ManifestEntry>|
        e.status != ManifestStatus::Deleted && !path_is_gone(removed@)(e);
    lemma_same_tests(removed@);
    if keep(entries[i]) {
        lemma_filter_complete(entries, keep, i);
    }
    if rewrite.existing_entries@.contains(entries[i]) {
        lemma_filter_sound(entries, keep, entries[i]);
    }
}

/// The manifests that stay: of each in turn itself, nothing, or the next one written.
pub open spec fn staying(
    manifests: Seq<LoadedManifest>,
    written: Seq<ManifestFile>,
    removed: RemovedPathsView,
) -> Seq<ManifestFile>
    decreases manifests.len(),
{
    if manifests.len() == 0 {
        Seq::empty()
    } else {
        let last = manifests.last();
        match fate(last.1.entries@, removed) {
            ManifestDisposition::Keep => staying(manifests.drop_last(), written, removed).push(
                last.0,
            ),
            ManifestDisposition::Drop => staying(manifests.drop_last(), written, removed),
            ManifestDisposition::Rewrite => staying(
                manifests.drop_last(),
                written.drop_last(),
                removed,
            ).push(written.last()),
        }
    }
}

/// The manifests that are rewritten, in order.
pub open spec fn to_rewrite(
    manifests: Seq<LoadedManifest>,
    removed: RemovedPathsView,
) -> Seq<LoadedManifest> {
    manifests.filter(
        |m: LoadedManifest| fate(m.1.entries@, removed) == ManifestDisposition::Rewrite,
    )
}

proof fn lemma_staying(
    manifests: Seq<LoadedManifest>,
    written: Seq<ManifestFile>,
    removed: RemovedPathsView,
)
    ensures
        existing_files(manifests, written, removed) == staying(manifests, written, removed),
    decreases manifests.len(),
{
    if manifests.len() > 0 {
        lemma_fate(manifests.last().1.entries@, removed);
        lemma_staying(manifests.drop_last(), written, removed);
        lemma_staying(manifests.drop_last(), written.drop_last(), removed);
    }
}

proof fn lemma_to_rewrite(manifests: Seq<LoadedManifest>, removed: RemovedPathsView)
    ensures
        rewrites(manifests, removed) == to_rewrite(manifests, removed),
{
    let other = |m: LoadedManifest| fate(m.1.entries@, removed) == ManifestDisposition::Rewrite;
    assert forall|m: LoadedManifest| #[trigger] is_rewritten(removed)(m) == other(m) by {
        lemma_fate(m.1.entries@, removed);
    }
    assert(is_rewritten(removed) =~= other);
}

/// A pass over manifests begins with the snapshot that it is given, if any, and nothing else.
pub proof fn law_passes_over_manifests_begin_empty(
    operation: RewriteFilesOperation,
    snapshot: Option<Arc<Snapshot>>,
    removed: Arc<RemovedPaths>,
    run: ExistingManifestRun,
    started: ExistingManifestRun,
)
    requires
        call_ensures(
            RewriteFilesOperation::existing_manifest,
            (&operation, snapshot, removed),
            run,
        ),
        call_ensures(ExistingManifestRun::start, (snapshot, removed), started),
    ensures
        run.wf() && started.wf(),
        run.removed() == removed@ && started.removed() == removed@,
        run.awaited_list() == snapshot && started.awaited_list() == snapshot,
        run.manifest_files().len() == 0 && started.manifest_files().len() == 0,
        run.manifests().len() == 0 && started.manifests().len() == 0,
        run.written().len() == 0 && started.written().len() == 0,
{
}

/// A pass over manifests asks for the manifest list, then for each manifest of it, in order, and
/// has a manifest that must be rewritten written before it goes on.
pub proof fn law_passes_over_manifests_ask_in_order(run: ExistingManifestRun, action: RewriteAction)
    requires
        call_ensures(ExistingManifestRun::next_action, (&run,), action),
    ensures
        ({
            let waiting = run.written().len() < to_rewrite(run.manifests(), run.removed()).len();
            &&& run.awaited_list() matches Some(snapshot) ==> action
                == RewriteAction::LoadManifestList(snapshot)
            &&& run.awaited_list() is None && waiting ==> {
                &&& action matches RewriteAction::WriteManifest(rewrite)
                &&& rewritten_from(
                    rewrite,
                    run.manifests().last().0,
                    run.manifests().last().1.entries@,
                    run.removed(),
                )
            }
            &&& run.awaited_list() is None && !waiting && run.manifests().len()
                < run.manifest_files().len() ==> action == RewriteAction::LoadManifest(
                run.manifest_files()[run.manifests().len() as int],
            )
            &&& run.awaited_list() is None && !waiting && run.manifests().len()
                >= run.manifest_files().len() ==> action is Finish
        }),
{
    lemma_to_rewrite(run.manifests(), run.removed());
    if let RewriteAction::WriteManifest(rewrite) = action {
        if run.awaited_list() is None && run.is_writing() {
            lemma_replaces(
                rewrite,
                run.manifests().last().0,
                run.manifests().last().1.entries@,
                run.removed(),
            );
        }
    }
}

/// A pass over manifests takes the manifest list, each manifest, and each written manifest as they
/// are.
pub proof fn law_passes_over_manifests_take_everything(
    listed: &mut ExistingManifestRun,
    manifest_list: ManifestList,
    loaded: &mut ExistingManifestRun,
    manifest: Arc<Manifest>,
    written: &mut ExistingManifestRun,
    manifest_file: ManifestFile,
)
    requires
        call_ensures(ExistingManifestRun::manifest_list_loaded, (listed, manifest_list), ()),
        call_ensures(ExistingManifestRun::manifest_loaded, (loaded, manifest), ()),
        call_ensures(ExistingManifestRun::manifest_written, (written, manifest_file), ()),
    ensures
        final(listed).wf(),
        final(listed).removed() == old(listed).removed(),
        final(listed).awaited_list() is None,
        final(listed).manifest_files() == manifest_list.entries@,
        final(listed).manifests() == old(listed).manifests(),
        final(listed).written() == old(listed).written(),
        final(loaded).wf(),
        final(loaded).removed() == old(loaded).removed(),
        final(loaded).awaited_list() is None,
        final(loaded).manifest_files() == old(loaded).manifest_files(),
        final(loaded).manifests() == old(loaded).manifests().push(
            (old(loaded).manifest_files()[old(loaded).manifests().len() as int], manifest),
        ),
        final(loaded).written() == old(loaded).written(),
        final(written).wf(),
        final(written).removed() == old(written).removed(),
        final(written).awaited_list() is None,
        final(written).manifest_files() == old(written).manifest_files(),
        final(written).manifests() == old(written).manifests(),
        final(written).written() == old(written).written().push(manifest_file),
{
}

/// A pass over manifests ends with what all manifests of the list come to, and with as many written
/// as had to be.
pub proof fn law_passes_keep_what_stays(run: ExistingManifestRun, files: Vec<ManifestFile>)
    requires
        call_ensures(ExistingManifestRun::finish, (run,), files),
    ensures
        run.manifests().len() == run.manifest_files().len(),
        forall|i: int|
            0 <= i < run.manifests().len() ==> (#[trigger] run.manifests()[i]).0
                == run.manifest_files()[i],
        run.written().len() == to_rewrite(run.manifests(), run.removed()).len(),
        files@ == staying(run.manifests(), run.written(), run.removed()),
{
    lemma_to_rewrite(run.manifests(), run.removed());
    lemma_staying(run.manifests(), run.written(), run.removed());
    let listed = run.manifests().map_values(|loaded: LoadedManifest| loaded.0);
    assert(listed.len() == run.manifests().len());
    assert forall|i: int| 0 <= i < run.manifests().len() implies (
    #[trigger] run.manifests()[i]).0 == run.manifest_files()[i] by {
        assert(listed[i] == run.manifests()[i].0);
    }
}

/// A pass over manifests at hand has those that must be rewritten written, in order, and ends with
/// what all of them come to.
pub proof fn law_passes_over_manifests_at_hand(
    manifests: Arc<Vec<LoadedManifest>>,
    removed: Arc<RemovedPaths>,
    started: PreloadedManifestRun,
    asked: PreloadedManifestRun,
    next: Option<ManifestRewrite>,
    written: &mut PreloadedManifestRun,
    manifest_file: ManifestFile,
    ended: PreloadedManifestRun,
    files: Vec<ManifestFile>,
)
    requires
        call_ensures(PreloadedManifestRun::start, (manifests, removed), started),
        call_ensures(PreloadedManifestRun::next_write, (&asked,), next),
        call_ensures(PreloadedManifestRun::manifest_written, (written, manifest_file), ()),
        call_ensures(PreloadedManifestRun::finish, (ended,), files),
    ensures
        started.wf(),
        started.removed() == removed@,
        started.manifests() == manifests@,
        started.written().len() == 0,
        ({
            let all = to_rewrite(asked.manifests(), asked.removed());
            let turn = asked.written().len() as int;
            &&& next is Some <==> turn < all.len()
            &&& next matches Some(rewrite) ==> rewritten_from(
                rewrite,
                all[turn].0,
                all[turn].1.entries@,
                asked.removed(),
            )
        }),
        final(written).wf(),
        final(written).removed() == old(written).removed(),
        final(written).manifests() == old(written).manifests(),
        final(written).written() == old(written).written().push(manifest_file),
        ended.written().len() == to_rewrite(ended.manifests(), ended.removed()).len(),
        files@ == staying(ended.manifests(), ended.written(), ended.removed()),
{
    lemma_to_rewrite(asked.manifests(), asked.removed());
    lemma_to_rewrite(ended.manifests(), ended.removed());
    lemma_staying(ended.manifests(), ended.written(), ended.removed());
    if let Some(rewrite) = next {
        lemma_replaces(
            rewrite,
            asked.next_rewrite().0,
            asked.next_rewrite().1.entries@,
            asked.removed(),
        );
    }
}

/// A manifest stays as it is exactly if none of its paths is removed, whatever is written.
pub proof fn law_untouched_manifests_stay(
    manifests: Seq<LoadedManifest>,
    written: Seq<ManifestFile>,
    removed: RemovedPathsView,
    i: int,
)
    requires
        0 <= i < manifests.len(),
        forall|j: int|
            0 <= j < manifests[i].1.entries@.len() ==> {
                let path = (#[trigger] manifests[i].1.entries@[j]).data_file.file_path@;
                !removed.data_file_paths.contains(path) && !removed.delete_file_paths.contains(path)
            },
    ensures
        existing_files(manifests, written, removed).contains(manifests[i].0),
    decreases manifests.len(),
{
    let others = manifests.drop_last();
    let last = manifests.last();
    lemma_fate(last.1.entries@, removed);
    lemma_fate(manifests[i].1.entries@, removed);
    let all = existing_files(manifests, written, removed);
    if i == manifests.len() - 1 {
        assert forall|j: int| 0 <= j < last.1.entries@.len() implies !path_is_gone(removed)(
            #[trigger] last.1.entries@[j],
        ) by {
            assert(manifests[i].1.entries@[j] == last.1.entries@[j]);
        }
        assert(all[all.len() - 1] == manifests[i].0);
    } else {
        let left = if disposition(last.1.entries@, removed) == ManifestDisposition::Rewrite {
            written.drop_last()
        } else {
            written
        };
        assert forall|j: int| 0 <= j < others[i].1.entries@.len() implies {
            let path = (#[trigger] others[i].1.entries@[j]).data_file.file_path@;
            !removed.data_file_paths.contains(path) && !removed.delete_file_paths.contains(path)
        } by {
            assert(manifests[i].1.entries@[j] == others[i].1.entries@[j]);
        }
        law_untouched_manifests_stay(others, left, removed, i);
        let before = existing_files(others, left, removed);
        let n = choose|n: int| 0 <= n < before.len() && before[n] == manifests[i].0;
        assert(all[n] == manifests[i].0);
    }
}

/// Both operations make snapshots that replace files.
pub proof fn law_both_operations_replace(
    sequential: RewriteFilesOperation,
    concurrent: RewriteFilesOperationConcurrent,
    one: Operation,
    other: Operation,
)
    requires
        call_ensures(RewriteFilesOperation::operation, (&sequential,), one),
        call_ensures(RewriteFilesOperationConcurrent::operation, (&concurrent,), other),
    ensures
        one == Operation::Replace,
        other == Operation::Replace,
{
}

/// A new operation keeps no manifests yet.
pub proof fn law_new_operations_keep_nothing(
    one: RewriteFilesOperationConcurrent,
    other: RewriteFilesOperationConcurrent,
)
    requires
        call_ensures(RewriteFilesOperationConcurrent::new, (), one),
        call_ensures(<RewriteFilesOperationConcurrent as Default>::default, (), other),
    ensures
        one@ is None,
        other@ is None,
{
}

/// Manifests are paired with what the list says of them, one by one.
pub proof fn law_manifests_are_paired_in_order(
    manifest_list: ManifestList,
    manifests: Vec<Arc<Manifest>>,
    pairs: Vec<LoadedManifest>,
)
    requires
        call_ensures(
            RewriteFilesOperationConcurrent::pair_manifests,
            (&manifest_list, &manifests),
            pairs,
        ),
        manifest_list.entries@.len() == manifests@.len(),
    ensures
        pairs@.len() == manifest_list.entries@.len(),
        forall|i: int|
            0 <= i < pairs@.len() ==> (#[trigger] pairs@[i]).0 == manifest_list.entries@[i]
                && pairs@[i].1 == manifests@[i],
{
}

/// Whether an operation that kept these manifests, and is handed those, keeps and gives out so:
/// what was kept stays, else what is handed in is kept.
pub open spec fn keeps(
    before: Option<Seq<LoadedManifest>>,
    loaded: Option<Vec<LoadedManifest>>,
    after: Option<Seq<LoadedManifest>>,
) -> bool {
    &&& before is Some ==> after == before
    &&& before is None && loaded is Some ==> after == Some(loaded->0@)
    &&& before is None && loaded is None ==> after is None
}

/// The manifests that are kept first stay, and are the ones given out.
pub proof fn law_first_manifests_are_kept(
    operation: &mut RewriteFilesOperationConcurrent,
    loaded: Option<Vec<LoadedManifest>>,
    manifests: Option<Arc<Vec<LoadedManifest>>>,
)
    requires
        call_ensures(
            RewriteFilesOperationConcurrent::get_or_load_manifests,
            (operation, loaded),
            manifests,
        ),
    ensures
        keeps(old(operation)@, loaded, final(operation)@),
        manifests is Some <==> final(operation)@ is Some,
        manifests matches Some(manifests) ==> final(operation)@ == Some(manifests@),
{
}

/// From manifests come the removals of all of them, and they can be recorded exactly if the entries
/// of removed files have their numbers.
pub proof fn law_removals_come_from_all_manifests(
    manifests: &[LoadedManifest],
    removed: RemovedPaths,
    deleted_entries: Vec<ManifestEntry>,
    possible: bool,
)
    requires
        call_ensures(
            RewriteFilesOperationConcurrent::generate_delete_entries_from_manifests,
            (manifests, &removed.data_file_paths, &removed.delete_file_paths),
            deleted_entries,
        ),
        call_ensures(
            RewriteFilesOperationConcurrent::can_remove_from_manifests,
            (manifests, &removed),
            possible,
        ),
    ensures
        deleted_entries@ == recorded(
            manifests@.map_values(|m: LoadedManifest| m.1.entries@),
            removed@,
        ),
        possible <==> forall|i: int|
            0 <= i < manifests@.len() ==> recordable(
                (#[trigger] manifests@[i]).1.entries@,
                removed@,
            ),
{
    let same = |m: LoadedManifest| m.1.entries@;
    assert(entries_of(manifests@) =~= manifests@.map_values(same));
    lemma_recorded(entries_of(manifests@), removed@);
    assert forall|i: int| 0 <= i < manifests@.len() implies (recordable(
        (#[trigger] manifests@[i]).1.entries@,
        removed@,
    ) <==> removable(manifests@[i].1.entries@, removed@)) by {
        lemma_recordable(manifests@[i].1.entries@, removed@);
    }
}

proof fn lemma_recordable(entries: Seq<Arc<ManifestEntry>>, removed: RemovedPathsView)
    ensures
        recordable(entries, removed) <==> removable(entries, removed),
{
    lemma_same_tests(removed);
    if recordable(entries, removed) {
        assert forall|i: int|
            0 <= i < entries.len() && removed.has_file(*#[trigger] entries[i]) implies is_numbered(
            *entries[i],
        ) by {
            assert(file_is_gone(removed)(entries[i]));
        }
    }
    if removable(entries, removed) {
        assert forall|i: int|
            0 <= i < entries.len() && file_is_gone(removed)(#[trigger] entries[i]) implies
            entries[i].snapshot_id is Some && entries[i].sequence_number is Some by {
            assert(is_removed(removed)(entries[i]));
        }
    }
}

/// The concurrent operation records the removals of the manifests that it keeps. Without a
/// snapshot there are none, and nothing is kept.
pub proof fn law_kept_manifests_give_the_removals(
    operation: &mut RewriteFilesOperationConcurrent,
    snapshot: Option<Arc<Snapshot>>,
    loaded: Option<Vec<LoadedManifest>>,
    removed: RemovedPaths,
    deleted_entries: Option<Vec<ManifestEntry>>,
)
    requires
        call_ensures(
            RewriteFilesOperationConcurrent::delete_entries,
            (operation, snapshot, loaded, &removed),
            deleted_entries,
        ),
    ensures
        snapshot is None ==> {
            &&& *final(operation) == *old(operation)
            &&& deleted_entries is Some && deleted_entries->0@.len() == 0
        },
        snapshot is Some ==> {
            &&& keeps(old(operation)@, loaded, final(operation)@)
            &&& deleted_entries is Some <==> final(operation)@ is Some
            &&& final(operation)@ matches Some(manifests) ==> deleted_entries->0@ == recorded(
                manifests.map_values(|m: LoadedManifest| m.1.entries@),
                removed@,
            )
        },
{
    if let Some(manifests) = final(operation)@ {
        assert(entries_of(manifests) =~= manifests.map_values(
            |m: LoadedManifest| m.1.entries@,
        ));
        lemma_recorded(entries_of(manifests), removed@);
    }
}

/// The concurrent operation passes over the manifests that it keeps. Without a snapshot there are
/// none, and nothing is kept.
pub proof fn law_kept_manifests_are_passed_over(
    operation: &mut RewriteFilesOperationConcurrent,
    snapshot: Option<Arc<Snapshot>>,
    loaded: Option<Vec<LoadedManifest>>,
    removed: Arc<RemovedPaths>,
    run: Option<PreloadedManifestRun>,
)
    requires
        call_ensures(
            RewriteFilesOperationConcurrent::existing_manifest,
            (operation, snapshot, loaded, removed),
            run,
        ),
    ensures
        run matches Some(run) ==> {
            &&& run.wf()
            &&& run.removed() == removed@
            &&& run.written().len() == 0
        },
        snapshot is None ==> {
            &&& *final(operation) == *old(operation)
            &&& run is Some && run->0.manifests().len() == 0
        },
        snapshot is Some ==> {
            &&& keeps(old(operation)@, loaded, final(operation)@)
            &&& run is Some <==> final(operation)@ is Some
            &&& final(operation)@ matches Some(manifests) ==> run->0.manifests() == manifests
        },
{
}

/// The cache gives for each path the last manifest that is kept under it, and nothing else.
pub proof fn law_the_cache_holds_the_kept_manifests(
    operation: RewriteFilesOperationConcurrent,
    cache: StringHashMap<Arc<Manifest>>,
    path: Seq<char>,
)
    requires
        call_ensures(RewriteFilesOperationConcurrent::get_manifest_cache, (&operation,), cache),
    ensures
        operation@ is None ==> !cache@.contains_key(path),
        operation@ matches Some(manifests) ==> {
            &&& forall|i: int|
                0 <= i < manifests.len() && (
                #[trigger] manifests[i]).0.manifest_path@ == path && (forall|j: int|
                    i < j < manifests.len() ==> (#[trigger] manifests[j]).0.manifest_path@ != path)
                    ==> cache@.contains_key(path) && cache@[path] == manifests[i].1
            &&& cache@.contains_key(path) ==> exists|i: int|
                {
                    &&& 0 <= i < manifests.len()
                    &&& (#[trigger] manifests[i]).0.manifest_path@ == path
                    &&& cache@[path] == manifests[i].1
                }
        },
{
    if let Some(manifests) = operation@ {
        assert forall|i: int|
            0 <= i < manifests.len() && (#[trigger] manifests[i]).0.manifest_path@ == path && (
            forall|j: int|
                i < j < manifests.len() ==> (#[trigger] manifests[j]).0.manifest_path@
                    != path) implies cache@.contains_key(path) && cache@[path]
            == manifests[i].1 by {
            law_manifests_are_found_by_path(manifests, i);
        }
        if cache@.contains_key(path) {
            law_only_kept_manifests_are_found(manifests, path);
        }
    }
}

/// Manifests of every kind are accepted: a pass takes the manifest list and each manifest that it
/// asks for, and each written manifest. Only the recording of removals asks that the entries of
/// removed files have their numbers.
pub proof fn law_every_manifest_can_be_handed_in(
    manifest_file: ManifestFile,
    manifest: Arc<Manifest>,
    manifest_list: ManifestList,
    removed: RemovedPaths,
    entries: &mut Vec<ManifestEntry>,
    recording: &mut DeleteEntriesRun,
    run: &mut ExistingManifestRun,
    preloaded: &mut PreloadedManifestRun,
)
    ensures
        call_requires(can_remove, (&*manifest, &removed)),
        call_requires(dispose, (&*manifest, &removed)),
        call_requires(rewrite_manifest, (&manifest_file, &*manifest, &removed)),
        recordable(manifest.entries@, removed@) ==> call_requires(
            record_deletions,
            (&*manifest, &removed.data_file_paths, &removed.delete_file_paths, entries),
        ),
        old(recording).wf() ==> call_requires(DeleteEntriesRun::next_action, (&*old(recording),)),
        old(recording).wf() && old(recording).awaited_list() is Some ==> call_requires(
            DeleteEntriesRun::manifest_list_loaded,
            (recording, manifest_list),
        ),
        old(recording).wf() && old(recording).awaited_list() is None
            && old(recording).manifests().len() < old(recording).manifest_files().len()
            && recordable(manifest.entries@, old(recording).removed()) ==> call_requires(
            DeleteEntriesRun::manifest_loaded,
            (recording, &*manifest),
        ),
        old(recording).wf() && old(recording).awaited_list() is None
            && old(recording).manifests().len() >= old(recording).manifest_files().len()
            ==> call_requires(DeleteEntriesRun::finish, (*old(recording),)),
        old(run).wf() ==> call_requires(ExistingManifestRun::next_action, (&*old(run),)),
        old(run).wf() && old(run).awaited_list() is Some ==> call_requires(
            ExistingManifestRun::manifest_list_loaded,
            (run, manifest_list),
        ),
        ({
            let waiting = old(run).written().len() < to_rewrite(
                old(run).manifests(),
                old(run).removed(),
            ).len();
            &&& old(run).wf() && waiting ==> call_requires(
                ExistingManifestRun::manifest_written,
                (run, manifest_file),
            )
            &&& old(run).wf() && !waiting && old(run).awaited_list() is None
                && old(run).manifests().len() < old(run).manifest_files().len()
                ==> call_requires(ExistingManifestRun::manifest_loaded, (run, manifest))
            &&& old(run).wf() && !waiting && old(run).awaited_list() is None
                && old(run).manifests().len() >= old(run).manifest_files().len()
                ==> call_requires(ExistingManifestRun::finish, (*old(run),))
        }),
        ({
            let waiting = old(preloaded).written().len() < to_rewrite(
                old(preloaded).manifests(),
                old(preloaded).removed(),
            ).len();
            &&& old(preloaded).wf() ==> call_requires(
                PreloadedManifestRun::next_write,
                (&*old(preloaded),),
            )
            &&& old(preloaded).wf() && waiting ==> call_requires(
                PreloadedManifestRun::manifest_written,
                (preloaded, manifest_file),
            )
            &&& old(preloaded).wf() && !waiting ==> call_requires(
                PreloadedManifestRun::finish,
                (*old(preloaded),),
            )
        }),
{
    lemma_to_rewrite(old(run).manifests(), old(run).removed());
    lemma_to_rewrite(old(preloaded).manifests(), old(preloaded).removed());
    lemma_recordable(manifest.entries@, removed@);
    lemma_recordable(manifest.entries@, old(recording).removed());
}

/// The operations accept every snapshot and every manifest. Only the recording of removals asks that
/// the entries of removed files have their numbers.
pub proof fn law_every_operation_can_be_carried_out(
    sequential: RewriteFilesOperation,
    operation: &mut RewriteFilesOperationConcurrent,
    snapshot: Option<Arc<Snapshot>>,
    loaded: Option<Vec<LoadedManifest>>,
    removed: Arc<RemovedPaths>,
    manifests: &[LoadedManifest],
)
    ensures
        call_requires(RewriteFilesOperation::delete_entries, (&sequential, snapshot, removed)),
        call_requires(RewriteFilesOperation::existing_manifest, (&sequential, snapshot, removed)),
        call_requires(
            RewriteFilesOperationConcurrent::get_or_load_manifests,
            (operation, loaded),
        ),
        call_requires(
            RewriteFilesOperationConcurrent::existing_manifest,
            (operation, snapshot, loaded, removed),
        ),
        call_requires(
            RewriteFilesOperationConcurrent::can_remove_from_manifests,
            (manifests, &*removed),
        ),
        call_requires(RewriteFilesOperationConcurrent::get_manifest_cache, (&*old(operation),)),
        (forall|i: int|
            0 <= i < manifests@.len() ==> recordable(
                (#[trigger] manifests@[i]).1.entries@,
                removed@,
            )) ==> call_requires(
            RewriteFilesOperationConcurrent::generate_delete_entries_from_manifests,
            (manifests, &removed.data_file_paths, &removed.delete_file_paths),
        ),
        (snapshot is None || (old(operation)@ matches Some(own) ==> all_recordable(own, removed@))
            && (old(operation)@ is None ==> (loaded matches Some(new) ==> all_recordable(
            new@,
            removed@,
        )))) ==> call_requires(
            RewriteFilesOperationConcurrent::delete_entries,
            (operation, snapshot, loaded, &*removed),
        ),
{
    if forall|i: int|
        0 <= i < manifests@.len() ==> recordable((#[trigger] manifests@[i]).1.entries@, removed@) {
        lemma_all_recordable(manifests@, removed@);
    }
    if let Some(own) = old(operation)@ {
        lemma_all_recordable(own, removed@);
    }
    if let Some(new) = loaded {
        lemma_all_recordable(new@, removed@);
    }
}

/// Whether the removal of every removed file of manifests can be recorded.
pub open spec fn all_recordable(
    manifests: Seq<LoadedManifest>,
    removed: RemovedPathsView,
) -> bool {
    forall|i: int|
        0 <= i < manifests.len() ==> recordable((#[trigger] manifests[i]).1.entries@, removed)
}

proof fn lemma_all_recordable(manifests: Seq<LoadedManifest>, removed: RemovedPathsView)
    ensures
        all_recordable(manifests, removed) <==> all_removable(manifests, removed),
{
    assert forall|i: int| 0 <= i < manifests.len() implies (recordable(
        (#[trigger] manifests[i]).1.entries@,
        removed,
    ) <==> removable(manifests[i].1.entries@, removed)) by {
        lemma_recordable(manifests[i].1.entries@, removed);
    }
}

} // verus!
