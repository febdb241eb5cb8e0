//! What a rewrite of files does to a table as a whole.
use std::sync::Arc;
use vstd::prelude::*;

use crate::metadata::data_file::{DataContentType, DataFile};
use crate::metadata::manifest::{ManifestEntry, ManifestFile, ManifestStatus};
use crate::seqs::{
    lemma_filter_complete, lemma_filter_place, lemma_filter_sound, lemma_flat_map_contains,
};
use crate::transaction::delete_entries::{
    deleted, deletions, is_removed, manifest_deletions, DeleteEntriesRun,
};
use crate::transaction::existing_manifests::{
    disposition, existing_files, is_rewritten, rewrites, survives, ExistingManifestRun,
    LoadedManifest, ManifestDisposition, PreloadedManifestRun,
};
use crate::transaction::operation::{by_path, entries_of, kept};
use crate::transaction::properties::{
    merge_settings, MergeSettings, MANIFEST_MERGE_ENABLED, MANIFEST_MERGE_ENABLED_DEFAULT,
    MANIFEST_MIN_MERGE_COUNT, MANIFEST_MIN_MERGE_COUNT_DEFAULT, MANIFEST_TARGET_SIZE_BYTES,
    MANIFEST_TARGET_SIZE_BYTES_DEFAULT,
};
use crate::transaction::removed_paths::{paths_of, RemovedPathsView};
use crate::transaction::rewrite_files::{holds_data, holds_deletes, RewriteRequest};

verus! {

/// The removed paths of a request.
pub open spec fn removed_by(request: RewriteRequest) -> RemovedPathsView {
    RemovedPathsView {
        data_file_paths: paths_of(request.removed_data_files),
        delete_file_paths: paths_of(request.removed_delete_files),
    }
}

/// The entries that a manifest of the table lists after the rewrite: those it listed before, or
/// those that it is written anew with.
pub open spec fn listed_after(
    entries: Seq<Arc<ManifestEntry>>,
    removed: RemovedPathsView,
) -> Seq<Arc<ManifestEntry>> {
    match disposition(entries, removed) {
        ManifestDisposition::Keep => entries,
        ManifestDisposition::Drop => Seq::empty(),
        ManifestDisposition::Rewrite => entries.filter(survives(removed)),
    }
}

/// Adding files in two steps is adding them at once.
pub proof fn law_added_files_accumulate(
    request: RewriteRequest,
    first: Seq<DataFile>,
    second: Seq<DataFile>,
)
    ensures
        request.with_added(first).with_added(second) == request.with_added(first + second),
{
    Seq::filter_distributes_over_add(first, second, holds_data());
    Seq::filter_distributes_over_add(first, second, holds_deletes());
    assert(request.with_added(first).with_added(second) =~= request.with_added(first + second));
}

/// Removing files in two steps is removing them at once.
pub proof fn law_removed_files_accumulate(
    request: RewriteRequest,
    first: Seq<DataFile>,
    second: Seq<DataFile>,
)
    ensures
        request.with_removed(first).with_removed(second) == request.with_removed(first + second),
{
    Seq::filter_distributes_over_add(first, second, holds_data());
    Seq::filter_distributes_over_add(first, second, holds_deletes());
    assert(request.with_removed(first).with_removed(second) =~= request.with_removed(
        first + second,
    ));
}

/// Files can be added and removed in either order, and neither touches the other or the settings.
pub proof fn law_adding_and_removing_are_independent(
    request: RewriteRequest,
    added: Seq<DataFile>,
    removed: Seq<DataFile>,
)
    ensures
        request.with_added(added).with_removed(removed) == request.with_removed(removed).with_added(
            added,
        ),
        request.with_added(added).removed_data_files == request.removed_data_files,
        request.with_added(added).removed_delete_files == request.removed_delete_files,
        request.with_removed(removed).added_data_files == request.added_data_files,
        request.with_removed(removed).added_delete_files == request.added_delete_files,
        request.with_added(added).merge_settings == request.merge_settings,
        request.with_removed(removed).merge_settings == request.merge_settings,
{
    assert(request.with_added(added).with_removed(removed) =~= request.with_removed(
        removed,
    ).with_added(added));
}

/// No file gets lost on the way into a request: every file that is added or removed is among the
/// data files or among the delete files, by what it holds, and all are counted.
pub proof fn law_files_are_kept_apart(files: Seq<DataFile>, i: int)
    requires
        0 <= i < files.len(),
    ensures
        files.filter(holds_data()).len() + files.filter(holds_deletes()).len() == files.len(),
        files[i].content == DataContentType::Data <==> files.filter(holds_data()).contains(
            files[i],
        ),
        files[i].content != DataContentType::Data <==> files.filter(holds_deletes()).contains(
            files[i],
        ),
{
    lemma_split_counts(files);
    if files[i].content == DataContentType::Data {
        lemma_filter_complete(files, holds_data(), i);
    } else {
        lemma_filter_complete(files, holds_deletes(), i);
    }
    if files.filter(holds_data()).contains(files[i]) {
        lemma_filter_sound(files, holds_data(), files[i]);
    }
    if files.filter(holds_deletes()).contains(files[i]) {
        lemma_filter_sound(files, holds_deletes(), files[i]);
    }
}

proof fn lemma_split_counts(files: Seq<DataFile>)
    ensures
        files.filter(holds_data()).len() + files.filter(holds_deletes()).len() == files.len(),
    decreases files.len(),
{
    reveal(Seq::filter);
    if files.len() > 0 {
        lemma_split_counts(files.drop_last());
    }
}

/// The last properties that are set count, whatever was set before.
pub proof fn law_last_properties_count(
    request: RewriteRequest,
    first: Map<Seq<char>, String>,
    second: Map<Seq<char>, String>,
)
    ensures
        request.with_properties(first).with_properties(second) == request.with_properties(second),
{
}

/// Properties that do not name a setting leave its default.
pub proof fn law_other_properties_leave_the_defaults(properties: Map<Seq<char>, String>)
    requires
        !properties.contains_key(MANIFEST_TARGET_SIZE_BYTES@),
        !properties.contains_key(MANIFEST_MIN_MERGE_COUNT@),
        !properties.contains_key(MANIFEST_MERGE_ENABLED@),
    ensures
        merge_settings(properties) == (MergeSettings {
            target_size_bytes: MANIFEST_TARGET_SIZE_BYTES_DEFAULT,
            min_count_to_merge: MANIFEST_MIN_MERGE_COUNT_DEFAULT,
            merge_enabled: MANIFEST_MERGE_ENABLED_DEFAULT,
        }),
        merge_settings(properties) == RewriteRequest::nothing().merge_settings,
{
}

/// A file that a request removes is a removed file to every manifest entry for it: one with its
/// path whose file holds the same, rows or deletes.
pub proof fn law_removed_files_are_found(
    request: RewriteRequest,
    files: Seq<DataFile>,
    i: int,
    entry: Arc<ManifestEntry>,
)
    requires
        0 <= i < files.len(),
        entry.data_file.file_path@ == files[i].file_path@,
        (entry.data_file.content == DataContentType::Data) == (files[i].content
            == DataContentType::Data),
    ensures
        removed_by(request.with_removed(files)).has_file(*entry),
        removed_by(request.with_removed(files)).has_path(*entry),
{
    let after = request.with_removed(files);
    if files[i].content == DataContentType::Data {
        lemma_filter_complete(files, holds_data(), i);
        let chosen = files.filter(holds_data());
        let k = choose|k: int| 0 <= k < chosen.len() && chosen[k] == files[i];
        let n = request.removed_data_files.len() + k;
        assert(after.removed_data_files[n] == files[i]);
        assert(after.removed_data_files[n].file_path@ == files[i].file_path@);
    } else {
        lemma_filter_complete(files, holds_deletes(), i);
        let chosen = files.filter(holds_deletes());
        let k = choose|k: int| 0 <= k < chosen.len() && chosen[k] == files[i];
        let n = request.removed_delete_files.len() + k;
        assert(after.removed_delete_files[n] == files[i]);
        assert(after.removed_delete_files[n].file_path@ == files[i].file_path@);
    }
}

/// A removed file is recorded as such: for every entry of it in the manifests there is an entry
/// that says that the file is deleted, of the same snapshot, with the same sequence numbers and
/// the same file.
pub proof fn law_removed_files_are_recorded(
    manifests: Seq<LoadedManifest>,
    removed: RemovedPathsView,
    i: int,
    j: int,
)
    requires
        0 <= i < manifests.len(),
        0 <= j < manifests[i].1.entries@.len(),
        removed.has_file(*manifests[i].1.entries@[j]),
    ensures
        deletions(entries_of(manifests), removed).contains(
            ManifestEntry {
                status: ManifestStatus::Deleted,
                ..*manifests[i].1.entries@[j]
            },
        ),
{
    let entries = manifests[i].1.entries@;
    let of_manifest = |entries: Seq<Arc<ManifestEntry>>| manifest_deletions(entries, removed);
    lemma_filter_complete(entries, is_removed(removed), j);
    let chosen = entries.filter(is_removed(removed));
    let k = choose|k: int| 0 <= k < chosen.len() && chosen[k] == entries[j];
    assert(of_manifest(entries)[k] == deleted()(entries[j]));
    assert(entries_of(manifests)[i] == entries);
    lemma_flat_map_contains(entries_of(manifests), of_manifest, i, k);
}

/// Nothing else is recorded: every entry that is recorded says that a file is deleted, and is of a
/// removed file that one of the manifests lists.
pub proof fn law_only_removed_files_are_recorded(
    manifests: Seq<LoadedManifest>,
    removed: RemovedPathsView,
    recorded: ManifestEntry,
)
    requires
        deletions(entries_of(manifests), removed).contains(recorded),
    ensures
        recorded.status == ManifestStatus::Deleted,
        removed.has_file(recorded),
        exists|i: int, j: int|
            {
                &&& 0 <= i < manifests.len()
                &&& 0 <= j < manifests[i].1.entries@.len()
                &&& recorded == (ManifestEntry {
                    status: ManifestStatus::Deleted,
                    ..*#[trigger] manifests[i].1.entries@[j]
                })
            },
    decreases manifests.len(),
{
    let of_manifest = |entries: Seq<Arc<ManifestEntry>>| manifest_deletions(entries, removed);
    let lists = entries_of(manifests);
    if manifests.len() == 0 {
        assert(lists =~= Seq::empty());
        assert(deletions(lists, removed) =~= Seq::empty());
    } else {
        let others = manifests.drop_last();
        let entries = manifests.last().1.entries@;
        assert(lists =~= entries_of(others).push(entries));
        entries_of(others).lemma_flat_map_push(of_manifest, entries);
        let all = deletions(lists, removed);
        let n = choose|n: int| 0 <= n < all.len() && all[n] == recorded;
        let before = deletions(entries_of(others), removed);
        if n < before.len() {
            assert(before[n] == recorded);
            law_only_removed_files_are_recorded(others, removed, recorded);
            let (i, j) = choose|i: int, j: int|
                {
                    &&& 0 <= i < others.len()
                    &&& 0 <= j < others[i].1.entries@.len()
                    &&& recorded == (ManifestEntry {
                        status: ManifestStatus::Deleted,
                        ..*#[trigger] others[i].1.entries@[j]
                    })
                };
            assert(manifests[i].1.entries@[j] == others[i].1.entries@[j]);
        } else {
            let chosen = entries.filter(is_removed(removed));
            let k = n - before.len();
            assert(recorded == deleted()(chosen[k]));
            assert(chosen.contains(chosen[k]));
            lemma_filter_sound(entries, is_removed(removed), chosen[k]);
            let j = choose|j: int| 0 <= j < entries.len() && entries[j] == chosen[k];
            assert(manifests[manifests.len() - 1].1.entries@[j] == chosen[k]);
        }
    }
}

/// Removed files drop out: no manifest of the table lists a removed path after the rewrite.
pub proof fn law_removed_files_drop_out(
    entries: Seq<Arc<ManifestEntry>>,
    removed: RemovedPathsView,
    entry: Arc<ManifestEntry>,
)
    requires
        listed_after(entries, removed).contains(entry),
    ensures
        !removed.has_path(*entry),
        !removed.has_file(*entry),
{
    match disposition(entries, removed) {
        ManifestDisposition::Keep => {
            let i = choose|i: int| 0 <= i < entries.len() && entries[i] == entry;
            assert(!removed.has_path(*entries[i]));
        },
        ManifestDisposition::Drop => {},
        ManifestDisposition::Rewrite => {
            lemma_filter_sound(entries, survives(removed), entry);
        },
    }
}

/// A file that a request removes leaves the table, and the table says so: every entry for it is
/// recorded as deleted, and the manifest that lists it does not list it after the rewrite.
pub proof fn law_deleted_files_leave_the_table(
    request: RewriteRequest,
    files: Seq<DataFile>,
    i: int,
    manifests: Seq<LoadedManifest>,
    m: int,
    j: int,
)
    requires
        0 <= i < files.len(),
        0 <= m < manifests.len(),
        0 <= j < manifests[m].1.entries@.len(),
        manifests[m].1.entries@[j].data_file.file_path@ == files[i].file_path@,
        (manifests[m].1.entries@[j].data_file.content == DataContentType::Data) == (
        files[i].content == DataContentType::Data),
    ensures
        ({
            let entries = manifests[m].1.entries@;
            let removed = removed_by(request.with_removed(files));
            &&& deletions(entries_of(manifests), removed).contains(
                ManifestEntry { status: ManifestStatus::Deleted, ..*entries[j] },
            )
            &&& !listed_after(entries, removed).contains(entries[j])
        }),
{
    let entries = manifests[m].1.entries@;
    let removed = removed_by(request.with_removed(files));
    law_removed_files_are_found(request, files, i, entries[j]);
    law_removed_files_are_recorded(manifests, removed, m, j);
    if listed_after(entries, removed).contains(entries[j]) {
        law_removed_files_drop_out(entries, removed, entries[j]);
    }
}

/// No other file is lost: a file that is part of the table, and whose path is not removed, is
/// listed by its manifest after the rewrite as before.
pub proof fn law_other_files_stay(
    entries: Seq<Arc<ManifestEntry>>,
    removed: RemovedPathsView,
    i: int,
)
    requires
        0 <= i < entries.len(),
        entries[i].alive(),
        !removed.has_path(*entries[i]),
    ensures
        disposition(entries, removed) != ManifestDisposition::Drop,
        listed_after(entries, removed).contains(entries[i]),
{
    if disposition(entries, removed) == ManifestDisposition::Rewrite {
        lemma_filter_complete(entries, survives(removed), i);
    }
}

/// No live file is lost, and none is both kept and recorded as deleted: a live entry is listed by
/// its manifest after the rewrite, or its removal is recorded, and never both. This holds of every
/// entry whose path, if it was removed, was removed as that of a file of its kind, rows or
/// deletes; [`law_files_of_the_other_kind_vanish`] says what becomes of the others.
pub proof fn law_live_files_are_kept_or_recorded(
    manifests: Seq<LoadedManifest>,
    removed: RemovedPathsView,
    i: int,
    j: int,
)
    requires
        0 <= i < manifests.len(),
        0 <= j < manifests[i].1.entries@.len(),
        manifests[i].1.entries@[j].alive(),
        removed.has_path(*manifests[i].1.entries@[j]) ==> removed.has_file(
            *manifests[i].1.entries@[j],
        ),
    ensures
        ({
            let entries = manifests[i].1.entries@;
            listed_after(entries, removed).contains(entries[j]) != deletions(
                entries_of(manifests),
                removed,
            ).contains(ManifestEntry { status: ManifestStatus::Deleted, ..*entries[j] })
        }),
{
    let entries = manifests[i].1.entries@;
    let recorded = deleted()(entries[j]);
    let is_gone = |entry: Arc<ManifestEntry>| removed.has_path(*entry);
    if is_gone(entries[j]) {
        law_removed_files_are_recorded(manifests, removed, i, j);
        if listed_after(entries, removed).contains(entries[j]) {
            law_removed_files_drop_out(entries, removed, entries[j]);
        }
    } else {
        law_other_files_stay(entries, removed, j);
        if deletions(entries_of(manifests), removed).contains(recorded) {
            law_only_removed_files_are_recorded(manifests, removed, recorded);
        }
    }
}

/// An entry whose path was removed, but as that of a file of the other kind, leaves its manifest,
/// and its removal is not recorded.
pub proof fn law_files_of_the_other_kind_vanish(
    manifests: Seq<LoadedManifest>,
    removed: RemovedPathsView,
    i: int,
    j: int,
)
    requires
        0 <= i < manifests.len(),
        0 <= j < manifests[i].1.entries@.len(),
        removed.has_path(*manifests[i].1.entries@[j]),
        !removed.has_file(*manifests[i].1.entries@[j]),
    ensures
        ({
            let entries = manifests[i].1.entries@;
            &&& !listed_after(entries, removed).contains(entries[j])
            &&& !deletions(entries_of(manifests), removed).contains(
                ManifestEntry { status: ManifestStatus::Deleted, ..*entries[j] },
            )
        }),
{
    let entries = manifests[i].1.entries@;
    let recorded = deleted()(entries[j]);
    if listed_after(entries, removed).contains(entries[j]) {
        law_removed_files_drop_out(entries, removed, entries[j]);
    }
    if deletions(entries_of(manifests), removed).contains(recorded) {
        law_only_removed_files_are_recorded(manifests, removed, recorded);
    }
}

/// Nothing is made up: what a manifest lists after the rewrite it listed before. Where the
/// manifest is written anew, it lists no removals.
pub proof fn law_no_file_appears(
    entries: Seq<Arc<ManifestEntry>>,
    removed: RemovedPathsView,
    entry: Arc<ManifestEntry>,
)
    requires
        listed_after(entries, removed).contains(entry),
    ensures
        entries.contains(entry),
        disposition(entries, removed) == ManifestDisposition::Rewrite ==> entry.alive(),
{
    if disposition(entries, removed) == ManifestDisposition::Rewrite {
        lemma_filter_sound(entries, survives(removed), entry);
    }
}

/// Where no file is removed, every manifest stays as it is, none is written, and nothing is
/// recorded.
pub proof fn law_removing_nothing_changes_nothing(manifests: Seq<LoadedManifest>)
    ensures
        ({
            let nothing = removed_by(RewriteRequest::nothing());
            &&& rewrites(manifests, nothing) == Seq::<LoadedManifest>::empty()
            &&& existing_files(manifests, Seq::empty(), nothing) == manifests.map_values(
                |loaded: LoadedManifest| loaded.0,
            )
            &&& deletions(entries_of(manifests), nothing) == Seq::<ManifestEntry>::empty()
        }),
    decreases manifests.len(),
{
    reveal(Seq::filter);
    let nothing = removed_by(RewriteRequest::nothing());
    let file_of = |loaded: LoadedManifest| loaded.0;
    if manifests.len() == 0 {
        assert(manifests.map_values(file_of) =~= Seq::empty());
        assert(entries_of(manifests) =~= Seq::empty());
    } else {
        let others = manifests.drop_last();
        let entries = manifests.last().1.entries@;
        law_removing_nothing_changes_nothing(others);
        assert(disposition(entries, nothing) == ManifestDisposition::Keep);
        assert(manifests.map_values(file_of) =~= others.map_values(file_of).push(
            manifests.last().0,
        ));
        assert(entries_of(manifests) =~= entries_of(others).push(entries));
        entries_of(others).lemma_flat_map_push(
            |entries: Seq<Arc<ManifestEntry>>| manifest_deletions(entries, nothing),
            entries,
        );
        lemma_nothing_removed(entries, nothing);
    }
}

proof fn lemma_nothing_removed(entries: Seq<Arc<ManifestEntry>>, removed: RemovedPathsView)
    requires
        forall|entry: ManifestEntry| !removed.has_file(entry),
    ensures
        manifest_deletions(entries, removed) == Seq::<ManifestEntry>::empty(),
    decreases entries.len(),
{
    reveal(Seq::filter);
    if entries.len() > 0 {
        lemma_nothing_removed(entries.drop_last(), removed);
        assert(entries.filter(is_removed(removed)) =~= entries.drop_last().filter(
            is_removed(removed),
        ));
    }
}

/// Whether a manifest has a place in the table after the rewrite.
pub open spec fn has_place(removed: RemovedPathsView) -> spec_fn(LoadedManifest) -> bool {
    |loaded: LoadedManifest|
        disposition(loaded.1.entries@, removed) != ManifestDisposition::Drop
}

/// The manifests of the table keep their order. Each that is not dropped has one place, after
/// those of the manifests before it: a manifest that is kept stands there itself, one that is
/// written anew is stood for by the manifest that was written in its turn. There are no others.
pub proof fn law_manifests_keep_their_order(
    manifests: Seq<LoadedManifest>,
    written: Seq<ManifestFile>,
    removed: RemovedPathsView,
    i: int,
)
    requires
        written.len() == rewrites(manifests, removed).len(),
        0 <= i < manifests.len(),
    ensures
        existing_files(manifests, written, removed).len() == manifests.filter(
            has_place(removed),
        ).len(),
        has_place(removed)(manifests[i]) ==> {
            let place = manifests.take(i).filter(has_place(removed)).len() as int;
            let turn = rewrites(manifests.take(i), removed).len() as int;
            &&& place < existing_files(manifests, written, removed).len()
            &&& existing_files(manifests, written, removed)[place] == if is_rewritten(removed)(
                manifests[i],
            ) {
                written[turn]
            } else {
                manifests[i].0
            }
        },
    decreases manifests.len(),
{
    reveal(Seq::filter);
    let others = manifests.drop_last();
    let last = manifests.len() - 1;
    let left = if is_rewritten(removed)(manifests.last()) {
        written.drop_last()
    } else {
        written
    };
    assert(manifests.take(last) =~= others);
    if others.len() == 0 {
        assert(existing_files(others, left, removed) =~= Seq::empty());
        assert(others.filter(has_place(removed)) =~= Seq::empty());
    } else {
        law_manifests_keep_their_order(others, left, removed, 0);
    }
    let before = existing_files(others, left, removed);
    assert(before.len() == others.filter(has_place(removed)).len());
    assert(existing_files(manifests, written, removed) == match disposition(
        manifests.last().1.entries@,
        removed,
    ) {
        ManifestDisposition::Keep => before.push(manifests.last().0),
        ManifestDisposition::Drop => before,
        ManifestDisposition::Rewrite => before.push(written.last()),
    });
    if i < last {
        law_manifests_keep_their_order(others, left, removed, i);
        assert(others.take(i) =~= manifests.take(i));
        lemma_rewrites_of_prefix(others, removed, i);
    }
}

/// The manifests before a position that are written anew are the first that are, and the one at
/// the position, if it is, is the next.
proof fn lemma_rewrites_of_prefix(
    manifests: Seq<LoadedManifest>,
    removed: RemovedPathsView,
    i: int,
)
    requires
        0 <= i < manifests.len(),
    ensures
        rewrites(manifests.take(i), removed).len() <= rewrites(manifests, removed).len(),
        is_rewritten(removed)(manifests[i]) ==> {
            let turn = rewrites(manifests.take(i), removed).len() as int;
            turn < rewrites(manifests, removed).len() && rewrites(manifests, removed)[turn]
                == manifests[i]
        },
    decreases manifests.len(),
{
    reveal(Seq::filter);
    let others = manifests.drop_last();
    if i < others.len() {
        lemma_rewrites_of_prefix(others, removed, i);
        assert(others.take(i) =~= manifests.take(i));
    } else {
        assert(manifests.take(i) =~= others);
    }
}

/// Whether two manifests have the same standing in the table: they are one manifest that is kept,
/// or were written in the place of the same manifest, each in its turn.
pub open spec fn same_standing(
    manifests: Seq<LoadedManifest>,
    removed: RemovedPathsView,
    first_written: Seq<ManifestFile>,
    second_written: Seq<ManifestFile>,
    place: int,
    first: ManifestFile,
    second: ManifestFile,
) -> bool {
    exists|i: int|
        {
            &&& 0 <= i < manifests.len()
            &&& has_place(removed)(#[trigger] manifests[i])
            &&& manifests.take(i).filter(has_place(removed)).len() == place
            &&& if is_rewritten(removed)(manifests[i]) {
                let turn = rewrites(manifests.take(i), removed).len() as int;
                &&& turn < first_written.len()
                &&& turn < second_written.len()
                &&& first == first_written[turn]
                &&& second == second_written[turn]
            } else {
                first == manifests[i].0 && second == manifests[i].0
            }
        }
}

/// Whatever the written manifests are, the same places are taken in the table, and the same
/// standing has what takes them.
proof fn lemma_same_places(
    manifests: Seq<LoadedManifest>,
    removed: RemovedPathsView,
    first_written: Seq<ManifestFile>,
    second_written: Seq<ManifestFile>,
)
    requires
        first_written.len() == rewrites(manifests, removed).len(),
        second_written.len() == rewrites(manifests, removed).len(),
    ensures
        ({
            let first = existing_files(manifests, first_written, removed);
            let second = existing_files(manifests, second_written, removed);
            &&& first.len() == second.len()
            &&& forall|p: int|
                #![trigger first[p]]
                #![trigger second[p]]
                0 <= p < first.len() ==> same_standing(
                    manifests,
                    removed,
                    first_written,
                    second_written,
                    p,
                    first[p],
                    second[p],
                )
        }),
{
    let first = existing_files(manifests, first_written, removed);
    let second = existing_files(manifests, second_written, removed);
    if manifests.len() > 0 {
        law_manifests_keep_their_order(manifests, first_written, removed, 0);
        law_manifests_keep_their_order(manifests, second_written, removed, 0);
    }
    assert forall|p: int|
        #![trigger first[p]]
        #![trigger second[p]]
        0 <= p < first.len() implies same_standing(
        manifests,
        removed,
        first_written,
        second_written,
        p,
        first[p],
        second[p],
    ) by {
        lemma_filter_place(manifests, has_place(removed), p);
        let i = choose|i: int|
            {
                &&& 0 <= i < manifests.len()
                &&& has_place(removed)(#[trigger] manifests[i])
                &&& manifests.take(i).filter(has_place(removed)).len() == p
            };
        law_manifests_keep_their_order(manifests, first_written, removed, i);
        law_manifests_keep_their_order(manifests, second_written, removed, i);
        lemma_rewrites_of_prefix(manifests, removed, i);
        assert(has_place(removed)(manifests[i]));
    }
}

/// Both operations have the same manifests written, in the same order: while the manifests that
/// one loads in turn are the first of those that the other has at hand, and both were handed as
/// many written manifests, what the first has written next the second does, too. In the end the
/// lists of manifests that stay have one length, and at each place stands the same kept manifest,
/// or stand the two that were written for the same one. Where both were handed the same written
/// manifests, the lists are the same.
pub proof fn law_both_operations_keep_the_same_manifests(
    sequential: ExistingManifestRun,
    concurrent: PreloadedManifestRun,
)
    requires
        sequential.wf(),
        concurrent.wf(),
        sequential.removed() == concurrent.removed(),
        sequential.manifests().is_prefix_of(concurrent.manifests()),
        sequential.written().len() == concurrent.written().len(),
    ensures
        sequential.is_writing() ==> concurrent.is_writing() && concurrent.next_rewrite()
            == sequential.manifests().last(),
        sequential.manifests() == concurrent.manifests() ==> sequential.is_writing()
            == concurrent.is_writing(),
        sequential.manifests() == concurrent.manifests() && !sequential.is_writing() ==> {
            let first = existing_files(
                sequential.manifests(),
                sequential.written(),
                sequential.removed(),
            );
            let second = existing_files(
                concurrent.manifests(),
                concurrent.written(),
                concurrent.removed(),
            );
            &&& first.len() == second.len()
            &&& forall|p: int|
                #![trigger first[p]]
                #![trigger second[p]]
                0 <= p < first.len() ==> same_standing(
                    concurrent.manifests(),
                    concurrent.removed(),
                    sequential.written(),
                    concurrent.written(),
                    p,
                    first[p],
                    second[p],
                )
            &&& sequential.written() == concurrent.written() ==> first == second
        },
{
    if sequential.is_writing() {
        sequential.lemma_writes_last();
        let loaded = sequential.manifests();
        let all = concurrent.manifests();
        let removed = concurrent.removed();
        assert(loaded.len() > 0) by {
            reveal(Seq::filter);
        }
        let i = loaded.len() - 1;
        assert(loaded =~= all.take(i + 1));
        assert(loaded.drop_last() =~= all.take(i));
        assert(rewrites(loaded, removed).contains(rewrites(loaded, removed).last()));
        lemma_filter_sound(loaded, is_rewritten(removed), loaded.last());
        assert(rewrites(loaded, removed) == rewrites(all.take(i), removed).push(all[i])) by {
            reveal(Seq::filter);
        }
        lemma_rewrites_of_prefix(all, removed, i);
    }
    if sequential.manifests() == concurrent.manifests() && !sequential.is_writing() {
        sequential.lemma_written_in_turn();
        lemma_same_places(
            concurrent.manifests(),
            concurrent.removed(),
            sequential.written(),
            concurrent.written(),
        );
    }
}

/// Both operations record the same removals, in the same order, when the manifests that one loads
/// in turn are those that the other has at hand.
pub proof fn law_both_operations_record_the_same_removals(
    sequential: DeleteEntriesRun,
    manifests: Seq<LoadedManifest>,
    removed: RemovedPathsView,
)
    requires
        sequential.removed() == removed,
        sequential.manifests().len() == manifests.len(),
        forall|i: int|
            0 <= i < manifests.len() ==> #[trigger] sequential.manifests()[i]
                == manifests[i].1.entries@,
    ensures
        deletions(sequential.manifests(), sequential.removed()) == deletions(
            entries_of(manifests),
            removed,
        ),
{
    assert(sequential.manifests() =~= entries_of(manifests));
}

/// The manifests are loaded only once: whatever is loaded later, those that were kept first stay,
/// and once some are kept none have to be loaded.
pub proof fn law_manifests_are_loaded_once(
    cached: Option<Seq<LoadedManifest>>,
    first: Vec<LoadedManifest>,
    second: Option<Vec<LoadedManifest>>,
)
    ensures
        kept(cached, Some(first)) is Some,
        kept(kept(cached, Some(first)), second) == kept(cached, Some(first)),
        cached is Some ==> kept(cached, Some(first)) == cached,
{
}

/// A manifest that is kept is found by its path, unless a later one has the same path.
pub proof fn law_manifests_are_found_by_path(manifests: Seq<LoadedManifest>, i: int)
    requires
        0 <= i < manifests.len(),
        forall|j: int|
            i < j < manifests.len() ==> (#[trigger] manifests[j]).0.manifest_path@
                != manifests[i].0.manifest_path@,
    ensures
        by_path(manifests).contains_key(manifests[i].0.manifest_path@),
        by_path(manifests)[manifests[i].0.manifest_path@] == manifests[i].1,
    decreases manifests.len(),
{
    if i < manifests.len() - 1 {
        let others = manifests.drop_last();
        assert forall|j: int| i < j < others.len() implies (
        #[trigger] others[j]).0.manifest_path@ != others[i].0.manifest_path@ by {
            assert(others[j] == manifests[j]);
        }
        law_manifests_are_found_by_path(others, i);
        assert(manifests.last().0.manifest_path@ == manifests[manifests.len()
            - 1].0.manifest_path@);
    }
}

/// What is found by a path is one of the manifests that are kept, and has that path.
pub proof fn law_only_kept_manifests_are_found(manifests: Seq<LoadedManifest>, path: Seq<char>)
    requires
        by_path(manifests).contains_key(path),
    ensures
        exists|i: int|
            {
                &&& 0 <= i < manifests.len()
                &&& (#[trigger] manifests[i]).0.manifest_path@ == path
                &&& manifests[i].1 == by_path(manifests)[path]
            },
    decreases manifests.len(),
{
    if manifests.len() > 0 {
        let others = manifests.drop_last();
        if manifests.last().0.manifest_path@ == path {
            assert(manifests[manifests.len() - 1].0.manifest_path@ == path);
        } else {
            law_only_kept_manifests_are_found(others, path);
            let i = choose|i: int|
                {
                    &&& 0 <= i < others.len()
                    &&& (#[trigger] others[i]).0.manifest_path@ == path
                    &&& others[i].1 == by_path(others)[path]
                };
            assert(manifests[i].0.manifest_path@ == path);
        }
    }
}

} // verus!
