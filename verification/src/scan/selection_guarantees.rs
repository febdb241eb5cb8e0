//! What choosing manifests and reading their entries promises, said of inputs and results alone.
use std::sync::Arc;
use vstd::prelude::*;

use crate::error::{Error, ErrorKind};
use crate::metadata::data_file::{DataContentType, DataFile};
use crate::metadata::manifest::{
    Manifest, ManifestEntry, ManifestFile, ManifestList, ManifestStatus,
};
use crate::metadata::snapshot::{Operation, Snapshot};
use crate::scan::context::{
    BoundPredicates, ManifestFileContext, ManifestFileContextForStreams, PlanContext,
};
use crate::scan::entries::{
    is_read, send_error, FileScanTask, ManifestEntryContext,
};
use crate::scan::selection::{
    added_by, added_manifests, adds_rows, ids_of, scanned_snapshots, EntryFilter,
    ManifestSelection, ManifestSelectionRun,
};
use crate::scan::services::ScanServices;
use crate::seqs::{
    count_before, lemma_count_bounds, lemma_filter_complete, lemma_filter_map_picks,
    lemma_filter_picks, lemma_filter_sound, picks,
};

verus! {

/// Whether a choice of manifests stands at the start of an incremental scan of a lineage: exactly
/// the snapshots that append or overwrite are scanned, in order, and their ids are those of the
/// filter of entries.
pub open spec fn scans_lineage(run: ManifestSelectionRun, lineage: Seq<Arc<Snapshot>>) -> bool {
    &&& picks(
        lineage,
        |s: Arc<Snapshot>|
            s.summary.operation == Operation::Append || s.summary.operation
                == Operation::Overwrite,
        |s: Arc<Snapshot>| s,
        run.snapshots(),
    )
    &&& run.manifest_lists() == Seq::<Seq<ManifestFile>>::empty()
    &&& run.entry_filter() matches Some(filter) && forall|id: i64| #[trigger]
        filter.snapshot_ids@.contains(id) <==> exists|s: int|
            {
                &&& 0 <= s < lineage.len()
                &&& (#[trigger] lineage[s]).snapshot_id == id
                &&& lineage[s].summary.operation == Operation::Append
                    || lineage[s].summary.operation == Operation::Overwrite
            }
}

proof fn lemma_scans_lineage(run: ManifestSelectionRun, lineage: Seq<Arc<Snapshot>>)
    requires
        run.snapshots() == scanned_snapshots(lineage),
        run.manifest_lists() == Seq::<Seq<ManifestFile>>::empty(),
        run.entry_filter() matches Some(filter) && filter.snapshot_ids@ == ids_of(
            scanned_snapshots(lineage),
        ),
    ensures
        scans_lineage(run, lineage),
{
    let adds = |s: Arc<Snapshot>|
        s.summary.operation == Operation::Append || s.summary.operation == Operation::Overwrite;
    let snapshots = scanned_snapshots(lineage);
    assert(adds_rows() =~= adds);
    lemma_filter_picks(lineage, adds);
    let filter = run.entry_filter()->0;
    assert forall|id: i64| #[trigger] filter.snapshot_ids@.contains(id) <==> exists|s: int|
        {
            &&& 0 <= s < lineage.len()
            &&& (#[trigger] lineage[s]).snapshot_id == id
            &&& lineage[s].summary.operation == Operation::Append || lineage[s].summary.operation
                == Operation::Overwrite
        } by {
        if filter.snapshot_ids@.contains(id) {
            let k = choose|k: int|
                0 <= k < snapshots.len() && #[trigger] snapshots[k].snapshot_id == id;
            assert(snapshots.contains(snapshots[k]));
            lemma_filter_sound(lineage, adds, snapshots[k]);
            let s = choose|s: int| 0 <= s < lineage.len() && lineage[s] == snapshots[k];
            assert(lineage[s].snapshot_id == id);
        }
        if exists|s: int|
            {
                &&& 0 <= s < lineage.len()
                &&& (#[trigger] lineage[s]).snapshot_id == id
                &&& lineage[s].summary.operation == Operation::Append
                    || lineage[s].summary.operation == Operation::Overwrite
            } {
            let s = choose|s: int|
                {
                    &&& 0 <= s < lineage.len()
                    &&& (#[trigger] lineage[s]).snapshot_id == id
                    &&& lineage[s].summary.operation == Operation::Append
                        || lineage[s].summary.operation == Operation::Overwrite
                };
            lemma_filter_complete(lineage, adds, s);
            let k = choose|k: int| 0 <= k < snapshots.len() && snapshots[k] == lineage[s];
            assert(snapshots[k].snapshot_id == id);
        }
    }
}

/// An incremental scan of a lineage scans exactly its appending and overwriting snapshots, in
/// order, whatever their ids and parents are.
pub proof fn law_incremental_scans_cover_the_lineage(
    lineage: Vec<Arc<Snapshot>>,
    run: ManifestSelectionRun,
)
    requires
        call_ensures(ManifestSelectionRun::incremental, (&lineage,), run),
    ensures
        run.wf(),
        scans_lineage(run, lineage@),
{
    lemma_scans_lineage(run, lineage@);
}

/// Every appending or overwriting snapshot of a lineage is scanned, and no other is.
pub proof fn law_snapshots_are_scanned_by_their_operation(
    lineage: Seq<Arc<Snapshot>>,
    run: ManifestSelectionRun,
    s: int,
)
    requires
        scans_lineage(run, lineage),
        0 <= s < lineage.len(),
    ensures
        lineage[s].summary.operation == Operation::Append || lineage[s].summary.operation
            == Operation::Overwrite ==> run.snapshots().contains(lineage[s]),
        run.snapshots().len() <= lineage.len(),
{
    let adds = |s: Arc<Snapshot>|
        s.summary.operation == Operation::Append || s.summary.operation == Operation::Overwrite;
    lemma_count_bounds(lineage, adds, lineage.len() as int);
    if adds(lineage[s]) {
        let place = count_before(lineage, adds, s);
        assert(run.snapshots()[place] == lineage[s]);
    }
}

/// A scan that is not incremental takes all manifests of the list, and needs no other list.
pub proof fn law_whole_scans_take_the_whole_list(
    manifest_list: ManifestList,
    run: ManifestSelectionRun,
)
    requires
        call_ensures(ManifestSelectionRun::whole, (&manifest_list,), run),
    ensures
        run.wf(),
        run.snapshots() == Seq::<Arc<Snapshot>>::empty(),
        run.entry_filter() is None,
        run.manifest_files() == manifest_list.entries@,
{
}

/// A scan is incremental exactly if it has a snapshot to end with. It then covers a lineage that
/// the services gave for the snapshots that it starts after and ends with.
pub proof fn law_scans_cover_what_they_were_asked_for<E: ScanServices>(
    plan: PlanContext<E>,
    manifest_list: ManifestList,
    run: ManifestSelectionRun,
)
    requires
        call_ensures(PlanContext::<E>::select_manifests, (&plan, &manifest_list), run),
    ensures
        run.wf(),
        plan.to_snapshot_id is None ==> {
            &&& run.manifest_lists().len() >= run.snapshots().len()
            &&& run.entry_filter() is None
            &&& run.manifest_files() == manifest_list.entries@
        },
        plan.to_snapshot_id matches Some(to) ==> exists|lineage: Vec<Arc<Snapshot>>|
            {
                &&& #[trigger] call_ensures(
                    E::ancestors_between,
                    (&*plan.services, &plan.table_metadata, to, plan.from_snapshot_id),
                    lineage,
                )
                &&& scans_lineage(run, lineage@)
            },
{
    if let Some(to) = plan.to_snapshot_id {
        let lineage = choose|lineage: Vec<Arc<Snapshot>>|
            {
                &&& #[trigger] call_ensures(
                    E::ancestors_between,
                    (&*plan.services, &plan.table_metadata, to, plan.from_snapshot_id),
                    lineage,
                )
                &&& run.snapshots() == scanned_snapshots(lineage@)
                &&& run.manifest_lists() == Seq::<Seq<ManifestFile>>::empty()
                &&& run.entry_filter() matches Some(filter) && filter.snapshot_ids@ == ids_of(
                    scanned_snapshots(lineage@),
                )
            };
        lemma_scans_lineage(run, lineage@);
    }
}

/// The manifest list of each scanned snapshot is asked for, in order, until all are there.
pub proof fn law_manifest_lists_are_asked_for_in_order(
    run: ManifestSelectionRun,
    snapshot: Option<Arc<Snapshot>>,
)
    requires
        call_ensures(ManifestSelectionRun::next_snapshot, (&run,), snapshot),
    ensures
        run.manifest_lists().len() < run.snapshots().len() ==> snapshot == Some(
            run.snapshots()[run.manifest_lists().len() as int],
        ),
        run.manifest_lists().len() >= run.snapshots().len() ==> snapshot is None,
{
}

/// A manifest list that is handed in is taken as it is, and nothing else changes.
pub proof fn law_manifest_lists_are_taken_whole(
    run: &mut ManifestSelectionRun,
    manifest_list: ManifestList,
)
    requires
        call_ensures(
            ManifestSelectionRun::manifest_list_loaded,
            (run, &manifest_list),
            (),
        ),
    ensures
        final(run).wf(),
        final(run).snapshots() == old(run).snapshots(),
        final(run).entry_filter() == old(run).entry_filter(),
        final(run).manifest_lists() == old(run).manifest_lists().push(manifest_list.entries@),
{
}

/// The manifests of lists that were added by snapshots with the given ids, list by list.
pub open spec fn gathered(
    manifest_lists: Seq<Seq<ManifestFile>>,
    snapshot_ids: Set<i64>,
) -> Seq<ManifestFile>
    decreases manifest_lists.len(),
{
    if manifest_lists.len() == 0 {
        Seq::empty()
    } else {
        gathered(manifest_lists.drop_last(), snapshot_ids) + manifest_lists.last().filter(
            |m: ManifestFile| snapshot_ids.contains(m.added_snapshot_id),
        )
    }
}

proof fn lemma_gathered(manifest_lists: Seq<Seq<ManifestFile>>, snapshot_ids: Set<i64>)
    ensures
        added_manifests(manifest_lists, snapshot_ids) == gathered(manifest_lists, snapshot_ids),
    decreases manifest_lists.len(),
{
    let added = |list: Seq<ManifestFile>| list.filter(added_by(snapshot_ids));
    if manifest_lists.len() == 0 {
        assert(added_manifests(manifest_lists, snapshot_ids) =~= Seq::empty());
    } else {
        let others = manifest_lists.drop_last();
        lemma_gathered(others, snapshot_ids);
        assert(manifest_lists =~= others.push(manifest_lists.last()));
        others.lemma_flat_map_push(added, manifest_lists.last());
        assert(added_by(snapshot_ids) =~= (|m: ManifestFile|
            snapshot_ids.contains(m.added_snapshot_id)));
    }
}

/// A choice of manifests ends with the manifests that the scanned snapshots added, out of the
/// lists of all of them, or with all manifests of the one list, and with the filter of entries that
/// it began with.
pub proof fn law_chosen_manifests_are_the_added_ones(
    run: ManifestSelectionRun,
    selection: ManifestSelection,
)
    requires
        call_ensures(ManifestSelectionRun::finish, (run,), selection),
    ensures
        run.manifest_lists().len() == run.snapshots().len(),
        selection.entry_filter == run.entry_filter(),
        run.entry_filter() is None ==> selection.manifest_files@ == run.manifest_files(),
        run.entry_filter() matches Some(filter) ==> selection.manifest_files@ == gathered(
            run.manifest_lists(),
            filter.snapshot_ids@,
        ),
{
    if let Some(filter) = run.entry_filter() {
        lemma_gathered(run.manifest_lists(), filter.snapshot_ids@);
    }
}

/// A manifest of one of the lists is gathered if and only if one of the snapshots added it.
pub proof fn law_manifests_are_gathered_by_who_added_them(
    manifest_lists: Seq<Seq<ManifestFile>>,
    snapshot_ids: Set<i64>,
    i: int,
    j: int,
)
    requires
        0 <= i < manifest_lists.len(),
        0 <= j < manifest_lists[i].len(),
    ensures
        gathered(manifest_lists, snapshot_ids).contains(manifest_lists[i][j])
            <==> snapshot_ids.contains(manifest_lists[i][j].added_snapshot_id),
    decreases manifest_lists.len(),
{
    let m = manifest_lists[i][j];
    let keep = |m: ManifestFile| snapshot_ids.contains(m.added_snapshot_id);
    let others = manifest_lists.drop_last();
    let last = manifest_lists.last();
    let all = gathered(manifest_lists, snapshot_ids);
    let before = gathered(others, snapshot_ids);
    if all.contains(m) {
        lemma_gathered_sound(manifest_lists, snapshot_ids, m);
    }
    if keep(m) {
        if i < others.len() {
            law_manifests_are_gathered_by_who_added_them(others, snapshot_ids, i, j);
            let n = choose|n: int| 0 <= n < before.len() && before[n] == m;
            assert(all[n] == m);
        } else {
            lemma_filter_complete(last, keep, j);
            let chosen = last.filter(keep);
            let n = choose|n: int| 0 <= n < chosen.len() && chosen[n] == m;
            assert(all[before.len() + n] == m);
        }
    }
}

proof fn lemma_gathered_sound(
    manifest_lists: Seq<Seq<ManifestFile>>,
    snapshot_ids: Set<i64>,
    m: ManifestFile,
)
    requires
        gathered(manifest_lists, snapshot_ids).contains(m),
    ensures
        snapshot_ids.contains(m.added_snapshot_id),
    decreases manifest_lists.len(),
{
    let keep = |m: ManifestFile| snapshot_ids.contains(m.added_snapshot_id);
    if manifest_lists.len() > 0 {
        let all = gathered(manifest_lists, snapshot_ids);
        let before = gathered(manifest_lists.drop_last(), snapshot_ids);
        let n = choose|n: int| 0 <= n < all.len() && all[n] == m;
        if n < before.len() {
            assert(before[n] == m);
            lemma_gathered_sound(manifest_lists.drop_last(), snapshot_ids, m);
        } else {
            assert(manifest_lists.last().filter(keep)[n - before.len()] == m);
            lemma_filter_sound(manifest_lists.last(), keep, m);
        }
    }
}

/// The filter of an incremental scan lets an entry through if and only if it is of a data file that
/// was added, and names no snapshot or one that is scanned.
pub proof fn law_filters_let_added_data_through(
    filter: EntryFilter,
    entry: ManifestEntry,
    admitted: bool,
)
    requires
        call_ensures(EntryFilter::matches, (&filter, &entry), admitted),
    ensures
        admitted <==> {
            &&& entry.status == ManifestStatus::Added
            &&& entry.data_file.content == DataContentType::Data
            &&& entry.snapshot_id is None || filter.snapshot_ids@.contains(entry.snapshot_id->0)
        },
{
}

/// Whether an entry is read through a filter; without one, every entry is.
pub open spec fn let_through(entry_filter: Option<EntryFilter>) -> spec_fn(
    Arc<ManifestEntry>,
) -> bool {
    |entry: Arc<ManifestEntry>|
        entry_filter matches Some(filter) ==> {
            &&& entry.status == ManifestStatus::Added
            &&& entry.data_file.content == DataContentType::Data
            &&& entry.snapshot_id is None || filter.snapshot_ids@.contains(entry.snapshot_id->0)
        }
}

/// The context that an entry of a manifest is read with.
pub open spec fn read_with<E: ScanServices>(
    manifest_file: ManifestFile,
    services: Arc<E>,
    field_ids: Arc<Vec<i32>>,
    bound_predicates: Option<BoundPredicates<E::BoundPredicate>>,
    snapshot_schema: Arc<E::Schema>,
) -> spec_fn(Arc<ManifestEntry>) -> ManifestEntryContext<E> {
    |entry: Arc<ManifestEntry>|
        ManifestEntryContext {
            manifest_entry: entry,
            services,
            field_ids,
            bound_predicates,
            partition_spec_id: manifest_file.partition_spec_id,
            snapshot_schema,
        }
}

/// Of a manifest exactly the entries that the filter lets through are read, in order, each with
/// what the context of the manifest holds.
pub proof fn law_entries_are_read_in_order<E: ScanServices>(
    context: ManifestFileContext<E>,
    manifest: Manifest,
    contexts: Vec<ManifestEntryContext<E>>,
)
    requires
        call_ensures(
            ManifestFileContext::<E>::manifest_entries_to_stream,
            (&context, &manifest),
            contexts,
        ),
    ensures
        picks(
            manifest.entries@,
            let_through(context.entry_filter),
            read_with(
                context.manifest_file,
                context.services,
                context.field_ids,
                context.bound_predicates,
                context.snapshot_schema,
            ),
            contexts@,
        ),
{
    let make = read_with(
        context.manifest_file,
        context.services,
        context.field_ids,
        context.bound_predicates,
        context.snapshot_schema,
    );
    assert(is_read(context.entry_filter) =~= let_through(context.entry_filter));
    assert(context.entry_context() =~= make);
    lemma_filter_map_picks(manifest.entries@, let_through(context.entry_filter), make);
}

/// The same for a plan without channels.
pub proof fn law_entries_are_collected_in_order<E: ScanServices>(
    context: ManifestFileContextForStreams<E>,
    manifest: Manifest,
    contexts: Vec<ManifestEntryContext<E>>,
)
    requires
        call_ensures(
            ManifestFileContextForStreams::<E>::manifest_entries_vec,
            (&context, &manifest),
            contexts,
        ),
    ensures
        picks(
            manifest.entries@,
            let_through(context.entry_filter),
            read_with(
                context.manifest_file,
                context.services,
                context.field_ids,
                context.bound_predicates,
                context.snapshot_schema,
            ),
            contexts@,
        ),
{
    let make = read_with(
        context.manifest_file,
        context.services,
        context.field_ids,
        context.bound_predicates,
        context.snapshot_schema,
    );
    assert(is_read(context.entry_filter) =~= let_through(context.entry_filter));
    assert(context.entry_context() =~= make);
    lemma_filter_map_picks(manifest.entries@, let_through(context.entry_filter), make);
}

/// The deletes of a task are the ones it was given, unchanged and in order, whatever the file is.
pub proof fn law_tasks_carry_all_deletes<E: ScanServices, D>(
    context: ManifestEntryContext<E>,
    deletes: Vec<D>,
    task: FileScanTask<E, D>,
)
    requires
        call_ensures(
            ManifestEntryContext::<E>::into_file_scan_task::<D>,
            (context, deletes),
            task,
        ),
    ensures
        task.deletes@ == deletes@,
{
}

/// Two tasks for one entry differ in nothing but their deletes.
pub proof fn law_deletes_bear_on_nothing_else<E: ScanServices, D>(
    context: ManifestEntryContext<E>,
    first: Vec<D>,
    second: Vec<D>,
    one: FileScanTask<E, D>,
    other: FileScanTask<E, D>,
)
    requires
        call_ensures(ManifestEntryContext::<E>::into_file_scan_task::<D>, (context, first), one),
        call_ensures(ManifestEntryContext::<E>::into_file_scan_task::<D>, (context, second), other),
    ensures
        one.start == other.start,
        one.length == other.length,
        one.record_count == other.record_count,
        one.data_file_path@ == other.data_file_path@,
        one.data_file_content == other.data_file_content,
        one.data_file_format == other.data_file_format,
        one.schema == other.schema,
        one.project_field_ids@ == other.project_field_ids@,
        one.predicate == other.predicate,
        one.sequence_number == other.sequence_number,
        one.equality_ids is Some == other.equality_ids is Some,
        one.file_size_in_bytes == other.file_size_in_bytes,
        one.partition == other.partition,
{
}

/// A task reads its file whole: from the start, over all its bytes and records, in its format.
pub proof fn law_tasks_read_whole_files<E: ScanServices, D>(
    context: ManifestEntryContext<E>,
    deletes: Vec<D>,
    task: FileScanTask<E, D>,
)
    requires
        call_ensures(
            ManifestEntryContext::<E>::into_file_scan_task::<D>,
            (context, deletes),
            task,
        ),
    ensures
        ({
            let file = *context.manifest_entry.data_file;
            &&& task.start == 0
            &&& task.length == file.file_size_in_bytes
            &&& task.file_size_in_bytes == file.file_size_in_bytes
            &&& task.record_count == Some(file.record_count)
            &&& task.data_file_path@ == file.file_path@
            &&& task.data_file_content == file.content
            &&& task.data_file_format == file.file_format
            &&& task.partition == Some(file.partition)
        }),
{
}

/// A task reads with the schema, the fields and the predicate of its context, with the sequence
/// number and the equality ids of its file, and with no partition spec or name mapping.
pub proof fn law_tasks_read_as_the_scan_asks<E: ScanServices, D>(
    context: ManifestEntryContext<E>,
    deletes: Vec<D>,
    task: FileScanTask<E, D>,
)
    requires
        call_ensures(
            ManifestEntryContext::<E>::into_file_scan_task::<D>,
            (context, deletes),
            task,
        ),
    ensures
        task.schema == context.snapshot_schema,
        task.project_field_ids@ == context.field_ids@,
        task.predicate is Some <==> context.bound_predicates is Some,
        task.predicate matches Some(predicate) ==> predicate
            == context.bound_predicates->0.snapshot_bound_predicate,
        task.sequence_number == (if context.manifest_entry.sequence_number is Some {
            context.manifest_entry.sequence_number->0
        } else {
            0
        }),
        task.equality_ids is Some <==> context.manifest_entry.data_file.equality_ids is Some,
        task.equality_ids matches Some(ids) ==> ids@
            == context.manifest_entry.data_file.equality_ids->0@,
        task.partition_spec is None,
        task.name_mapping is None,
{
}

/// The index of delete files is asked for the file and the sequence number of the entry.
pub proof fn law_deletes_are_looked_up_by_file<E: ScanServices>(
    context: ManifestEntryContext<E>,
    lookup: (Arc<DataFile>, Option<i64>),
)
    requires
        call_ensures(ManifestEntryContext::<E>::delete_lookup, (&context,), lookup),
    ensures
        lookup.0 == context.manifest_entry.data_file,
        lookup.1 == context.manifest_entry.sequence_number,
{
}

/// A closed channel is an unexpected failure.
pub proof fn law_closed_channels_are_unexpected(error: Error)
    requires
        call_ensures(send_error, (), error),
    ensures
        error.kind == ErrorKind::Unexpected,
        error.message@ == "mpsc channel SendError"@,
{
}

/// Every plan, list, lineage, manifest and entry is accepted, and a choice of manifests accepts the
/// list of each scanned snapshot until all are there.
pub proof fn law_every_selection_can_be_made<E: ScanServices, D>(
    plan: PlanContext<E>,
    manifest_list: ManifestList,
    lineage: Vec<Arc<Snapshot>>,
    run: &mut ManifestSelectionRun,
    filter: EntryFilter,
    entry: ManifestEntry,
    manifest: Manifest,
    context: ManifestFileContext<E>,
    stream: ManifestFileContextForStreams<E>,
    entry_context: ManifestEntryContext<E>,
    deletes: Vec<D>,
)
    ensures
        call_requires(PlanContext::<E>::select_manifests, (&plan, &manifest_list)),
        call_requires(ManifestSelectionRun::whole, (&manifest_list,)),
        call_requires(ManifestSelectionRun::incremental, (&lineage,)),
        old(run).wf() ==> call_requires(ManifestSelectionRun::next_snapshot, (&*old(run),)),
        old(run).wf() && old(run).manifest_lists().len() < old(run).snapshots().len()
            ==> call_requires(ManifestSelectionRun::manifest_list_loaded, (run, &manifest_list)),
        old(run).wf() && old(run).manifest_lists().len() >= old(run).snapshots().len()
            ==> call_requires(ManifestSelectionRun::finish, (*old(run),)),
        call_requires(EntryFilter::matches, (&filter, &entry)),
        call_requires(
            ManifestFileContext::<E>::manifest_entries_to_stream,
            (&context, &manifest),
        ),
        call_requires(
            ManifestFileContextForStreams::<E>::manifest_entries_vec,
            (&stream, &manifest),
        ),
        call_requires(ManifestEntryContext::<E>::delete_lookup, (&entry_context,)),
        call_requires(
            ManifestEntryContext::<E>::into_file_scan_task::<D>,
            (entry_context, deletes),
        ),
{
}

} // verus!
