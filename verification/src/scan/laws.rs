//! What a plan for a scan covers as a whole.
use std::sync::Arc;
use vstd::prelude::*;

use crate::error::Error;
use crate::metadata::data_file::DataContentType;
use crate::metadata::manifest::{
    ManifestContentType, ManifestEntry, ManifestFile, ManifestList, ManifestStatus,
};
use crate::metadata::snapshot::{Operation, Snapshot};
use crate::scan::context::{
    EntryChannel, ManifestFileContext, ManifestFileContextForStreams, PlanContext,
};
use crate::scan::deletes::{passed, DeleteFileContext, DeleteManifestRead};
use crate::scan::entries::is_read;
use crate::scan::matching::ManifestMatch;
use crate::scan::planning::{admitted, channel_of, of_kind};
use crate::scan::selection::{
    added_by, added_manifests, adds_rows, ids_of, scanned_snapshots, EntryFilter,
    ManifestSelection, ManifestSelectionRun,
};
use crate::scan::services::ScanServices;
use crate::seqs::{
    lemma_filter_all, lemma_filter_complete, lemma_filter_none, lemma_filter_sound,
    lemma_flat_map_contains,
};

verus! {

/// An incremental scan considers only manifests that an appending or overwriting snapshot of the
/// lineage added.
pub proof fn law_incremental_scans_consider_only_added_manifests(
    lineage: Seq<Arc<Snapshot>>,
    manifest_lists: Seq<Seq<ManifestFile>>,
    manifest_file: ManifestFile,
)
    requires
        added_manifests(manifest_lists, ids_of(scanned_snapshots(lineage))).contains(manifest_file),
    ensures
        exists|i: int|
            {
                &&& 0 <= i < lineage.len()
                &&& (#[trigger] lineage[i]).snapshot_id == manifest_file.added_snapshot_id
                &&& lineage[i].summary.operation == Operation::Append
                    || lineage[i].summary.operation == Operation::Overwrite
            },
    decreases manifest_lists.len(),
{
    let snapshots = scanned_snapshots(lineage);
    let ids = ids_of(snapshots);
    let added = |list: Seq<ManifestFile>| list.filter(added_by(ids));
    if manifest_lists.len() == 0 {
        assert(added_manifests(manifest_lists, ids) =~= Seq::empty());
    } else {
        let others = manifest_lists.drop_last();
        assert(manifest_lists =~= others.push(manifest_lists.last()));
        others.lemma_flat_map_push(added, manifest_lists.last());
        let all = added_manifests(manifest_lists, ids);
        let before = added_manifests(others, ids);
        let n = choose|n: int| 0 <= n < all.len() && all[n] == manifest_file;
        if n < before.len() {
            assert(before[n] == manifest_file);
            law_incremental_scans_consider_only_added_manifests(lineage, others, manifest_file);
        } else {
            assert(added(manifest_lists.last())[n - before.len()] == manifest_file);
            lemma_filter_sound(manifest_lists.last(), added_by(ids), manifest_file);
            let k = choose|k: int|
                0 <= k < snapshots.len() && #[trigger] snapshots[k].snapshot_id
                    == manifest_file.added_snapshot_id;
            assert(snapshots.contains(snapshots[k]));
            lemma_filter_sound(lineage, adds_rows(), snapshots[k]);
            let i = choose|i: int| 0 <= i < lineage.len() && lineage[i] == snapshots[k];
            assert(lineage[i].snapshot_id == manifest_file.added_snapshot_id);
        }
    }
}

/// An incremental scan ignores what a snapshot added that replaces or deletes files, where no two
/// snapshots of the lineage have the same id.
pub proof fn law_incremental_scans_ignore_replacements(
    lineage: Seq<Arc<Snapshot>>,
    manifest_lists: Seq<Seq<ManifestFile>>,
    manifest_file: ManifestFile,
    s: int,
)
    requires
        forall|i: int, j: int|
            0 <= i < j < lineage.len() ==> (#[trigger] lineage[i]).snapshot_id != (
            #[trigger] lineage[j]).snapshot_id,
        0 <= s < lineage.len(),
        lineage[s].summary.operation == Operation::Replace || lineage[s].summary.operation
            == Operation::Delete,
        manifest_file.added_snapshot_id == lineage[s].snapshot_id,
    ensures
        !added_manifests(manifest_lists, ids_of(scanned_snapshots(lineage))).contains(
            manifest_file,
        ),
{
    if added_manifests(manifest_lists, ids_of(scanned_snapshots(lineage))).contains(
        manifest_file,
    ) {
        law_incremental_scans_consider_only_added_manifests(lineage, manifest_lists, manifest_file);
        let i = choose|i: int|
            {
                &&& 0 <= i < lineage.len()
                &&& (#[trigger] lineage[i]).snapshot_id == manifest_file.added_snapshot_id
                &&& lineage[i].summary.operation == Operation::Append
                    || lineage[i].summary.operation == Operation::Overwrite
            };
        assert(i != s);
    }
}

/// An incremental scan scans every appending or overwriting snapshot of the lineage, and considers
/// every manifest that such a snapshot added, wherever a list holds it.
pub proof fn law_incremental_scans_consider_all_added_manifests(
    lineage: Seq<Arc<Snapshot>>,
    manifest_lists: Seq<Seq<ManifestFile>>,
    s: int,
    i: int,
    j: int,
)
    requires
        0 <= s < lineage.len(),
        lineage[s].summary.operation == Operation::Append || lineage[s].summary.operation
            == Operation::Overwrite,
        0 <= i < manifest_lists.len(),
        0 <= j < manifest_lists[i].len(),
        manifest_lists[i][j].added_snapshot_id == lineage[s].snapshot_id,
    ensures
        scanned_snapshots(lineage).contains(lineage[s]),
        added_manifests(manifest_lists, ids_of(scanned_snapshots(lineage))).contains(
            manifest_lists[i][j],
        ),
{
    let snapshots = scanned_snapshots(lineage);
    let ids = ids_of(snapshots);
    let added = |list: Seq<ManifestFile>| list.filter(added_by(ids));
    let list = manifest_lists[i];
    lemma_filter_complete(lineage, adds_rows(), s);
    let n = choose|n: int| 0 <= n < snapshots.len() && snapshots[n] == lineage[s];
    assert(snapshots[n].snapshot_id == list[j].added_snapshot_id);
    lemma_filter_complete(list, added_by(ids), j);
    let chosen = list.filter(added_by(ids));
    let k = choose|k: int| 0 <= k < chosen.len() && chosen[k] == list[j];
    lemma_flat_map_contains(manifest_lists, added, i, k);
}

/// An incremental scan reads only data files that were added, and where their entries name a
/// snapshot, an appending or overwriting snapshot of the lineage added them.
pub proof fn law_incremental_scans_read_only_added_data(
    lineage: Seq<Arc<Snapshot>>,
    filter: EntryFilter,
    entries: Seq<Arc<ManifestEntry>>,
    entry: Arc<ManifestEntry>,
)
    requires
        filter.snapshot_ids@ == ids_of(scanned_snapshots(lineage)),
        entries.filter(is_read(Some(filter))).contains(entry),
    ensures
        entries.contains(entry),
        entry.status == ManifestStatus::Added,
        entry.data_file.content == DataContentType::Data,
        entry.snapshot_id matches Some(id) ==> exists|i: int|
            {
                &&& 0 <= i < lineage.len()
                &&& (#[trigger] lineage[i]).snapshot_id == id
                &&& lineage[i].summary.operation == Operation::Append
                    || lineage[i].summary.operation == Operation::Overwrite
            },
{
    lemma_filter_sound(entries, is_read(Some(filter)), entry);
    if let Some(id) = entry.snapshot_id {
        let snapshots = scanned_snapshots(lineage);
        let k = choose|k: int|
            0 <= k < snapshots.len() && #[trigger] snapshots[k].snapshot_id == id;
        assert(snapshots.contains(snapshots[k]));
        lemma_filter_sound(lineage, adds_rows(), snapshots[k]);
        let i = choose|i: int| 0 <= i < lineage.len() && lineage[i] == snapshots[k];
        assert(lineage[i].snapshot_id == id);
    }
}

/// An incremental scan reads every data file of a manifest that is added, if its entry names no
/// snapshot, or an appending or overwriting snapshot of the lineage.
pub proof fn law_incremental_scans_read_all_added_data(
    lineage: Seq<Arc<Snapshot>>,
    filter: EntryFilter,
    entries: Seq<Arc<ManifestEntry>>,
    i: int,
)
    requires
        filter.snapshot_ids@ == ids_of(scanned_snapshots(lineage)),
        0 <= i < entries.len(),
        entries[i].status == ManifestStatus::Added,
        entries[i].data_file.content == DataContentType::Data,
        entries[i].snapshot_id matches Some(id) ==> exists|s: int|
            {
                &&& 0 <= s < lineage.len()
                &&& (#[trigger] lineage[s]).snapshot_id == id
                &&& lineage[s].summary.operation == Operation::Append
                    || lineage[s].summary.operation == Operation::Overwrite
            },
    ensures
        entries.filter(is_read(Some(filter))).contains(entries[i]),
{
    if let Some(id) = entries[i].snapshot_id {
        let snapshots = scanned_snapshots(lineage);
        let s = choose|s: int|
            {
                &&& 0 <= s < lineage.len()
                &&& (#[trigger] lineage[s]).snapshot_id == id
                &&& lineage[s].summary.operation == Operation::Append
                    || lineage[s].summary.operation == Operation::Overwrite
            };
        lemma_filter_complete(lineage, adds_rows(), s);
        let n = choose|n: int| 0 <= n < snapshots.len() && snapshots[n] == lineage[s];
        assert(snapshots[n].snapshot_id == id);
    }
    lemma_filter_complete(entries, is_read(Some(filter)), i);
}

/// A scan that is not incremental reads every entry of a manifest.
pub proof fn law_whole_scans_read_every_entry(entries: Seq<Arc<ManifestEntry>>)
    ensures
        entries.filter(is_read(None)) == entries,
{
    lemma_filter_all(entries, is_read(None));
}

/// An incremental scan ignores delete files: it looks into no manifest for them.
pub proof fn law_incremental_scans_ignore_delete_files<E: ScanServices>(
    plan: PlanContext<E>,
    manifest_list: ManifestList,
)
    requires
        plan.to_snapshot_id is Some,
    ensures
        plan.delete_manifests(manifest_list) == Seq::<ManifestFile>::empty(),
{
}

/// In a plan, no delete manifest comes after a data manifest, and the entries of each manifest go
/// to the channel for what it lists.
pub proof fn law_delete_manifests_come_first<E: ScanServices>(
    plan: PlanContext<E>,
    manifest_files: Seq<ManifestFile>,
    matches: Seq<ManifestMatch<E::BoundPredicate>>,
    entry_filter: Option<EntryFilter>,
    i: int,
    j: int,
)
    requires
        manifest_files.len() == matches.len(),
        0 <= i < j < plan.contexts(manifest_files, matches, entry_filter).len(),
    ensures
        ({
            let contexts = plan.contexts(manifest_files, matches, entry_filter);
            &&& contexts[i].channel == channel_of(contexts[i].manifest_file.content)
            &&& contexts[j].channel == channel_of(contexts[j].manifest_file.content)
            &&& contexts[j].channel == EntryChannel::Deletes ==> contexts[i].channel
                == EntryChannel::Deletes
        }),
{
    lemma_context_kind(plan, manifest_files, matches, entry_filter, i);
    lemma_context_kind(plan, manifest_files, matches, entry_filter, j);
}

/// The contexts up to the number of delete manifests are of delete manifests, those after it are
/// of data manifests.
proof fn lemma_context_kind<E: ScanServices>(
    plan: PlanContext<E>,
    manifest_files: Seq<ManifestFile>,
    matches: Seq<ManifestMatch<E::BoundPredicate>>,
    entry_filter: Option<EntryFilter>,
    i: int,
)
    requires
        manifest_files.len() == matches.len(),
        0 <= i < plan.contexts(manifest_files, matches, entry_filter).len(),
    ensures
        ({
            let context = plan.contexts(manifest_files, matches, entry_filter)[i];
            let deletes = plan.contexts_of_kind(
                manifest_files,
                matches,
                ManifestContentType::Deletes,
                entry_filter,
            ).len();
            &&& context.channel == channel_of(context.manifest_file.content)
            &&& context.manifest_file.content == if i < deletes {
                ManifestContentType::Deletes
            } else {
                ManifestContentType::Data
            }
        }),
{
    let pairs = manifest_files.zip_with(matches);
    let deletes = pairs.filter(admitted(ManifestContentType::Deletes));
    let data = pairs.filter(admitted(ManifestContentType::Data));
    if i < deletes.len() {
        assert(deletes.contains(deletes[i]));
        lemma_filter_sound(pairs, admitted(ManifestContentType::Deletes), deletes[i]);
    } else {
        let k = i - deletes.len();
        assert(data.contains(data[k]));
        lemma_filter_sound(pairs, admitted(ManifestContentType::Data), data[k]);
    }
}

/// Every manifest that can list a matching file is planned, with its partition filter, and no
/// other is: there are as many contexts as such manifests.
pub proof fn law_manifests_are_planned_once<E: ScanServices>(
    plan: PlanContext<E>,
    manifest_files: Seq<ManifestFile>,
    matches: Seq<ManifestMatch<E::BoundPredicate>>,
    entry_filter: Option<EntryFilter>,
    i: int,
)
    requires
        manifest_files.len() == matches.len(),
        0 <= i < manifest_files.len(),
    ensures
        plan.contexts(manifest_files, matches, entry_filter).len() == matches.filter(
            |m: ManifestMatch<E::BoundPredicate>| m
                != ManifestMatch::<E::BoundPredicate>::Excluded,
        ).len(),
        matches[i] != ManifestMatch::<E::BoundPredicate>::Excluded ==> plan.contexts(
            manifest_files,
            matches,
            entry_filter,
        ).contains(
            plan.manifest_file_context(
                manifest_files[i],
                matches[i].partition_filter(),
                channel_of(manifest_files[i].content),
                entry_filter,
            ),
        ),
{
    let pairs = manifest_files.zip_with(matches);
    let kind = manifest_files[i].content;
    lemma_planned_count(manifest_files, matches);
    if matches[i] != ManifestMatch::<E::BoundPredicate>::Excluded {
        lemma_filter_complete(pairs, admitted(kind), i);
        let chosen = pairs.filter(admitted(kind));
        let k = choose|k: int| 0 <= k < chosen.len() && chosen[k] == pairs[i];
        let contexts = plan.contexts(manifest_files, matches, entry_filter);
        let deletes = plan.contexts_of_kind(
            manifest_files,
            matches,
            ManifestContentType::Deletes,
            entry_filter,
        );
        let n = if kind == ManifestContentType::Deletes {
            k
        } else {
            deletes.len() + k
        };
        assert(contexts[n] == plan.context_of(entry_filter)(chosen[k]));
    }
}

proof fn lemma_planned_count<B>(
    manifest_files: Seq<ManifestFile>,
    matches: Seq<ManifestMatch<B>>,
)
    requires
        manifest_files.len() == matches.len(),
    ensures
        ({
            let pairs = manifest_files.zip_with(matches);
            pairs.filter(admitted(ManifestContentType::Deletes)).len() + pairs.filter(
                admitted(ManifestContentType::Data),
            ).len() == matches.filter(
                |m: ManifestMatch<B>| m != ManifestMatch::<B>::Excluded,
            ).len()
        }),
    decreases matches.len(),
{
    reveal(Seq::filter);
    let pairs = manifest_files.zip_with(matches);
    if matches.len() > 0 {
        lemma_planned_count(manifest_files.drop_last(), matches.drop_last());
        assert(pairs.drop_last() =~= manifest_files.drop_last().zip_with(matches.drop_last()));
        assert(pairs.last() == (manifest_files.last(), matches.last()));
    }
}

/// Without a predicate no manifest is left out: each of them is planned.
pub proof fn law_without_predicate_every_manifest_is_planned<E: ScanServices>(
    plan: PlanContext<E>,
    manifest_files: Seq<ManifestFile>,
    matches: Seq<ManifestMatch<E::BoundPredicate>>,
    entry_filter: Option<EntryFilter>,
)
    requires
        plan.predicate is None,
        plan.matches_outcome(manifest_files, Ok(matches)),
    ensures
        plan.contexts(manifest_files, matches, entry_filter).len() == manifest_files.len(),
        forall|i: int|
            0 <= i < manifest_files.len() ==> #[trigger] matches[i] == ManifestMatch::<
                E::BoundPredicate,
            >::Unfiltered,
{
    let planned = |m: ManifestMatch<E::BoundPredicate>|
        m != ManifestMatch::<E::BoundPredicate>::Excluded;
    lemma_planned_count(manifest_files, matches);
    assert forall|i: int| 0 <= i < manifest_files.len() implies #[trigger] matches[i]
        == ManifestMatch::<E::BoundPredicate>::Unfiltered by {
        assert(plan.match_outcome(manifest_files[i], Ok(matches[i])));
    }
    lemma_filter_all(matches, planned);
}

/// What was found of the manifests of a kind.
pub open spec fn matches_of_kind<B>(
    manifest_files: Seq<ManifestFile>,
    matches: Seq<ManifestMatch<B>>,
    content: ManifestContentType,
) -> Seq<ManifestMatch<B>> {
    manifest_files.zip_with(matches).filter(
        |m: (ManifestFile, ManifestMatch<B>)| m.0.content == content,
    ).map_values(|m: (ManifestFile, ManifestMatch<B>)| m.1)
}

/// Both ways to plan a scan agree on data files: given the same findings, the plan without
/// channels, which looks at the data manifests only, has the contexts that the other plan has
/// after those of delete manifests, and the entries of a manifest come out the same.
pub proof fn law_both_plans_agree_on_data<E: ScanServices>(
    plan: PlanContext<E>,
    manifest_files: Seq<ManifestFile>,
    matches: Seq<ManifestMatch<E::BoundPredicate>>,
    entry_filter: Option<EntryFilter>,
    i: int,
)
    requires
        manifest_files.len() == matches.len(),
    ensures
        ({
            let streams = plan.contexts_for_streams(
                manifest_files.filter(of_kind(ManifestContentType::Data)),
                matches_of_kind(manifest_files, matches, ManifestContentType::Data),
                entry_filter,
            );
            let channels = plan.contexts_of_kind(
                manifest_files,
                matches,
                ManifestContentType::Data,
                entry_filter,
            );
            &&& streams.len() == channels.len()
            &&& 0 <= i < streams.len() ==> {
                &&& streams[i].manifest_file == channels[i].manifest_file
                &&& streams[i].entry_filter == channels[i].entry_filter
                &&& streams[i].bound_predicates == channels[i].bound_predicates
                &&& streams[i].entry_context() == channels[i].entry_context()
            }
        }),
{
    let data_files = manifest_files.filter(of_kind(ManifestContentType::Data));
    let data_matches = matches_of_kind(manifest_files, matches, ManifestContentType::Data);
    lemma_data_pairs(manifest_files, matches);
    let chosen = manifest_files.zip_with(matches).filter(admitted(ManifestContentType::Data));
    assert(data_files.zip_with(data_matches).filter(admitted(ManifestContentType::Data))
        == chosen);
    if 0 <= i < chosen.len() {
        let stream = plan.context_for_streams_of(entry_filter)(chosen[i]);
        let channel = plan.context_of(entry_filter)(chosen[i]);
        assert(stream.entry_context() =~= channel.entry_context());
    }
}

proof fn lemma_data_pairs<B>(manifest_files: Seq<ManifestFile>, matches: Seq<ManifestMatch<B>>)
    requires
        manifest_files.len() == matches.len(),
    ensures
        ({
            let data_files = manifest_files.filter(of_kind(ManifestContentType::Data));
            let data_matches = matches_of_kind(manifest_files, matches, ManifestContentType::Data);
            &&& data_files.len() == data_matches.len()
            &&& data_files.zip_with(data_matches).filter(admitted(ManifestContentType::Data))
                == manifest_files.zip_with(matches).filter(admitted(ManifestContentType::Data))
        }),
    decreases matches.len(),
{
    reveal(Seq::filter);
    let pairs = manifest_files.zip_with(matches);
    let data_files = manifest_files.filter(of_kind(ManifestContentType::Data));
    let data_matches = matches_of_kind(manifest_files, matches, ManifestContentType::Data);
    if matches.len() == 0 {
        assert(data_files.zip_with(data_matches) =~= Seq::empty());
        assert(pairs =~= Seq::empty());
    } else {
        let fewer_files = manifest_files.drop_last();
        let fewer_matches = matches.drop_last();
        let fewer = fewer_files.zip_with(fewer_matches);
        lemma_data_pairs(fewer_files, fewer_matches);
        assert(pairs.drop_last() =~= fewer);
        assert(pairs.last() == (manifest_files.last(), matches.last()));
        let fewer_data_files = fewer_files.filter(of_kind(ManifestContentType::Data));
        let fewer_data_matches = matches_of_kind(
            fewer_files,
            fewer_matches,
            ManifestContentType::Data,
        );
        if manifest_files.last().content == ManifestContentType::Data {
            assert(data_matches =~= fewer_data_matches.push(matches.last()));
            let data_pairs = data_files.zip_with(data_matches);
            assert(data_pairs =~= fewer_data_files.zip_with(fewer_data_matches).push(
                (manifest_files.last(), matches.last()),
            ));
            assert(data_pairs.drop_last() =~= fewer_data_files.zip_with(fewer_data_matches));
        } else {
            assert(data_matches =~= fewer_data_matches);
        }
    }
}

/// Whether testing a manifest has only one outcome.
pub open spec fn has_one_outcome<E: ScanServices>(
    plan: PlanContext<E>,
    manifest_file: ManifestFile,
) -> bool {
    forall|
        one: Result<ManifestMatch<E::BoundPredicate>, Error>,
        other: Result<ManifestMatch<E::BoundPredicate>, Error>,
    |
        #![trigger plan.match_outcome(manifest_file, one), plan.match_outcome(manifest_file, other)]
        plan.match_outcome(manifest_file, one) && plan.match_outcome(manifest_file, other) ==> one
            == other
}

/// Whether asking for the partition filter of a manifest has only one outcome.
pub open spec fn has_one_filter<E: ScanServices>(
    plan: PlanContext<E>,
    manifest_file: ManifestFile,
) -> bool {
    forall|
        one: Result<Arc<E::BoundPredicate>, Error>,
        other: Result<Arc<E::BoundPredicate>, Error>,
    |
        #![trigger
            plan.partition_filter_outcome(manifest_file, one),
            plan.partition_filter_outcome(manifest_file, other)
        ]
        plan.partition_filter_outcome(manifest_file, one) && plan.partition_filter_outcome(
            manifest_file,
            other,
        ) ==> one == other
}

/// Whether two filters let the same entries through.
pub open spec fn same_entries(one: Option<EntryFilter>, other: Option<EntryFilter>) -> bool {
    match (one, other) {
        (None, None) => true,
        (Some(one), Some(other)) => one.snapshot_ids@ == other.snapshot_ids@,
        _ => false,
    }
}

/// Choosing manifests twice comes to the same: the same manifests, in order, of which the same
/// entries are read, where both choices scan the same snapshots and were handed the same manifest
/// lists, or both take all manifests of one list.
pub proof fn law_choosing_twice_comes_to_the_same(
    one: ManifestSelectionRun,
    other: ManifestSelectionRun,
    first: ManifestSelection,
    second: ManifestSelection,
)
    requires
        one.comes_to(first),
        other.comes_to(second),
        match (one.entry_filter(), other.entry_filter()) {
            (Some(_), Some(_)) => {
                &&& one.snapshots() == other.snapshots()
                &&& one.manifest_lists() == other.manifest_lists()
            },
            (None, None) => one.manifest_files() == other.manifest_files(),
            _ => false,
        },
    ensures
        first.manifest_files@ == second.manifest_files@,
        same_entries(first.entry_filter, second.entry_filter),
{
}

/// Whether a context is of a data manifest.
pub open spec fn is_of_data<E: ScanServices>() -> spec_fn(ManifestFileContext<E>) -> bool {
    |context: ManifestFileContext<E>| context.manifest_file.content == ManifestContentType::Data
}

/// Whether a context of a plan without channels is that of a plan with channels but for the
/// channel: of the same manifest, with the same predicates, fields and schema, and the same entries
/// are read.
pub open spec fn same_context<E: ScanServices>(
    stream: ManifestFileContextForStreams<E>,
    channel: ManifestFileContext<E>,
) -> bool {
    &&& stream.manifest_file == channel.manifest_file
    &&& stream.bound_predicates == channel.bound_predicates
    &&& stream.field_ids == channel.field_ids
    &&& stream.snapshot_schema == channel.snapshot_schema
    &&& stream.services == channel.services
    &&& stream.entry_context() == channel.entry_context()
    &&& is_read(stream.entry_filter) == is_read(channel.entry_filter)
}

/// Without a predicate, testing a manifest has only one outcome.
pub proof fn law_without_predicate_tests_have_one_outcome<E: ScanServices>(
    plan: PlanContext<E>,
    manifest_file: ManifestFile,
)
    requires
        plan.predicate is None,
    ensures
        has_one_outcome(plan, manifest_file),
{
}

/// Whether the services that a plan tests manifests with answer the same question the same way each
/// time.
pub open spec fn answers_alike<E: ScanServices>(plan: PlanContext<E>) -> bool {
    &&& forall|
        predicate: Arc<E::Predicate>,
        one: Result<E::BoundPredicate, Error>,
        other: Result<E::BoundPredicate, Error>,
    |
        #![trigger
            call_ensures(
                E::bind,
                (&*plan.services, &*predicate, &plan.snapshot_schema, plan.case_sensitive),
                one,
            ),
            call_ensures(
                E::bind,
                (&*plan.services, &*predicate, &plan.snapshot_schema, plan.case_sensitive),
                other,
            )
        ]
        call_ensures(
            E::bind,
            (&*plan.services, &*predicate, &plan.snapshot_schema, plan.case_sensitive),
            one,
        ) && call_ensures(
            E::bind,
            (&*plan.services, &*predicate, &plan.snapshot_schema, plan.case_sensitive),
            other,
        ) ==> one == other
    &&& forall|
        spec_id: i32,
        bound: E::BoundPredicate,
        one: Result<Arc<E::BoundPredicate>, Error>,
        other: Result<Arc<E::BoundPredicate>, Error>,
    |
        #![trigger
            call_ensures(
                E::partition_filter,
                (
                    &*plan.services,
                    spec_id,
                    &plan.table_metadata,
                    &plan.snapshot_schema,
                    plan.case_sensitive,
                    bound,
                ),
                one,
            ),
            call_ensures(
                E::partition_filter,
                (
                    &*plan.services,
                    spec_id,
                    &plan.table_metadata,
                    &plan.snapshot_schema,
                    plan.case_sensitive,
                    bound,
                ),
                other,
            )
        ]
        call_ensures(
            E::partition_filter,
            (
                &*plan.services,
                spec_id,
                &plan.table_metadata,
                &plan.snapshot_schema,
                plan.case_sensitive,
                bound,
            ),
            one,
        ) && call_ensures(
            E::partition_filter,
            (
                &*plan.services,
                spec_id,
                &plan.table_metadata,
                &plan.snapshot_schema,
                plan.case_sensitive,
                bound,
            ),
            other,
        ) ==> one == other
    &&& forall|
        spec_id: i32,
        filter: Arc<E::BoundPredicate>,
        manifest_file: ManifestFile,
        one: Result<bool, Error>,
        other: Result<bool, Error>,
    |
        #![trigger
            call_ensures(
                E::manifest_matches,
                (&*plan.services, spec_id, &filter, &manifest_file),
                one,
            ),
            call_ensures(
                E::manifest_matches,
                (&*plan.services, spec_id, &filter, &manifest_file),
                other,
            )
        ]
        call_ensures(
            E::manifest_matches,
            (&*plan.services, spec_id, &filter, &manifest_file),
            one,
        ) && call_ensures(
            E::manifest_matches,
            (&*plan.services, spec_id, &filter, &manifest_file),
            other,
        ) ==> one == other
}

/// Where the services answer the same question the same way each time, testing a manifest has only
/// one outcome, and, if there is a predicate, so has asking for its partition filter.
pub proof fn law_alike_answers_give_one_outcome<E: ScanServices>(
    plan: PlanContext<E>,
    manifest_file: ManifestFile,
)
    requires
        answers_alike(plan),
    ensures
        has_one_outcome(plan, manifest_file),
        plan.predicate is Some ==> has_one_filter(plan, manifest_file),
{
}

/// Both ways to plan a scan succeed together: where testing a data manifest has only one outcome,
/// and the plan with channels succeeds, the plan without channels succeeds, too. It then has, one by
/// one and in order, the contexts that the other plan has for data manifests: the same manifests,
/// with the same predicates, fields and schema, and the same entries are read of them.
pub proof fn law_both_plans_succeed_together<E: ScanServices>(
    plan: PlanContext<E>,
    first: ManifestSelection,
    second: ManifestSelection,
    channels: Seq<ManifestFileContext<E>>,
    outcome: Result<Seq<ManifestFileContextForStreams<E>>, Error>,
)
    requires
        first.manifest_files@ == second.manifest_files@,
        same_entries(first.entry_filter, second.entry_filter),
        forall|i: int|
            0 <= i < first.manifest_files@.len() && (#[trigger] first.manifest_files@[i]).content
                == ManifestContentType::Data ==> has_one_outcome(plan, first.manifest_files@[i]),
        plan.contexts_outcome(first, Ok(channels)),
        plan.contexts_for_streams_outcome(second, outcome),
    ensures
        outcome is Ok,
        ({
            let streams = outcome->Ok_0;
            let data = channels.filter(is_of_data());
            &&& streams.len() == data.len()
            &&& forall|i: int|
                #![trigger streams[i]]
                #![trigger data[i]]
                0 <= i < streams.len() ==> same_context(streams[i], data[i])
        }),
{
    let manifest_files = first.manifest_files@;
    let matches = choose|matches: Seq<ManifestMatch<E::BoundPredicate>>|
        {
            &&& #[trigger] plan.matches_outcome(manifest_files, Ok(matches))
            &&& channels == plan.contexts(manifest_files, matches, first.entry_filter)
        };
    let data_matches = matches_of_kind(manifest_files, matches, ManifestContentType::Data);
    lemma_data_pairs(manifest_files, matches);
    lemma_data_matches(plan, manifest_files, matches);
    lemma_streams_of_matches(plan, second, data_matches, outcome);
    lemma_data_contexts(plan, manifest_files, matches, first.entry_filter);
    lemma_same_contexts(
        plan,
        manifest_files.zip_with(matches).filter(admitted(ManifestContentType::Data)),
        first.entry_filter,
        second.entry_filter,
    );
}

/// What was found of the manifests in one plan can be found of the data manifests in the other.
proof fn lemma_data_matches<E: ScanServices>(
    plan: PlanContext<E>,
    manifest_files: Seq<ManifestFile>,
    matches: Seq<ManifestMatch<E::BoundPredicate>>,
)
    requires
        plan.matches_outcome(manifest_files, Ok(matches)),
        forall|i: int|
            0 <= i < manifest_files.len() && (#[trigger] manifest_files[i]).content
                == ManifestContentType::Data ==> has_one_outcome(plan, manifest_files[i]),
    ensures
        ({
            let data_files = manifest_files.filter(of_kind(ManifestContentType::Data));
            &&& plan.matches_outcome(
                data_files,
                Ok(matches_of_kind(manifest_files, matches, ManifestContentType::Data)),
            )
            &&& forall|i: int|
                0 <= i < data_files.len() ==> has_one_outcome(plan, #[trigger] data_files[i])
        }),
{
    let data_files = manifest_files.filter(of_kind(ManifestContentType::Data));
    let data_matches = matches_of_kind(manifest_files, matches, ManifestContentType::Data);
    lemma_data_pairs(manifest_files, matches);
    assert forall|i: int| 0 <= i < data_files.len() implies {
        &&& has_one_outcome(plan, #[trigger] data_files[i])
        &&& plan.match_outcome(data_files[i], Ok(data_matches[i]))
    } by {
        lemma_data_pair_is_pair(manifest_files, matches, i);
        let k = choose|k: int|
            {
                &&& 0 <= k < manifest_files.len()
                &&& #[trigger] manifest_files[k] == data_files[i]
                &&& manifest_files[k].content == ManifestContentType::Data
                &&& matches[k] == data_matches[i]
            };
        assert(plan.match_outcome(manifest_files[k], Ok(matches[k])));
    }
    assert forall|i: int| 0 <= i < data_files.len() implies plan.match_outcome(
        data_files[i],
        Ok(#[trigger] data_matches[i]),
    ) by {
        assert(has_one_outcome(plan, data_files[i]));
    }
}

/// Where testing a data manifest has only one outcome, and all of them can pass, the plan without
/// channels is the one that those findings come to.
proof fn lemma_streams_of_matches<E: ScanServices>(
    plan: PlanContext<E>,
    selection: ManifestSelection,
    matches: Seq<ManifestMatch<E::BoundPredicate>>,
    outcome: Result<Seq<ManifestFileContextForStreams<E>>, Error>,
)
    requires
        plan.contexts_for_streams_outcome(selection, outcome),
        ({
            let data_files = selection.manifest_files@.filter(of_kind(ManifestContentType::Data));
            &&& plan.matches_outcome(data_files, Ok(matches))
            &&& forall|i: int|
                0 <= i < data_files.len() ==> has_one_outcome(plan, #[trigger] data_files[i])
        }),
    ensures
        outcome == Ok::<_, Error>(
            plan.contexts_for_streams(
                selection.manifest_files@.filter(of_kind(ManifestContentType::Data)),
                matches,
                selection.entry_filter,
            ),
        ),
{
    let data_files = selection.manifest_files@.filter(of_kind(ManifestContentType::Data));
    match outcome {
        Err(error) => {
            let (n, before) = choose|n: int, before: Seq<ManifestMatch<E::BoundPredicate>>|
                {
                    &&& 0 <= n < data_files.len()
                    &&& #[trigger] plan.matches_before(data_files, n, before)
                    &&& plan.match_outcome(data_files[n], Err(error))
                };
            assert(has_one_outcome(plan, data_files[n]));
            assert(plan.match_outcome(data_files[n], Ok(matches[n])));
        },
        Ok(streams) => {
            let found = choose|found: Seq<ManifestMatch<E::BoundPredicate>>|
                {
                    &&& #[trigger] plan.matches_outcome(data_files, Ok(found))
                    &&& streams == plan.contexts_for_streams(
                        data_files,
                        found,
                        selection.entry_filter,
                    )
                };
            assert forall|i: int| 0 <= i < data_files.len() implies found[i] == matches[i] by {
                assert(has_one_outcome(plan, data_files[i]));
                assert(plan.match_outcome(data_files[i], Ok(found[i])));
                assert(plan.match_outcome(data_files[i], Ok(matches[i])));
            }
            assert(found =~= matches);
        },
    }
}

/// Both plans make contexts of manifests that differ in nothing but the channel.
proof fn lemma_same_contexts<E: ScanServices>(
    plan: PlanContext<E>,
    chosen: Seq<(ManifestFile, ManifestMatch<E::BoundPredicate>)>,
    first: Option<EntryFilter>,
    second: Option<EntryFilter>,
)
    requires
        same_entries(first, second),
    ensures
        ({
            let streams = chosen.map_values(plan.context_for_streams_of(second));
            let data = chosen.map_values(plan.context_of(first));
            forall|i: int|
                #![trigger streams[i]]
                #![trigger data[i]]
                0 <= i < chosen.len() ==> same_context(streams[i], data[i])
        }),
{
    assert(is_read(second) =~= is_read(first));
}

/// A data manifest and what was found of it stand side by side among all manifests, too.
proof fn lemma_data_pair_is_pair<B>(
    manifest_files: Seq<ManifestFile>,
    matches: Seq<ManifestMatch<B>>,
    i: int,
)
    requires
        manifest_files.len() == matches.len(),
        0 <= i < manifest_files.filter(of_kind(ManifestContentType::Data)).len(),
        0 <= i < matches_of_kind(manifest_files, matches, ManifestContentType::Data).len(),
    ensures
        exists|k: int|
            {
                &&& 0 <= k < manifest_files.len()
                &&& #[trigger] manifest_files[k] == manifest_files.filter(
                    of_kind(ManifestContentType::Data),
                )[i]
                &&& manifest_files[k].content == ManifestContentType::Data
                &&& matches[k] == matches_of_kind(
                    manifest_files,
                    matches,
                    ManifestContentType::Data,
                )[i]
            },
    decreases matches.len(),
{
    reveal(Seq::filter);
    let pairs = manifest_files.zip_with(matches);
    let data_files = manifest_files.filter(of_kind(ManifestContentType::Data));
    let data_matches = matches_of_kind(manifest_files, matches, ManifestContentType::Data);
    if matches.len() > 0 {
        let fewer_files = manifest_files.drop_last();
        let fewer_matches = matches.drop_last();
        let fewer_data_files = fewer_files.filter(of_kind(ManifestContentType::Data));
        let fewer_data_matches = matches_of_kind(
            fewer_files,
            fewer_matches,
            ManifestContentType::Data,
        );
        lemma_data_pairs(fewer_files, fewer_matches);
        assert(pairs.drop_last() =~= fewer_files.zip_with(fewer_matches));
        assert(pairs.last() == (manifest_files.last(), matches.last()));
        if manifest_files.last().content == ManifestContentType::Data {
            assert(data_matches =~= fewer_data_matches.push(matches.last()));
        } else {
            assert(data_matches =~= fewer_data_matches);
        }
        if i < fewer_data_files.len() {
            lemma_data_pair_is_pair(fewer_files, fewer_matches, i);
            let k = choose|k: int|
                {
                    &&& 0 <= k < fewer_files.len()
                    &&& #[trigger] fewer_files[k] == fewer_data_files[i]
                    &&& fewer_files[k].content == ManifestContentType::Data
                    &&& fewer_matches[k] == fewer_data_matches[i]
                };
            assert(manifest_files[k] == data_files[i]);
        } else {
            assert(manifest_files[manifest_files.len() - 1] == data_files[i]);
        }
    }
}

/// The contexts of a plan that are of data manifests are those that come after the delete
/// manifests.
proof fn lemma_data_contexts<E: ScanServices>(
    plan: PlanContext<E>,
    manifest_files: Seq<ManifestFile>,
    matches: Seq<ManifestMatch<E::BoundPredicate>>,
    entry_filter: Option<EntryFilter>,
)
    requires
        manifest_files.len() == matches.len(),
    ensures
        plan.contexts(manifest_files, matches, entry_filter).filter(is_of_data())
            == plan.contexts_of_kind(
            manifest_files,
            matches,
            ManifestContentType::Data,
            entry_filter,
        ),
{
    let all = plan.contexts(manifest_files, matches, entry_filter);
    let deletes = plan.contexts_of_kind(
        manifest_files,
        matches,
        ManifestContentType::Deletes,
        entry_filter,
    );
    let data = plan.contexts_of_kind(
        manifest_files,
        matches,
        ManifestContentType::Data,
        entry_filter,
    );
    assert forall|i: int| 0 <= i < deletes.len() implies !is_of_data()(#[trigger] deletes[i]) by {
        lemma_context_kind(plan, manifest_files, matches, entry_filter, i);
        assert(all[i] == deletes[i]);
    }
    assert forall|i: int| 0 <= i < data.len() implies is_of_data()(#[trigger] data[i]) by {
        lemma_context_kind(plan, manifest_files, matches, entry_filter, deletes.len() + i);
        assert(all[deletes.len() + i] == data[i]);
    }
    Seq::filter_distributes_over_add(deletes, data, is_of_data());
    lemma_filter_none(deletes, is_of_data());
    lemma_filter_all(data, is_of_data());
    assert(Seq::<ManifestFileContext<E>>::empty() + data =~= data);
}

/// Whether two outcomes of asking for a partition filter agree: the same filter, or failures that
/// say the same.
pub open spec fn filters_agree<B>(
    one: Result<Arc<B>, Error>,
    other: Result<Arc<B>, Error>,
) -> bool {
    match (one, other) {
        (Ok(one), Ok(other)) => one == other,
        (Err(one), Err(other)) => one.says(other.kind, other.message@),
        _ => false,
    }
}

/// A manifest bears on its partition filter only through its partition spec: for two manifests of
/// one spec, asking for the filter can have the same outcomes.
pub proof fn law_partition_filter_depends_on_the_spec<E: ScanServices>(
    plan: PlanContext<E>,
    one: ManifestFile,
    other: ManifestFile,
    outcome: Result<Arc<E::BoundPredicate>, Error>,
)
    requires
        one.partition_spec_id == other.partition_spec_id,
    ensures
        plan.partition_filter_outcome(one, outcome) <==> plan.partition_filter_outcome(
            other,
            outcome,
        ),
{
}

/// Manifests of one partition spec get the same partition filter, or failures that say the same,
/// where asking for the filter of such a manifest has only one outcome, if there is a predicate.
pub proof fn law_manifests_of_one_spec_get_the_same_filter<E: ScanServices>(
    plan: PlanContext<E>,
    one: ManifestFile,
    other: ManifestFile,
    first: Result<Arc<E::BoundPredicate>, Error>,
    second: Result<Arc<E::BoundPredicate>, Error>,
)
    requires
        one.partition_spec_id == other.partition_spec_id,
        plan.predicate is Some ==> has_one_filter(plan, one),
        plan.partition_filter_outcome(one, first),
        plan.partition_filter_outcome(other, second),
    ensures
        filters_agree(first, second),
{
    law_partition_filter_depends_on_the_spec(plan, one, other, second);
}

/// The search for delete files finds only live delete files, of manifests that can list a matching
/// one.
pub proof fn law_only_live_delete_files_are_found<E: ScanServices>(
    plan: PlanContext<E>,
    ms: Seq<(ManifestFile, ManifestMatch<E::BoundPredicate>)>,
    reads: Seq<DeleteManifestRead<E::BoundPredicate>>,
    context: DeleteFileContext<E>,
)
    requires
        plan.reads_follow(ms, reads),
        plan.contexts_of_reads(reads).contains(context),
    ensures
        context.manifest_entry.status != ManifestStatus::Deleted,
        context.manifest_entry.data_file.content != DataContentType::Data,
        context.snapshot_schema == plan.snapshot_schema,
        context.field_ids == plan.field_ids,
        exists|i: int|
            {
                &&& 0 <= i < ms.len()
                &&& (#[trigger] ms[i]).0.partition_spec_id == context.partition_spec_id
                &&& reads[i].entries.contains(context.manifest_entry)
            },
    decreases reads.len(),
{
    let of_read = |read: DeleteManifestRead<E::BoundPredicate>|
        plan.delete_file_contexts(read.manifest_file, read.entries, read.found);
    if reads.len() == 0 {
        assert(reads =~= Seq::empty());
        assert(plan.contexts_of_reads(reads) =~= Seq::empty());
    } else {
        let others = reads.drop_last();
        let read = reads.last();
        assert(reads =~= others.push(read));
        others.lemma_flat_map_push(of_read, read);
        let all = plan.contexts_of_reads(reads);
        let before = plan.contexts_of_reads(others);
        let n = choose|n: int| 0 <= n < all.len() && all[n] == context;
        if n < before.len() {
            assert(before[n] == context);
            assert forall|i: int| 0 <= i < ms.drop_last().len() implies plan.read_follows(
                ms.drop_last()[i],
                #[trigger] others[i],
            ) by {
                assert(plan.read_follows(ms[i], reads[i]));
            }
            law_only_live_delete_files_are_found(plan, ms.drop_last(), others, context);
            let i = choose|i: int|
                {
                    &&& 0 <= i < ms.drop_last().len()
                    &&& (#[trigger] ms.drop_last()[i]).0.partition_spec_id
                        == context.partition_spec_id
                    &&& others[i].entries.contains(context.manifest_entry)
                };
            assert(ms[i].0.partition_spec_id == context.partition_spec_id);
        } else {
            let last = reads.len() - 1;
            assert(plan.read_follows(ms[last], reads[last]));
            let pairs = read.entries.zip_with(read.found);
            let chosen = pairs.filter(passed());
            let k = n - before.len();
            assert(of_read(read)[k] == context);
            assert(chosen.contains(chosen[k]));
            lemma_filter_sound(pairs, passed(), chosen[k]);
            let e = choose|e: int| 0 <= e < pairs.len() && pairs[e] == chosen[k];
            assert(read.found[e]);
            assert(read.entries[e] == context.manifest_entry);
            assert(plan.entry_outcome(
                ms[last].0,
                ms[last].1.partition_filter(),
                read.entries[e],
                Ok(read.found[e]),
            ));
            assert(ms[last].0.partition_spec_id == context.partition_spec_id);
        }
    }
}

/// Without a predicate, the search for delete files reads every delete manifest, and finds every
/// live delete file that one of them lists.
pub proof fn law_without_predicate_all_live_delete_files_are_found<E: ScanServices>(
    plan: PlanContext<E>,
    manifest_files: Seq<ManifestFile>,
    matches: Seq<ManifestMatch<E::BoundPredicate>>,
    reads: Seq<DeleteManifestRead<E::BoundPredicate>>,
    i: int,
    j: int,
)
    requires
        plan.predicate is None,
        plan.matches_outcome(manifest_files, Ok(matches)),
        plan.reads_follow(
            manifest_files.zip_with(matches).filter(admitted(ManifestContentType::Deletes)),
            reads,
        ),
        forall|k: int|
            0 <= k < manifest_files.len() ==> (#[trigger] manifest_files[k]).content
                == ManifestContentType::Deletes,
        0 <= i < manifest_files.len(),
        0 <= j < reads[i].entries.len(),
        reads[i].entries[j].status != ManifestStatus::Deleted,
        reads[i].entries[j].data_file.content != DataContentType::Data,
    ensures
        reads.len() == manifest_files.len(),
        reads[i].manifest_file == manifest_files[i],
        plan.contexts_of_reads(reads).contains(
            DeleteFileContext {
                manifest_entry: reads[i].entries[j],
                partition_spec_id: manifest_files[i].partition_spec_id,
                snapshot_schema: plan.snapshot_schema,
                field_ids: plan.field_ids,
            },
        ),
{
    let of_read = |read: DeleteManifestRead<E::BoundPredicate>|
        plan.delete_file_contexts(read.manifest_file, read.entries, read.found);
    let ms = manifest_files.zip_with(matches);
    assert forall|k: int| 0 <= k < ms.len() implies admitted(ManifestContentType::Deletes)(
        #[trigger] ms[k],
    ) by {
        assert(manifest_files[k].content == ManifestContentType::Deletes);
        assert(plan.match_outcome(manifest_files[k], Ok(matches[k])));
    }
    lemma_filter_all(ms, admitted(ManifestContentType::Deletes));
    let read = reads[i];
    assert(plan.read_follows(ms[i], reads[i]));
    assert(plan.match_outcome(manifest_files[i], Ok(matches[i])));
    let pairs = read.entries.zip_with(read.found);
    assert(plan.entry_outcome(
        ms[i].0,
        ms[i].1.partition_filter(),
        read.entries[j],
        Ok(read.found[j]),
    ));
    lemma_filter_complete(pairs, passed(), j);
    let chosen = pairs.filter(passed());
    let k = choose|k: int| 0 <= k < chosen.len() && chosen[k] == pairs[j];
    assert(of_read(read)[k] == plan.delete_file_context(read.manifest_file)(chosen[k]));
    lemma_flat_map_contains(reads, of_read, i, k);
}

} // verus!
