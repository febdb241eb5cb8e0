//! What the search for delete files promises, said of inputs and results alone.
use std::sync::Arc;
use vstd::prelude::*;

use crate::error::Error;
use crate::metadata::data_file::DataContentType;
use crate::metadata::manifest::{
    Manifest, ManifestContentType, ManifestEntry, ManifestFile, ManifestList, ManifestStatus,
};
use crate::scan::context::PlanContext;
use crate::scan::deletes::{
    passed, DeleteFileAction, DeleteFileContext, DeleteFileRun, DeleteManifestRead,
};
use crate::scan::guarantees::{
    all_come_out, are_of_kind, can_come_out, lemma_match_outcome, lemma_matches_outcome,
    lemma_of_kind, wanted,
};
use crate::scan::planning::admitted;
use crate::scan::services::ScanServices;
use crate::seqs::{
    count_before, lemma_count_reaches, lemma_filter_complete, lemma_filter_map_picks,
    lemma_filter_picks, lemma_filter_sound, picks,
};

verus! {

/// Whether an entry of a delete manifest can come out of its test so. An entry of a removed file or
/// of a data file fails it. Any other entry passes, if there is no partition filter; else the
/// services decide by its file.
pub open spec fn can_pass<E: ScanServices>(
    plan: PlanContext<E>,
    manifest_file: ManifestFile,
    partition_filter: Option<Arc<E::BoundPredicate>>,
    entry: Arc<ManifestEntry>,
    outcome: Result<bool, Error>,
) -> bool {
    if entry.status == ManifestStatus::Deleted || entry.data_file.content
        == DataContentType::Data {
        outcome == Ok::<bool, Error>(false)
    } else if partition_filter is None {
        outcome == Ok::<bool, Error>(true)
    } else {
        call_ensures(
            E::file_matches,
            (
                &*plan.services,
                manifest_file.partition_spec_id,
                &partition_filter->0,
                &*entry.data_file,
            ),
            outcome,
        )
    }
}

/// Whether entries of a delete manifest can come out of their tests so.
pub open spec fn all_can_pass<E: ScanServices>(
    plan: PlanContext<E>,
    manifest_file: ManifestFile,
    partition_filter: Option<Arc<E::BoundPredicate>>,
    entries: Seq<Arc<ManifestEntry>>,
    found: Seq<bool>,
) -> bool {
    &&& found.len() == entries.len()
    &&& forall|i: int|
        #![trigger entries[i]]
        #![trigger found[i]]
        0 <= i < found.len() ==> can_pass(
            plan,
            manifest_file,
            partition_filter,
            entries[i],
            Ok(found[i]),
        )
}

/// Whether the test of an entry can fail so after all before it came out.
pub open spec fn one_cannot_pass<E: ScanServices>(
    plan: PlanContext<E>,
    manifest_file: ManifestFile,
    partition_filter: Option<Arc<E::BoundPredicate>>,
    entries: Seq<Arc<ManifestEntry>>,
    error: Error,
) -> bool {
    exists|n: int, before: Seq<bool>|
        {
            &&& 0 <= n < entries.len()
            &&& #[trigger] all_can_pass(
                plan,
                manifest_file,
                partition_filter,
                entries.take(n),
                before,
            )
            &&& can_pass(plan, manifest_file, partition_filter, entries[n], Err(error))
        }
}

/// The context of a delete file: its entry, the partition spec of its manifest, and the schema and
/// the fields of the plan.
pub open spec fn found_with<E: ScanServices>(
    plan: PlanContext<E>,
    manifest_file: ManifestFile,
) -> spec_fn((Arc<ManifestEntry>, bool)) -> DeleteFileContext<E> {
    |e: (Arc<ManifestEntry>, bool)|
        DeleteFileContext {
            manifest_entry: e.0,
            partition_spec_id: manifest_file.partition_spec_id,
            snapshot_schema: plan.snapshot_schema,
            field_ids: plan.field_ids,
        }
}

/// Only removed entries and entries of data files are passed over, and where there is a partition
/// filter, those that the services do not let through.
pub proof fn law_delete_entries_are_judged_by_status_and_content<E: ScanServices>(
    plan: PlanContext<E>,
    manifest_file: ManifestFile,
    partition_filter: Option<Arc<E::BoundPredicate>>,
    entry: Arc<ManifestEntry>,
    outcome: Result<bool, Error>,
)
    requires
        call_ensures(
            PlanContext::<E>::match_delete_entry,
            (&plan, &manifest_file, &partition_filter, &entry),
            outcome,
        ),
    ensures
        can_pass(plan, manifest_file, partition_filter, entry, outcome),
{
}

/// Testing the entries of a delete manifest tests each of them, in order, up to the first test that
/// fails.
pub proof fn law_delete_entries_are_tested_in_order<E: ScanServices>(
    plan: PlanContext<E>,
    manifest_file: ManifestFile,
    partition_filter: Option<Arc<E::BoundPredicate>>,
    manifest: Manifest,
    outcome: Result<Vec<bool>, Error>,
)
    requires
        call_ensures(
            PlanContext::<E>::match_delete_entries,
            (&plan, &manifest_file, &partition_filter, &manifest),
            outcome,
        ),
    ensures
        match outcome {
            Ok(found) => all_can_pass(
                plan,
                manifest_file,
                partition_filter,
                manifest.entries@,
                found@,
            ),
            Err(error) => one_cannot_pass(
                plan,
                manifest_file,
                partition_filter,
                manifest.entries@,
                error,
            ),
        },
        partition_filter is None ==> outcome is Ok,
{
    match outcome {
        Ok(found) => {
            lemma_entries_outcome(
                plan,
                manifest_file,
                partition_filter,
                manifest.entries@,
                Ok(found@),
            );
        },
        Err(error) => {
            lemma_entries_outcome(
                plan,
                manifest_file,
                partition_filter,
                manifest.entries@,
                Err(error),
            );
        },
    }
}

proof fn lemma_entries_outcome<E: ScanServices>(
    plan: PlanContext<E>,
    manifest_file: ManifestFile,
    partition_filter: Option<Arc<E::BoundPredicate>>,
    entries: Seq<Arc<ManifestEntry>>,
    outcome: Result<Seq<bool>, Error>,
)
    requires
        plan.entries_outcome(manifest_file, partition_filter, entries, outcome),
    ensures
        match outcome {
            Ok(found) => all_can_pass(plan, manifest_file, partition_filter, entries, found),
            Err(error) => one_cannot_pass(plan, manifest_file, partition_filter, entries, error),
        },
{
    match outcome {
        Ok(found) => {
            assert forall|i: int|
                #![trigger entries[i]]
                #![trigger found[i]]
                0 <= i < found.len() implies can_pass(
                plan,
                manifest_file,
                partition_filter,
                entries[i],
                Ok(found[i]),
            ) by {
                assert(plan.entry_outcome(
                    manifest_file,
                    partition_filter,
                    entries[i],
                    Ok(found[i]),
                ));
            }
        },
        Err(error) => {
            let (n, before) = choose|n: int, before: Seq<bool>|
                {
                    &&& 0 <= n < entries.len()
                    &&& #[trigger] plan.entries_before(
                        manifest_file,
                        partition_filter,
                        entries,
                        n,
                        before,
                    )
                    &&& plan.entry_outcome(
                        manifest_file,
                        partition_filter,
                        entries[n],
                        Err(error),
                    )
                };
            let tested = entries.take(n);
            assert forall|i: int|
                #![trigger tested[i]]
                #![trigger before[i]]
                0 <= i < before.len() implies can_pass(
                plan,
                manifest_file,
                partition_filter,
                tested[i],
                Ok(before[i]),
            ) by {
                assert(plan.entry_outcome(
                    manifest_file,
                    partition_filter,
                    entries[i],
                    Ok(before[i]),
                ));
            }
            assert(all_can_pass(plan, manifest_file, partition_filter, entries.take(n), before));
        },
    }
}

/// Exactly the entries that passed their tests have a context, in order.
pub proof fn law_passing_entries_have_contexts<E: ScanServices>(
    plan: PlanContext<E>,
    manifest_file: ManifestFile,
    manifest: Manifest,
    found: Vec<bool>,
    contexts: Vec<DeleteFileContext<E>>,
)
    requires
        call_ensures(
            PlanContext::<E>::arrange_delete_file_contexts,
            (&plan, &manifest_file, &manifest, &found),
            contexts,
        ),
    ensures
        picks(
            manifest.entries@.zip_with(found@),
            |e: (Arc<ManifestEntry>, bool)| e.1,
            found_with(plan, manifest_file),
            contexts@,
        ),
{
    assert(passed() =~= (|e: (Arc<ManifestEntry>, bool)| e.1));
    assert(plan.delete_file_context(manifest_file) =~= found_with(plan, manifest_file));
    lemma_filter_map_picks(
        manifest.entries@.zip_with(found@),
        passed(),
        found_with(plan, manifest_file),
    );
}

/// Delete files are looked for in all delete manifests of the list, in order, or in none where the
/// scan is incremental.
pub proof fn law_delete_files_are_looked_for_in_delete_manifests<'a, E: ScanServices>(
    plan: &'a PlanContext<E>,
    manifest_list: ManifestList,
    run: DeleteFileRun<'a, E>,
)
    requires
        call_ensures(
            PlanContext::<E>::load_delete_file_contexts_for_streams,
            (plan, &manifest_list),
            run,
        ),
    ensures
        run.wf(),
        run.plan() == *plan,
        run.matches().len() == 0,
        run.reads().len() == 0,
        run.awaits() is None,
        plan.to_snapshot_id is Some ==> run.manifest_files() == Seq::<ManifestFile>::empty(),
        plan.to_snapshot_id is None ==> are_of_kind(
            manifest_list.entries@,
            ManifestContentType::Deletes,
            run.manifest_files(),
        ),
{
    lemma_of_kind(manifest_list.entries@, ManifestContentType::Deletes);
}

/// The search goes on to the next manifest that is not excluded, and asks for that. It ends when
/// none is left, and fails where the test of a manifest does. What was read before stays.
pub proof fn law_the_search_goes_through_the_manifests<'a, E: ScanServices>(
    run: &mut DeleteFileRun<'a, E>,
    action: Result<DeleteFileAction, Error>,
)
    requires
        call_ensures(DeleteFileRun::<'a, E>::next_action, (run,), action),
    ensures
        final(run).wf(),
        final(run).plan() == old(run).plan(),
        final(run).manifest_files() == old(run).manifest_files(),
        final(run).reads() == old(run).reads(),
        old(run).matches().is_prefix_of(final(run).matches()),
        final(run).matches().len() <= final(run).manifest_files().len(),
        all_come_out(
            final(run).plan(),
            final(run).manifest_files().take(final(run).matches().len() as int),
            final(run).matches(),
        ),
        forall|i: int|
            old(run).matches().len() <= i < final(run).matches().len() && !(
            #[trigger] final(run).matches()[i] is Excluded) ==> i == final(run).matches().len() - 1
                && (action matches Ok(DeleteFileAction::LoadManifest(_))),
        match action {
            Ok(DeleteFileAction::LoadManifest(manifest_file)) => {
                let last = final(run).matches().len() - 1;
                &&& old(run).matches().len() <= last < final(run).manifest_files().len()
                &&& manifest_file == final(run).manifest_files()[last]
                &&& !(final(run).matches()[last] is Excluded)
                &&& final(run).awaits() matches Some((awaited, filter)) && awaited == manifest_file
                    && filter == (if final(run).matches()[last] is Filtered {
                    Some(final(run).matches()[last]->Filtered_0)
                } else {
                    None
                })
            },
            Ok(DeleteFileAction::Finish) => {
                &&& final(run).awaits() is None
                &&& final(run).matches().len() == final(run).manifest_files().len()
            },
            Err(error) => {
                &&& final(run).awaits() is None
                &&& final(run).matches().len() < final(run).manifest_files().len()
                &&& can_come_out(
                    final(run).plan(),
                    final(run).manifest_files()[final(run).matches().len() as int],
                    Err(error),
                )
            },
        },
        old(run).plan().predicate is None ==> action is Ok,
{
    let plan = final(run).plan();
    let n = final(run).matches().len() as int;
    let matches = final(run).matches();
    let tested = final(run).manifest_files().take(n);
    assert forall|i: int|
        #![trigger tested[i]]
        #![trigger matches[i]]
        0 <= i < matches.len() implies can_come_out(plan, tested[i], Ok(matches[i])) by {
        assert(plan.match_outcome(final(run).manifest_files()[i], Ok(matches[i])));
        lemma_match_outcome(plan, final(run).manifest_files()[i], Ok(matches[i]));
    }
    if let Err(error) = action {
        lemma_match_outcome(plan, final(run).manifest_files()[n], Err(error));
    }
}

/// A manifest that is handed in is read whole: all its entries, with what their tests came to. If a
/// test fails, nothing changes.
pub proof fn law_delete_manifests_are_read_whole<'a, E: ScanServices>(
    run: &mut DeleteFileRun<'a, E>,
    manifest: Manifest,
    outcome: Result<(), Error>,
)
    requires
        call_ensures(DeleteFileRun::<'a, E>::manifest_loaded, (run, &manifest), outcome),
        old(run).awaits() is Some,
    ensures
        final(run).wf(),
        final(run).plan() == old(run).plan(),
        final(run).manifest_files() == old(run).manifest_files(),
        final(run).matches() == old(run).matches(),
        old(run).awaits() matches Some((manifest_file, partition_filter)) && match outcome {
            Ok(_) => {
                &&& final(run).awaits() is None
                &&& final(run).reads().len() == old(run).reads().len() + 1
                &&& final(run).reads().drop_last() == old(run).reads()
                &&& final(run).reads().last().manifest_file == manifest_file
                &&& final(run).reads().last().partition_filter == partition_filter
                &&& final(run).reads().last().entries == manifest.entries@
                &&& all_can_pass(
                    old(run).plan(),
                    manifest_file,
                    partition_filter,
                    manifest.entries@,
                    final(run).reads().last().found,
                )
            },
            Err(error) => {
                &&& *final(run) == *old(run)
                &&& one_cannot_pass(
                    old(run).plan(),
                    manifest_file,
                    partition_filter,
                    manifest.entries@,
                    error,
                )
            },
        },
{
    let (manifest_file, partition_filter) = old(run).awaits()->0;
    match outcome {
        Ok(_) => {
            let found = choose|found: Seq<bool>|
                {
                    &&& #[trigger] old(run).plan().entries_outcome(
                        manifest_file,
                        partition_filter,
                        manifest.entries@,
                        Ok(found),
                    )
                    &&& final(run).reads() == old(run).reads().push(
                        DeleteManifestRead {
                            manifest_file,
                            partition_filter,
                            entries: manifest.entries@,
                            found,
                        },
                    )
                };
            lemma_entries_outcome(
                old(run).plan(),
                manifest_file,
                partition_filter,
                manifest.entries@,
                Ok(found),
            );
            assert(final(run).reads().drop_last() =~= old(run).reads());
        },
        Err(error) => {
            lemma_entries_outcome(
                old(run).plan(),
                manifest_file,
                partition_filter,
                manifest.entries@,
                Err(error),
            );
        },
    }
}

/// The contexts of the entries that passed, manifest by manifest.
pub open spec fn found_in<E: ScanServices>(
    plan: PlanContext<E>,
    reads: Seq<DeleteManifestRead<E::BoundPredicate>>,
) -> Seq<DeleteFileContext<E>>
    decreases reads.len(),
{
    if reads.len() == 0 {
        Seq::empty()
    } else {
        let read = reads.last();
        found_in(plan, reads.drop_last()) + read.entries.zip_with(read.found).filter(
            |e: (Arc<ManifestEntry>, bool)| e.1,
        ).map_values(found_with(plan, read.manifest_file))
    }
}

proof fn lemma_found_in<E: ScanServices>(
    plan: PlanContext<E>,
    reads: Seq<DeleteManifestRead<E::BoundPredicate>>,
)
    ensures
        plan.contexts_of_reads(reads) == found_in(plan, reads),
    decreases reads.len(),
{
    let of_read = |read: DeleteManifestRead<E::BoundPredicate>|
        plan.delete_file_contexts(read.manifest_file, read.entries, read.found);
    if reads.len() == 0 {
        assert(reads =~= Seq::empty());
        assert(plan.contexts_of_reads(reads) =~= Seq::empty());
    } else {
        let others = reads.drop_last();
        let read = reads.last();
        lemma_found_in(plan, others);
        assert(reads =~= others.push(read));
        others.lemma_flat_map_push(of_read, read);
        assert(passed() =~= (|e: (Arc<ManifestEntry>, bool)| e.1));
        assert(plan.delete_file_context(read.manifest_file) =~= found_with(
            plan,
            read.manifest_file,
        ));
    }
}

/// The search ends with every manifest tested, every manifest that is not excluded read in its turn
/// with its own partition filter, and the contexts of the entries that passed.
pub proof fn law_the_search_finds_what_passed<'a, E: ScanServices>(
    run: DeleteFileRun<'a, E>,
    contexts: Vec<DeleteFileContext<E>>,
)
    requires
        call_ensures(DeleteFileRun::<'a, E>::finish, (run,), contexts),
    ensures
        contexts@ == found_in(run.plan(), run.reads()),
        all_come_out(run.plan(), run.manifest_files(), run.matches()),
        ({
            let tested = run.manifest_files().zip_with(run.matches());
            let keep = wanted(ManifestContentType::Deletes);
            &&& run.reads().len() == count_before(tested, keep, tested.len() as int)
            &&& forall|i: int|
                0 <= i < tested.len() && keep(#[trigger] tested[i]) ==> {
                    let place = count_before(tested, keep, i);
                    &&& 0 <= place < run.reads().len()
                    &&& run.reads()[place].manifest_file == tested[i].0
                    &&& run.reads()[place].partition_filter == (if tested[i].1 is Filtered {
                        Some(tested[i].1->Filtered_0)
                    } else {
                        None
                    })
                    &&& all_can_pass(
                        run.plan(),
                        run.reads()[place].manifest_file,
                        run.reads()[place].partition_filter,
                        run.reads()[place].entries,
                        run.reads()[place].found,
                    )
                }
        }),
{
    let plan = run.plan();
    let tested = run.manifest_files().zip_with(run.matches());
    let keep = wanted::<E::BoundPredicate>(ManifestContentType::Deletes);
    lemma_found_in(plan, run.reads());
    lemma_matches_outcome(plan, run.manifest_files(), Ok(run.matches()));
    assert(admitted::<E::BoundPredicate>(ManifestContentType::Deletes) =~= keep);
    lemma_filter_picks(tested, keep);
    let chosen = tested.filter(keep);
    assert forall|i: int| 0 <= i < tested.len() && keep(#[trigger] tested[i]) implies {
        let place = count_before(tested, keep, i);
        &&& 0 <= place < run.reads().len()
        &&& run.reads()[place].manifest_file == tested[i].0
        &&& run.reads()[place].partition_filter == (if tested[i].1 is Filtered {
            Some(tested[i].1->Filtered_0)
        } else {
            None
        })
        &&& all_can_pass(
            run.plan(),
            run.reads()[place].manifest_file,
            run.reads()[place].partition_filter,
            run.reads()[place].entries,
            run.reads()[place].found,
        )
    } by {
        let place = count_before(tested, keep, i);
        let read = run.reads()[place];
        assert(chosen[place] == tested[i]);
        assert(plan.read_follows(chosen[place], read));
        lemma_entries_outcome(
            plan,
            read.manifest_file,
            read.partition_filter,
            read.entries,
            Ok(read.found),
        );
    }
}

/// An entry that passed its test is found.
proof fn lemma_passing_entry_is_found<E: ScanServices>(
    plan: PlanContext<E>,
    reads: Seq<DeleteManifestRead<E::BoundPredicate>>,
    i: int,
    j: int,
)
    requires
        0 <= i < reads.len(),
        0 <= j < reads[i].entries.len(),
        reads[i].entries.len() == reads[i].found.len(),
        reads[i].found[j],
    ensures
        found_in(plan, reads).contains(
            DeleteFileContext {
                manifest_entry: reads[i].entries[j],
                partition_spec_id: reads[i].manifest_file.partition_spec_id,
                snapshot_schema: plan.snapshot_schema,
                field_ids: plan.field_ids,
            },
        ),
    decreases reads.len(),
{
    let others = reads.drop_last();
    let all = found_in(plan, reads);
    let before = found_in(plan, others);
    let context: DeleteFileContext<E> = DeleteFileContext {
        manifest_entry: reads[i].entries[j],
        partition_spec_id: reads[i].manifest_file.partition_spec_id,
        snapshot_schema: plan.snapshot_schema,
        field_ids: plan.field_ids,
    };
    if i < others.len() {
        lemma_passing_entry_is_found(plan, others, i, j);
        let n = choose|n: int| 0 <= n < before.len() && before[n] == context;
        assert(all[n] == context);
    } else {
        let read = reads.last();
        let keep = |e: (Arc<ManifestEntry>, bool)| e.1;
        let pairs = read.entries.zip_with(read.found);
        lemma_filter_complete(pairs, keep, j);
        let chosen = pairs.filter(keep);
        let k = choose|k: int| 0 <= k < chosen.len() && chosen[k] == pairs[j];
        assert(all[before.len() + k] == context);
    }
}

/// Without a predicate, every delete file of a delete manifest that was not removed is found:
/// position and equality deletes, newly added or there before.
pub proof fn law_without_predicate_no_delete_file_is_missed<'a, E: ScanServices>(
    run: DeleteFileRun<'a, E>,
    contexts: Vec<DeleteFileContext<E>>,
    i: int,
    j: int,
)
    requires
        call_ensures(DeleteFileRun::<'a, E>::finish, (run,), contexts),
        run.plan().predicate is None,
        forall|k: int|
            0 <= k < run.manifest_files().len() ==> (
            #[trigger] run.manifest_files()[k]).content == ManifestContentType::Deletes,
        0 <= i < run.manifest_files().len(),
        0 <= j < run.reads()[i].entries.len(),
        run.reads()[i].entries[j].status != ManifestStatus::Deleted,
        run.reads()[i].entries[j].data_file.content != DataContentType::Data,
    ensures
        run.reads().len() == run.manifest_files().len(),
        run.reads()[i].manifest_file == run.manifest_files()[i],
        contexts@.contains(
            DeleteFileContext {
                manifest_entry: run.reads()[i].entries[j],
                partition_spec_id: run.manifest_files()[i].partition_spec_id,
                snapshot_schema: run.plan().snapshot_schema,
                field_ids: run.plan().field_ids,
            },
        ),
{
    let plan = run.plan();
    let tested = run.manifest_files().zip_with(run.matches());
    let keep = wanted::<E::BoundPredicate>(ManifestContentType::Deletes);
    law_the_search_finds_what_passed(run, contexts);
    assert forall|k: int| 0 <= k < tested.len() implies keep(#[trigger] tested[k])
        && tested[k].1 is Unfiltered by {
        assert(can_come_out(plan, run.manifest_files()[k], Ok(run.matches()[k])));
    }
    lemma_count_all(tested, keep, i);
    lemma_count_all(tested, keep, tested.len() as int);
    assert(keep(tested[i]));
    let read = run.reads()[i];
    assert(can_pass(
        plan,
        read.manifest_file,
        read.partition_filter,
        read.entries[j],
        Ok(read.found[j]),
    ));
    lemma_passing_entry_is_found(plan, run.reads(), i, j);
}

proof fn lemma_count_all<A>(s: Seq<A>, keep: spec_fn(A) -> bool, n: int)
    requires
        0 <= n <= s.len(),
        forall|i: int| 0 <= i < s.len() ==> keep(#[trigger] s[i]),
    ensures
        count_before(s, keep, n) == n,
    decreases n,
{
    if n > 0 {
        lemma_count_all(s, keep, n - 1);
        assert(keep(s[n - 1]));
    }
}

/// Whatever is found is a delete file that was not removed, and was read of one of the manifests.
pub proof fn law_only_delete_files_are_found<'a, E: ScanServices>(
    run: DeleteFileRun<'a, E>,
    contexts: Vec<DeleteFileContext<E>>,
    p: int,
)
    requires
        call_ensures(DeleteFileRun::<'a, E>::finish, (run,), contexts),
        0 <= p < contexts@.len(),
        forall|k: int|
            0 <= k < run.manifest_files().len() ==> (
            #[trigger] run.manifest_files()[k]).content == ManifestContentType::Deletes,
    ensures
        contexts@[p].manifest_entry.status != ManifestStatus::Deleted,
        contexts@[p].manifest_entry.data_file.content != DataContentType::Data,
        contexts@[p].snapshot_schema == run.plan().snapshot_schema,
        contexts@[p].field_ids == run.plan().field_ids,
        exists|i: int|
            {
                &&& 0 <= i < run.reads().len()
                &&& (#[trigger] run.reads()[i]).entries.contains(contexts@[p].manifest_entry)
                &&& run.reads()[i].manifest_file.partition_spec_id
                    == contexts@[p].partition_spec_id
            },
{
    law_the_search_finds_what_passed(run, contexts);
    let reads = run.reads();
    lemma_found_comes_from(run.plan(), reads, p);
    let (i, j) = choose|i: int, j: int|
        {
            &&& 0 <= i < reads.len()
            &&& 0 <= j < reads[i].entries.len()
            &&& j < reads[i].found.len()
            &&& reads[i].found[j]
            &&& found_in(run.plan(), reads)[p] == found_with(
                run.plan(),
                reads[i].manifest_file,
            )((#[trigger] reads[i].entries[j], true))
        };
    let tested = run.manifest_files().zip_with(run.matches());
    let keep = wanted::<E::BoundPredicate>(ManifestContentType::Deletes);
    lemma_count_reaches(tested, keep, tested.len() as int, i);
    let k = choose|k: int|
        0 <= k < tested.len() && keep(#[trigger] tested[k]) && count_before(tested, keep, k) == i;
    assert(keep(tested[k]));
    assert(can_pass(
        run.plan(),
        reads[i].manifest_file,
        reads[i].partition_filter,
        reads[i].entries[j],
        Ok(reads[i].found[j]),
    ));
    assert(reads[i].entries.contains(reads[i].entries[j]));
}

proof fn lemma_found_comes_from<E: ScanServices>(
    plan: PlanContext<E>,
    reads: Seq<DeleteManifestRead<E::BoundPredicate>>,
    p: int,
)
    requires
        0 <= p < found_in(plan, reads).len(),
        forall|i: int|
            0 <= i < reads.len() ==> (#[trigger] reads[i]).found.len() == reads[i].entries.len(),
    ensures
        exists|i: int, j: int|
            {
                &&& 0 <= i < reads.len()
                &&& 0 <= j < reads[i].entries.len()
                &&& j < reads[i].found.len()
                &&& reads[i].found[j]
                &&& found_in(plan, reads)[p] == found_with(plan, reads[i].manifest_file)(
                    (#[trigger] reads[i].entries[j], true),
                )
            },
    decreases reads.len(),
{
    let others = reads.drop_last();
    let before = found_in(plan, others);
    if p < before.len() {
        assert forall|i: int| 0 <= i < others.len() implies (#[trigger] others[i]).found.len()
            == others[i].entries.len() by {
            assert(others[i] == reads[i]);
        }
        lemma_found_comes_from(plan, others, p);
        let (i, j) = choose|i: int, j: int|
            {
                &&& 0 <= i < others.len()
                &&& 0 <= j < others[i].entries.len()
                &&& j < others[i].found.len()
                &&& others[i].found[j]
                &&& found_in(plan, others)[p] == found_with(plan, others[i].manifest_file)(
                    (#[trigger] others[i].entries[j], true),
                )
            };
        assert(reads[i].entries[j] == others[i].entries[j]);
    } else {
        let last = reads.len() - 1;
        let read = reads[last];
        let keep = |e: (Arc<ManifestEntry>, bool)| e.1;
        let pairs = read.entries.zip_with(read.found);
        let chosen = pairs.filter(keep);
        let k = p - before.len();
        assert(chosen.contains(chosen[k]));
        lemma_filter_sound(pairs, keep, chosen[k]);
        let j = choose|j: int| 0 <= j < pairs.len() && pairs[j] == chosen[k];
        assert(reads[last].entries[j] == chosen[k].0);
    }
}

/// Every plan, list, manifest and entry is accepted, and a search goes on whenever it does not wait
/// for a manifest, and accepts the one that it waits for.
pub proof fn law_every_search_can_be_made<'a, E: ScanServices>(
    plan: &'a PlanContext<E>,
    manifest_list: ManifestList,
    manifest_file: ManifestFile,
    partition_filter: Option<Arc<E::BoundPredicate>>,
    entry: Arc<ManifestEntry>,
    manifest: Manifest,
    found: Vec<bool>,
    run: &mut DeleteFileRun<'a, E>,
)
    ensures
        call_requires(
            PlanContext::<E>::load_delete_file_contexts_for_streams,
            (plan, &manifest_list),
        ),
        call_requires(
            PlanContext::<E>::match_delete_entry,
            (plan, &manifest_file, &partition_filter, &entry),
        ),
        call_requires(
            PlanContext::<E>::match_delete_entries,
            (plan, &manifest_file, &partition_filter, &manifest),
        ),
        manifest.entries@.len() == found@.len() ==> call_requires(
            PlanContext::<E>::arrange_delete_file_contexts,
            (plan, &manifest_file, &manifest, &found),
        ),
        old(run).wf() && old(run).awaits() is None ==> call_requires(
            DeleteFileRun::<'a, E>::next_action,
            (run,),
        ),
        old(run).wf() && old(run).awaits() is Some ==> call_requires(
            DeleteFileRun::<'a, E>::manifest_loaded,
            (run, &manifest),
        ),
        old(run).wf() && old(run).awaits() is None && old(run).matches().len()
            == old(run).manifest_files().len() ==> call_requires(
            DeleteFileRun::<'a, E>::finish,
            (*old(run),),
        ),
{
}

} // verus!
