//! What each operation of scan planning promises, said of its inputs and its result alone.
use std::sync::Arc;
use vstd::prelude::*;

use crate::error::{Error, ErrorKind};
use crate::metadata::manifest::{ManifestContentType, ManifestFile};
use crate::scan::context::{
    BoundPredicates, EntryChannel, ManifestFileContext, ManifestFileContextForStreams, PlanContext,
};
use crate::scan::matching::ManifestMatch;
use crate::scan::planning::{admitted, manifests_of_kind, of_kind};
use crate::scan::selection::{EntryFilter, ManifestSelection};
use crate::scan::services::ScanServices;
use crate::seqs::{
    count_before, lemma_filter_map_picks, lemma_filter_picks, lemma_filter_sound,
    lemma_picks_alike, picks,
};

verus! {

/// Whether the services can answer so when asked for the partition filter of a spec: the
/// predicate is bound first, and the filter is derived from what came of that.
pub open spec fn filter_answer<E: ScanServices>(
    plan: PlanContext<E>,
    partition_spec_id: i32,
    answer: Result<Arc<E::BoundPredicate>, Error>,
) -> bool {
    plan.predicate matches Some(predicate) && exists|bound: Result<E::BoundPredicate, Error>|
        {
            &&& #[trigger] call_ensures(
                E::bind,
                (&*plan.services, &*predicate, &plan.snapshot_schema, plan.case_sensitive),
                bound,
            )
            &&& match bound {
                Ok(bound) => call_ensures(
                    E::partition_filter,
                    (
                        &*plan.services,
                        partition_spec_id,
                        &plan.table_metadata,
                        &plan.snapshot_schema,
                        plan.case_sensitive,
                        bound,
                    ),
                    answer,
                ),
                Err(error) => answer == Err::<Arc<E::BoundPredicate>, Error>(error),
            }
        }
}

/// Whether the services can answer so when asked whether a manifest can list a file that passes a
/// partition filter.
pub open spec fn evaluator_answer<E: ScanServices>(
    plan: PlanContext<E>,
    manifest_file: ManifestFile,
    filter: Arc<E::BoundPredicate>,
    answer: Result<bool, Error>,
) -> bool {
    call_ensures(
        E::manifest_matches,
        (&*plan.services, manifest_file.partition_spec_id, &filter, &manifest_file),
        answer,
    )
}

/// Whether a manifest can come out of its test so. Without a predicate it is unfiltered. With one
/// it is excluded only if the evaluator said no, kept with its filter only if the evaluator said
/// yes, and fails only with an error that a service gave.
pub open spec fn can_come_out<E: ScanServices>(
    plan: PlanContext<E>,
    manifest_file: ManifestFile,
    outcome: Result<ManifestMatch<E::BoundPredicate>, Error>,
) -> bool {
    let spec_id = manifest_file.partition_spec_id;
    match outcome {
        Ok(ManifestMatch::Unfiltered) => plan.predicate is None,
        Ok(ManifestMatch::Filtered(filter)) => {
            &&& plan.predicate is Some
            &&& filter_answer(plan, spec_id, Ok(filter))
            &&& evaluator_answer(plan, manifest_file, filter, Ok(true))
        },
        Ok(ManifestMatch::Excluded) => {
            &&& plan.predicate is Some
            &&& exists|filter: Arc<E::BoundPredicate>|
                {
                    &&& filter_answer(plan, spec_id, Ok(filter))
                    &&& #[trigger] evaluator_answer(plan, manifest_file, filter, Ok(false))
                }
        },
        Err(error) => {
            &&& plan.predicate is Some
            &&& {
                ||| filter_answer(plan, spec_id, Err(error))
                ||| exists|filter: Arc<E::BoundPredicate>|
                    {
                        &&& filter_answer(plan, spec_id, Ok(filter))
                        &&& #[trigger] evaluator_answer(plan, manifest_file, filter, Err(error))
                    }
            }
        },
    }
}

/// A partition filter is what the services answer for the partition spec of the manifest. Without
/// a predicate there is none, and that is an error of this library.
pub proof fn law_partition_filters_are_answers<E: ScanServices>(
    plan: PlanContext<E>,
    manifest_file: ManifestFile,
    outcome: Result<Arc<E::BoundPredicate>, Error>,
)
    requires
        call_ensures(PlanContext::<E>::get_partition_filter, (&plan, &manifest_file), outcome),
    ensures
        plan.predicate is Some ==> filter_answer(plan, manifest_file.partition_spec_id, outcome),
        plan.predicate is None ==> {
            &&& outcome matches Err(error)
            &&& error.kind == ErrorKind::Unexpected
            &&& error.message@ == "Expected a predicate but none present"@
        },
{
}

/// The test of a manifest has exactly the outcomes that the answers of the services allow.
pub proof fn lemma_match_outcome<E: ScanServices>(
    plan: PlanContext<E>,
    manifest_file: ManifestFile,
    outcome: Result<ManifestMatch<E::BoundPredicate>, Error>,
)
    ensures
        plan.match_outcome(manifest_file, outcome) <==> can_come_out(plan, manifest_file, outcome),
{
    let spec_id = manifest_file.partition_spec_id;
    if plan.predicate is Some {
        assert forall|filter: Result<Arc<E::BoundPredicate>, Error>|
            #[trigger] plan.partition_filter_outcome(manifest_file, filter) == filter_answer(
                plan,
                spec_id,
                filter,
            ) by {}
        if can_come_out(plan, manifest_file, outcome) {
            match outcome {
                Ok(ManifestMatch::Unfiltered) => {},
                Ok(ManifestMatch::Filtered(filter)) => {
                    assert(plan.partition_filter_outcome(manifest_file, Ok(filter)));
                    assert(evaluator_answer(plan, manifest_file, filter, Ok(true)));
                },
                Ok(ManifestMatch::Excluded) => {
                    let filter = choose|filter: Arc<E::BoundPredicate>|
                        {
                            &&& filter_answer(plan, spec_id, Ok(filter))
                            &&& #[trigger] evaluator_answer(
                                plan,
                                manifest_file,
                                filter,
                                Ok(false),
                            )
                        };
                    assert(plan.partition_filter_outcome(manifest_file, Ok(filter)));
                },
                Err(error) => {
                    if filter_answer(plan, spec_id, Err(error)) {
                        assert(plan.partition_filter_outcome(manifest_file, Err(error)));
                    } else {
                        let filter = choose|filter: Arc<E::BoundPredicate>|
                            {
                                &&& filter_answer(plan, spec_id, Ok(filter))
                                &&& #[trigger] evaluator_answer(
                                    plan,
                                    manifest_file,
                                    filter,
                                    Err(error),
                                )
                            };
                        assert(plan.partition_filter_outcome(manifest_file, Ok(filter)));
                    }
                },
            }
        }
        if plan.match_outcome(manifest_file, outcome) {
            let filter = choose|filter: Result<Arc<E::BoundPredicate>, Error>|
                {
                    &&& #[trigger] plan.partition_filter_outcome(manifest_file, filter)
                    &&& match filter {
                        Err(error) => outcome == Err::<ManifestMatch<E::BoundPredicate>, _>(error),
                        Ok(filter) => exists|found: Result<bool, Error>|
                            {
                                &&& #[trigger] call_ensures(
                                    E::manifest_matches,
                                    (
                                        &*plan.services,
                                        manifest_file.partition_spec_id,
                                        &filter,
                                        &manifest_file,
                                    ),
                                    found,
                                )
                                &&& outcome == match found {
                                    Err(error) => Err(error),
                                    Ok(true) => Ok(ManifestMatch::Filtered(filter)),
                                    Ok(false) => Ok(ManifestMatch::Excluded),
                                }
                            },
                    }
                };
            assert(filter_answer(plan, spec_id, filter));
            if let Ok(filter) = filter {
                let found = choose|found: Result<bool, Error>|
                    {
                        &&& #[trigger] call_ensures(
                            E::manifest_matches,
                            (
                                &*plan.services,
                                manifest_file.partition_spec_id,
                                &filter,
                                &manifest_file,
                            ),
                            found,
                        )
                        &&& outcome == match found {
                            Err(error) => Err(error),
                            Ok(true) => Ok(ManifestMatch::Filtered(filter)),
                            Ok(false) => Ok(ManifestMatch::Excluded),
                        }
                    };
                assert(evaluator_answer(plan, manifest_file, filter, found));
            }
        }
    }
}

/// A manifest is left out only if the evaluator, asked with a partition filter of the manifest,
/// answered that it cannot match, and it is kept only with a filter for which the evaluator
/// answered that it can. Nothing else about the manifest counts.
pub proof fn law_only_the_evaluator_excludes_manifests<E: ScanServices>(
    plan: PlanContext<E>,
    manifest_file: ManifestFile,
    outcome: Result<ManifestMatch<E::BoundPredicate>, Error>,
)
    requires
        call_ensures(PlanContext::<E>::match_manifest, (&plan, &manifest_file), outcome),
    ensures
        can_come_out(plan, manifest_file, outcome),
{
    lemma_match_outcome(plan, manifest_file, outcome);
}

/// A manifest of which the evaluator never says that it cannot match is not excluded, and one of
/// which it never says that it can is not kept.
pub proof fn law_manifests_that_can_match_are_kept<E: ScanServices>(
    plan: PlanContext<E>,
    manifest_file: ManifestFile,
    found: ManifestMatch<E::BoundPredicate>,
)
    requires
        call_ensures(PlanContext::<E>::match_manifest, (&plan, &manifest_file), Ok(found)),
        plan.predicate is Some,
    ensures
        (forall|filter: Arc<E::BoundPredicate>|
            !#[trigger] evaluator_answer(plan, manifest_file, filter, Ok(false))) ==> found
            is Filtered,
        (forall|filter: Arc<E::BoundPredicate>|
            !#[trigger] evaluator_answer(plan, manifest_file, filter, Ok(true))) ==> found
            is Excluded,
{
    lemma_match_outcome(plan, manifest_file, Ok(found));
}

/// Testing manifests tests each of them, in order, up to the first that fails.
pub proof fn law_manifests_are_tested_in_order<E: ScanServices>(
    plan: PlanContext<E>,
    manifest_files: Vec<ManifestFile>,
    outcome: Result<Vec<ManifestMatch<E::BoundPredicate>>, Error>,
)
    requires
        call_ensures(PlanContext::<E>::match_manifests, (&plan, &manifest_files), outcome),
    ensures
        match outcome {
            Ok(matches) => all_come_out(plan, manifest_files@, matches@),
            Err(error) => one_fails(plan, manifest_files@, error),
        },
        plan.predicate is None ==> outcome is Ok,
{
    match outcome {
        Ok(matches) => {
            lemma_matches_outcome(plan, manifest_files@, Ok(matches@));
        },
        Err(error) => {
            lemma_matches_outcome(plan, manifest_files@, Err(error));
        },
    }
}

/// Whether manifests can come out of their tests so.
pub open spec fn all_come_out<E: ScanServices>(
    plan: PlanContext<E>,
    manifest_files: Seq<ManifestFile>,
    matches: Seq<ManifestMatch<E::BoundPredicate>>,
) -> bool {
    &&& matches.len() == manifest_files.len()
    &&& forall|i: int|
        #![trigger manifest_files[i]]
        #![trigger matches[i]]
        0 <= i < matches.len() ==> can_come_out(plan, manifest_files[i], Ok(matches[i]))
}

/// Whether the test of a manifest can fail so after all before it passed.
pub open spec fn one_fails<E: ScanServices>(
    plan: PlanContext<E>,
    manifest_files: Seq<ManifestFile>,
    error: Error,
) -> bool {
    exists|n: int, before: Seq<ManifestMatch<E::BoundPredicate>>|
        {
            &&& 0 <= n < manifest_files.len()
            &&& #[trigger] all_come_out(plan, manifest_files.take(n), before)
            &&& can_come_out(plan, manifest_files[n], Err(error))
        }
}

/// Tests in order come out as the answers of the services allow.
pub proof fn lemma_matches_outcome<E: ScanServices>(
    plan: PlanContext<E>,
    manifest_files: Seq<ManifestFile>,
    outcome: Result<Seq<ManifestMatch<E::BoundPredicate>>, Error>,
)
    requires
        plan.matches_outcome(manifest_files, outcome),
    ensures
        match outcome {
            Ok(matches) => all_come_out(plan, manifest_files, matches),
            Err(error) => one_fails(plan, manifest_files, error),
        },
{
    match outcome {
        Ok(matches) => {
            assert forall|i: int|
                #![trigger manifest_files[i]]
                #![trigger matches[i]]
                0 <= i < matches.len() implies can_come_out(
                plan,
                manifest_files[i],
                Ok(matches[i]),
            ) by {
                lemma_match_outcome(plan, manifest_files[i], Ok(matches[i]));
            }
        },
        Err(error) => {
            let (n, before) = choose|n: int, before: Seq<ManifestMatch<E::BoundPredicate>>|
                {
                    &&& 0 <= n < manifest_files.len()
                    &&& #[trigger] plan.matches_before(manifest_files, n, before)
                    &&& plan.match_outcome(manifest_files[n], Err(error))
                };
            let tested = manifest_files.take(n);
            assert forall|i: int|
                #![trigger tested[i]]
                #![trigger before[i]]
                0 <= i < before.len() implies can_come_out(plan, tested[i], Ok(before[i])) by {
                lemma_match_outcome(plan, manifest_files[i], Ok(before[i]));
            }
            lemma_match_outcome(plan, manifest_files[n], Err(error));
            assert(all_come_out(plan, manifest_files.take(n), before));
        },
    }
}

/// The filter for the files of a manifest is handed out unless the manifest is excluded.
pub proof fn law_excluded_manifests_have_no_filter<B>(
    found: ManifestMatch<B>,
    filter: Option<Option<Arc<B>>>,
)
    requires
        call_ensures(ManifestMatch::<B>::unless_excluded, (&found,), filter),
    ensures
        match found {
            ManifestMatch::Unfiltered => filter == Some(None::<Arc<B>>),
            ManifestMatch::Filtered(own) => filter == Some(Some(own)),
            ManifestMatch::Excluded => filter is None,
        },
{
}

/// The predicates for the files of a manifest: both, if the manifest was filtered and the scan has a
/// predicate that is bound to the schema of the snapshot.
pub open spec fn predicates_for<E: ScanServices>(
    plan: PlanContext<E>,
    found: ManifestMatch<E::BoundPredicate>,
) -> Option<BoundPredicates<E::BoundPredicate>> {
    if found is Filtered && plan.snapshot_bound_predicate is Some {
        Some(
            BoundPredicates {
                partition_bound_predicate: found->Filtered_0,
                snapshot_bound_predicate: plan.snapshot_bound_predicate->0,
            },
        )
    } else {
        None
    }
}

/// The context that a manifest is planned with: its own entries go to the channel for what it
/// lists, and everything else is as the plan has it.
pub open spec fn planned<E: ScanServices>(
    plan: PlanContext<E>,
    entry_filter: Option<EntryFilter>,
) -> spec_fn((ManifestFile, ManifestMatch<E::BoundPredicate>)) -> ManifestFileContext<E> {
    |m: (ManifestFile, ManifestMatch<E::BoundPredicate>)|
        ManifestFileContext {
            manifest_file: m.0,
            channel: if m.0.content == ManifestContentType::Deletes {
                EntryChannel::Deletes
            } else {
                EntryChannel::Data
            },
            field_ids: plan.field_ids,
            bound_predicates: predicates_for(plan, m.1),
            snapshot_schema: plan.snapshot_schema,
            services: plan.services,
            entry_filter,
        }
}

/// The context that a manifest is planned with where there are no channels.
pub open spec fn planned_for_streams<E: ScanServices>(
    plan: PlanContext<E>,
    entry_filter: Option<EntryFilter>,
) -> spec_fn((ManifestFile, ManifestMatch<E::BoundPredicate>)) -> ManifestFileContextForStreams<E> {
    |m: (ManifestFile, ManifestMatch<E::BoundPredicate>)|
        ManifestFileContextForStreams {
            manifest_file: m.0,
            field_ids: plan.field_ids,
            bound_predicates: predicates_for(plan, m.1),
            snapshot_schema: plan.snapshot_schema,
            services: plan.services,
            entry_filter,
        }
}

/// Whether a manifest lists files of a kind and is not excluded.
pub open spec fn wanted<B>(content: ManifestContentType) -> spec_fn(
    (ManifestFile, ManifestMatch<B>),
) -> bool {
    |m: (ManifestFile, ManifestMatch<B>)| m.0.content == content && !(m.1 is Excluded)
}

/// Whether contexts are a plan: those of the delete manifests that are not excluded, in order, and
/// after them those of the data manifests that are not, in order.
pub open spec fn is_plan<E: ScanServices>(
    plan: PlanContext<E>,
    manifest_files: Seq<ManifestFile>,
    matches: Seq<ManifestMatch<E::BoundPredicate>>,
    entry_filter: Option<EntryFilter>,
    contexts: Seq<ManifestFileContext<E>>,
) -> bool {
    let tested = manifest_files.zip_with(matches);
    let deletes = count_before(
        tested,
        wanted(ManifestContentType::Deletes),
        tested.len() as int,
    );
    &&& 0 <= deletes <= contexts.len()
    &&& picks(
        tested,
        wanted(ManifestContentType::Deletes),
        planned(plan, entry_filter),
        contexts.take(deletes),
    )
    &&& picks(
        tested,
        wanted(ManifestContentType::Data),
        planned(plan, entry_filter),
        contexts.skip(deletes),
    )
}

proof fn lemma_contexts_are_a_plan<E: ScanServices>(
    plan: PlanContext<E>,
    manifest_files: Seq<ManifestFile>,
    matches: Seq<ManifestMatch<E::BoundPredicate>>,
    entry_filter: Option<EntryFilter>,
)
    ensures
        is_plan(
            plan,
            manifest_files,
            matches,
            entry_filter,
            plan.contexts(manifest_files, matches, entry_filter),
        ),
{
    let tested = manifest_files.zip_with(matches);
    let make = planned(plan, entry_filter);
    assert(plan.context_of(entry_filter) =~= make);
    assert(admitted::<E::BoundPredicate>(ManifestContentType::Deletes) =~= wanted(
        ManifestContentType::Deletes,
    ));
    assert(admitted::<E::BoundPredicate>(ManifestContentType::Data) =~= wanted(
        ManifestContentType::Data,
    ));
    lemma_filter_map_picks(tested, wanted(ManifestContentType::Deletes), make);
    lemma_filter_map_picks(tested, wanted(ManifestContentType::Data), make);
    let contexts = plan.contexts(manifest_files, matches, entry_filter);
    let deletes = tested.filter(wanted(ManifestContentType::Deletes)).map_values(make);
    let data = tested.filter(wanted(ManifestContentType::Data)).map_values(make);
    assert(contexts =~= deletes + data);
    assert(contexts.take(deletes.len() as int) =~= deletes);
    assert(contexts.skip(deletes.len() as int) =~= data);
}

/// A context holds the manifest, the channel and the filter of entries that it is made with, the
/// fields, the schema and the services of the plan, and both predicates, if there are both.
pub proof fn law_contexts_hold_what_they_are_made_of<E: ScanServices>(
    plan: PlanContext<E>,
    manifest_file: ManifestFile,
    partition_filter: Option<Arc<E::BoundPredicate>>,
    channel: EntryChannel,
    entry_filter: Option<EntryFilter>,
    context: ManifestFileContext<E>,
    stream: ManifestFileContextForStreams<E>,
)
    requires
        call_ensures(
            PlanContext::<E>::create_manifest_file_context,
            (&plan, &manifest_file, partition_filter, channel, entry_filter),
            context,
        ),
        call_ensures(
            PlanContext::<E>::create_manifest_file_context_for_streams,
            (&plan, &manifest_file, partition_filter, entry_filter),
            stream,
        ),
    ensures
        context.channel == channel,
        context.manifest_file == manifest_file,
        stream.manifest_file == manifest_file,
        context.field_ids == plan.field_ids,
        stream.field_ids == plan.field_ids,
        context.snapshot_schema == plan.snapshot_schema,
        stream.snapshot_schema == plan.snapshot_schema,
        context.services == plan.services,
        stream.services == plan.services,
        context.entry_filter == entry_filter,
        stream.entry_filter == entry_filter,
        stream.bound_predicates == context.bound_predicates,
        context.bound_predicates is Some <==> partition_filter is Some
            && plan.snapshot_bound_predicate is Some,
        context.bound_predicates matches Some(bound) ==> {
            &&& Some(bound.partition_bound_predicate) == partition_filter
            &&& Some(bound.snapshot_bound_predicate) == plan.snapshot_bound_predicate
        },
{
}

/// From what was found of manifests comes the plan for them.
pub proof fn law_findings_make_the_plan<E: ScanServices>(
    plan: PlanContext<E>,
    manifest_files: Vec<ManifestFile>,
    matches: Vec<ManifestMatch<E::BoundPredicate>>,
    entry_filter: Option<EntryFilter>,
    contexts: Vec<ManifestFileContext<E>>,
    streams: Vec<ManifestFileContextForStreams<E>>,
)
    requires
        call_ensures(
            PlanContext::<E>::arrange_manifest_file_contexts,
            (&plan, &manifest_files, &matches, &entry_filter),
            contexts,
        ),
        call_ensures(
            PlanContext::<E>::arrange_manifest_file_contexts_for_streams,
            (&plan, &manifest_files, &matches, &entry_filter),
            streams,
        ),
    ensures
        is_plan(plan, manifest_files@, matches@, entry_filter, contexts@),
        picks(
            manifest_files@.zip_with(matches@),
            wanted(ManifestContentType::Data),
            planned_for_streams(plan, entry_filter),
            streams@,
        ),
{
    lemma_contexts_are_a_plan(plan, manifest_files@, matches@, entry_filter);
    lemma_streams_are_picked(plan, manifest_files@, matches@, entry_filter);
}

proof fn lemma_streams_are_picked<E: ScanServices>(
    plan: PlanContext<E>,
    manifest_files: Seq<ManifestFile>,
    matches: Seq<ManifestMatch<E::BoundPredicate>>,
    entry_filter: Option<EntryFilter>,
)
    ensures
        picks(
            manifest_files.zip_with(matches),
            wanted(ManifestContentType::Data),
            planned_for_streams(plan, entry_filter),
            plan.contexts_for_streams(manifest_files, matches, entry_filter),
        ),
{
    assert(plan.context_for_streams_of(entry_filter) =~= planned_for_streams(plan, entry_filter));
    assert(admitted::<E::BoundPredicate>(ManifestContentType::Data) =~= wanted(
        ManifestContentType::Data,
    ));
    lemma_filter_map_picks(
        manifest_files.zip_with(matches),
        wanted(ManifestContentType::Data),
        planned_for_streams(plan, entry_filter),
    );
}

/// A plan for a selection is the one for its manifests as their tests came out, and reads of each
/// manifest what the selection says. It fails only where a test did.
pub proof fn law_plans_follow_the_tests<E: ScanServices>(
    plan: PlanContext<E>,
    selection: ManifestSelection,
    outcome: Result<Vec<ManifestFileContext<E>>, Error>,
)
    requires
        call_ensures(PlanContext::<E>::build_manifest_file_contexts, (&plan, &selection), outcome),
    ensures
        match outcome {
            Ok(contexts) => exists|matches: Seq<ManifestMatch<E::BoundPredicate>>|
                {
                    &&& #[trigger] all_come_out(plan, selection.manifest_files@, matches)
                    &&& is_plan(
                        plan,
                        selection.manifest_files@,
                        matches,
                        selection.entry_filter,
                        contexts@,
                    )
                },
            Err(error) => one_fails(plan, selection.manifest_files@, error),
        },
        plan.predicate is None ==> outcome is Ok,
{
    match outcome {
        Ok(contexts) => {
            let matches = choose|matches: Seq<ManifestMatch<E::BoundPredicate>>|
                {
                    &&& #[trigger] plan.matches_outcome(selection.manifest_files@, Ok(matches))
                    &&& contexts@ == plan.contexts(
                        selection.manifest_files@,
                        matches,
                        selection.entry_filter,
                    )
                };
            lemma_matches_outcome(plan, selection.manifest_files@, Ok(matches));
            lemma_contexts_are_a_plan(
                plan,
                selection.manifest_files@,
                matches,
                selection.entry_filter,
            );
            assert(all_come_out(plan, selection.manifest_files@, matches));
        },
        Err(error) => {
            lemma_matches_outcome(plan, selection.manifest_files@, Err(error));
        },
    }
}

/// A plan without channels for a selection is the one for its data manifests as their tests came
/// out, in order. It fails only where the test of a data manifest did.
pub proof fn law_plans_for_streams_follow_the_tests<E: ScanServices>(
    plan: PlanContext<E>,
    selection: ManifestSelection,
    outcome: Result<Vec<ManifestFileContextForStreams<E>>, Error>,
)
    requires
        call_ensures(
            PlanContext::<E>::build_manifest_file_contexts_for_streams,
            (&plan, &selection),
            outcome,
        ),
    ensures
        exists|data: Seq<ManifestFile>|
            {
                &&& #[trigger] are_of_kind(
                    selection.manifest_files@,
                    ManifestContentType::Data,
                    data,
                )
                &&& match outcome {
                    Ok(contexts) => exists|matches: Seq<ManifestMatch<E::BoundPredicate>>|
                        {
                            &&& #[trigger] all_come_out(plan, data, matches)
                            &&& picks(
                                data.zip_with(matches),
                                |m: (ManifestFile, ManifestMatch<E::BoundPredicate>)|
                                    !(m.1 is Excluded),
                                planned_for_streams(plan, selection.entry_filter),
                                contexts@,
                            )
                        },
                    Err(error) => one_fails(plan, data, error),
                }
            },
        plan.predicate is None ==> outcome is Ok,
{
    let data = selection.manifest_files@.filter(of_kind(ManifestContentType::Data));
    lemma_of_kind(selection.manifest_files@, ManifestContentType::Data);
    match outcome {
        Ok(contexts) => {
            let matches = choose|matches: Seq<ManifestMatch<E::BoundPredicate>>|
                {
                    &&& #[trigger] plan.matches_outcome(data, Ok(matches))
                    &&& contexts@ == plan.contexts_for_streams(
                        data,
                        matches,
                        selection.entry_filter,
                    )
                };
            lemma_matches_outcome(plan, data, Ok(matches));
            lemma_streams_are_picked(plan, data, matches, selection.entry_filter);
            let tested = data.zip_with(matches);
            assert forall|i: int| 0 <= i < tested.len() implies (
            #[trigger] tested[i]).0.content == ManifestContentType::Data by {
                assert(data.contains(data[i]));
                lemma_filter_sound(
                    selection.manifest_files@,
                    of_kind(ManifestContentType::Data),
                    data[i],
                );
            }
            lemma_picks_alike(
                tested,
                wanted(ManifestContentType::Data),
                |m: (ManifestFile, ManifestMatch<E::BoundPredicate>)| !(m.1 is Excluded),
                planned_for_streams(plan, selection.entry_filter),
                contexts@,
            );
            assert(all_come_out(plan, data, matches));
        },
        Err(error) => {
            lemma_matches_outcome(plan, data, Err(error));
        },
    }
}

/// Whether these are the manifests of a kind, in order.
pub open spec fn are_of_kind(
    manifest_files: Seq<ManifestFile>,
    content: ManifestContentType,
    chosen: Seq<ManifestFile>,
) -> bool {
    picks(
        manifest_files,
        |m: ManifestFile| m.content == content,
        |m: ManifestFile| m,
        chosen,
    )
}

/// Filtering by kind gives the manifests of the kind.
pub proof fn lemma_of_kind(manifest_files: Seq<ManifestFile>, content: ManifestContentType)
    ensures
        are_of_kind(manifest_files, content, manifest_files.filter(of_kind(content))),
{
    assert(of_kind(content) =~= (|m: ManifestFile| m.content == content));
    lemma_filter_picks(manifest_files, of_kind(content));
}

/// The manifests of a kind are all of those manifests, in order.
pub proof fn law_manifests_of_a_kind_are_all_of_them(
    manifest_files: Vec<ManifestFile>,
    content: ManifestContentType,
    chosen: Vec<ManifestFile>,
)
    requires
        call_ensures(manifests_of_kind, (&manifest_files, content), chosen),
    ensures
        are_of_kind(manifest_files@, content, chosen@),
{
    lemma_of_kind(manifest_files@, content);
}

/// A manifest that can match is in the plan: if the evaluator never says of a manifest that it
/// cannot match, or the scan has no predicate, the plan has a context for the manifest. If the scan
/// has a predicate that is bound to the schema of the snapshot, too, the context carries both
/// predicates, and the one for partitions is a filter that the services gave for the manifest.
pub proof fn law_plans_hold_every_manifest_that_can_match<E: ScanServices>(
    plan: PlanContext<E>,
    selection: ManifestSelection,
    contexts: Vec<ManifestFileContext<E>>,
    i: int,
)
    requires
        call_ensures(
            PlanContext::<E>::build_manifest_file_contexts,
            (&plan, &selection),
            Ok(contexts),
        ),
        0 <= i < selection.manifest_files@.len(),
        plan.predicate is None || forall|filter: Arc<E::BoundPredicate>|
            !#[trigger] evaluator_answer(plan, selection.manifest_files@[i], filter, Ok(false)),
    ensures
        exists|p: int|
            {
                &&& 0 <= p < contexts@.len()
                &&& (#[trigger] contexts@[p]).manifest_file == selection.manifest_files@[i]
                &&& contexts@[p].entry_filter == selection.entry_filter
                &&& contexts@[p].bound_predicates is Some <==> plan.predicate is Some
                    && plan.snapshot_bound_predicate is Some
                &&& contexts@[p].bound_predicates matches Some(bound) ==> {
                    &&& filter_answer(
                        plan,
                        selection.manifest_files@[i].partition_spec_id,
                        Ok(bound.partition_bound_predicate),
                    )
                    &&& Some(bound.snapshot_bound_predicate) == plan.snapshot_bound_predicate
                }
            },
{
    let manifest_files = selection.manifest_files@;
    law_plans_follow_the_tests(plan, selection, Ok(contexts));
    let matches = choose|matches: Seq<ManifestMatch<E::BoundPredicate>>|
        {
            &&& #[trigger] all_come_out(plan, manifest_files, matches)
            &&& is_plan(plan, manifest_files, matches, selection.entry_filter, contexts@)
        };
    assert(can_come_out(plan, manifest_files[i], Ok(matches[i])));
    let tested = manifest_files.zip_with(matches);
    let kind = manifest_files[i].content;
    let deletes = count_before(
        tested,
        wanted(ManifestContentType::Deletes),
        tested.len() as int,
    );
    assert(tested[i] == (manifest_files[i], matches[i]));
    assert(wanted(kind)(tested[i]));
    let place = count_before(tested, wanted(kind), i);
    if kind == ManifestContentType::Deletes {
        assert(contexts@.take(deletes)[place] == contexts@[place]);
    } else {
        assert(contexts@.skip(deletes)[place] == contexts@[deletes + place]);
    }
}

/// A manifest that is not in the plan cannot match: every manifest of the selection has a context,
/// or the evaluator answered that it cannot match with a filter that the services gave for it.
pub proof fn law_manifests_outside_the_plan_cannot_match<E: ScanServices>(
    plan: PlanContext<E>,
    selection: ManifestSelection,
    contexts: Vec<ManifestFileContext<E>>,
    i: int,
)
    requires
        call_ensures(
            PlanContext::<E>::build_manifest_file_contexts,
            (&plan, &selection),
            Ok(contexts),
        ),
        0 <= i < selection.manifest_files@.len(),
        forall|p: int|
            0 <= p < contexts@.len() ==> (#[trigger] contexts@[p]).manifest_file
                != selection.manifest_files@[i],
    ensures
        exists|filter: Arc<E::BoundPredicate>|
            {
                &&& filter_answer(
                    plan,
                    selection.manifest_files@[i].partition_spec_id,
                    Ok(filter),
                )
                &&& #[trigger] evaluator_answer(
                    plan,
                    selection.manifest_files@[i],
                    filter,
                    Ok(false),
                )
            },
{
    let manifest_files = selection.manifest_files@;
    law_plans_follow_the_tests(plan, selection, Ok(contexts));
    let matches = choose|matches: Seq<ManifestMatch<E::BoundPredicate>>|
        {
            &&& #[trigger] all_come_out(plan, manifest_files, matches)
            &&& is_plan(plan, manifest_files, matches, selection.entry_filter, contexts@)
        };
    assert(can_come_out(plan, manifest_files[i], Ok(matches[i])));
    if !(matches[i] is Excluded) {
        let tested = manifest_files.zip_with(matches);
        let kind = manifest_files[i].content;
        let deletes = count_before(
            tested,
            wanted(ManifestContentType::Deletes),
            tested.len() as int,
        );
        assert(tested[i] == (manifest_files[i], matches[i]));
        assert(wanted(kind)(tested[i]));
        let place = count_before(tested, wanted(kind), i);
        if kind == ManifestContentType::Deletes {
            assert(contexts@.take(deletes)[place] == contexts@[place]);
        } else {
            assert(contexts@.skip(deletes)[place] == contexts@[deletes + place]);
        }
    }
}

/// Planning accepts every plan and every selection. What was found of manifests must be found of
/// as many as there are, and nothing else is asked.
pub proof fn law_every_scan_can_be_planned<E: ScanServices>(
    plan: PlanContext<E>,
    manifest_file: ManifestFile,
    manifest_files: Vec<ManifestFile>,
    matches: Vec<ManifestMatch<E::BoundPredicate>>,
    selection: ManifestSelection,
    entry_filter: Option<EntryFilter>,
    partition_filter: Option<Arc<E::BoundPredicate>>,
    channel: EntryChannel,
)
    ensures
        call_requires(PlanContext::<E>::get_partition_filter, (&plan, &manifest_file)),
        call_requires(PlanContext::<E>::match_manifest, (&plan, &manifest_file)),
        call_requires(PlanContext::<E>::match_manifests, (&plan, &manifest_files)),
        call_requires(PlanContext::<E>::build_manifest_file_contexts, (&plan, &selection)),
        call_requires(
            PlanContext::<E>::build_manifest_file_contexts_for_streams,
            (&plan, &selection),
        ),
        call_requires(
            PlanContext::<E>::create_manifest_file_context,
            (&plan, &manifest_file, partition_filter, channel, entry_filter),
        ),
        call_requires(
            PlanContext::<E>::create_manifest_file_context_for_streams,
            (&plan, &manifest_file, partition_filter, entry_filter),
        ),
        manifest_files@.len() == matches@.len() ==> {
            &&& call_requires(
                PlanContext::<E>::arrange_manifest_file_contexts,
                (&plan, &manifest_files, &matches, &entry_filter),
            )
            &&& call_requires(
                PlanContext::<E>::arrange_manifest_file_contexts_for_streams,
                (&plan, &manifest_files, &matches, &entry_filter),
            )
        },
{
}

} // verus!
