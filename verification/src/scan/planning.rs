//! Making the contexts of a plan.
use vstd::prelude::*;

use crate::error::Error;
use crate::metadata::manifest::{ManifestContentType, ManifestFile};
use crate::scan::context::{
    EntryChannel, ManifestFileContext, ManifestFileContextForStreams, PlanContext,
};
use crate::scan::matching::ManifestMatch;
use crate::scan::selection::{clone_entry_filter, EntryFilter, ManifestSelection};
use crate::scan::services::ScanServices;
use crate::seqs::lemma_filter_map_take_succ;

verus! {

/// The channel that the entries of a manifest go to.
pub open spec fn channel_of(content: ManifestContentType) -> EntryChannel {
    match content {
        ManifestContentType::Deletes => EntryChannel::Deletes,
        ManifestContentType::Data => EntryChannel::Data,
    }
}

/// Whether a manifest is of a kind.
pub open spec fn of_kind(content: ManifestContentType) -> spec_fn(ManifestFile) -> bool {
    |manifest_file: ManifestFile| manifest_file.content == content
}

/// Whether a manifest is of a kind and not excluded.
pub open spec fn admitted<B>(content: ManifestContentType) -> spec_fn(
    (ManifestFile, ManifestMatch<B>),
) -> bool {
    |m: (ManifestFile, ManifestMatch<B>)|
        m.0.content == content && m.1 != ManifestMatch::<B>::Excluded
}

impl<E: ScanServices> PlanContext<E> {
    /// The context that a manifest gets, by what was found of it.
    pub open spec fn context_of(self, entry_filter: Option<EntryFilter>) -> spec_fn(
        (ManifestFile, ManifestMatch<E::BoundPredicate>),
    ) -> ManifestFileContext<E> {
        |m: (ManifestFile, ManifestMatch<E::BoundPredicate>)|
            self.manifest_file_context(
                m.0,
                m.1.partition_filter(),
                channel_of(m.0.content),
                entry_filter,
            )
    }

    /// The context that a manifest gets in a plan without channels, by what was found of it.
    pub open spec fn context_for_streams_of(self, entry_filter: Option<EntryFilter>) -> spec_fn(
        (ManifestFile, ManifestMatch<E::BoundPredicate>),
    ) -> ManifestFileContextForStreams<E> {
        |m: (ManifestFile, ManifestMatch<E::BoundPredicate>)|
            self.manifest_file_context_for_streams(m.0, m.1.partition_filter(), entry_filter)
    }

    /// The contexts of the manifests of a kind that are not excluded, in order.
    pub open spec fn contexts_of_kind(
        self,
        manifest_files: Seq<ManifestFile>,
        matches: Seq<ManifestMatch<E::BoundPredicate>>,
        content: ManifestContentType,
        entry_filter: Option<EntryFilter>,
    ) -> Seq<ManifestFileContext<E>> {
        manifest_files.zip_with(matches).filter(admitted(content)).map_values(
            self.context_of(entry_filter),
        )
    }

    /// The contexts of a plan: those of delete manifests first, those of data manifests after
    /// them.
    pub open spec fn contexts(
        self,
        manifest_files: Seq<ManifestFile>,
        matches: Seq<ManifestMatch<E::BoundPredicate>>,
        entry_filter: Option<EntryFilter>,
    ) -> Seq<ManifestFileContext<E>> {
        self.contexts_of_kind(manifest_files, matches, ManifestContentType::Deletes, entry_filter)
            + self.contexts_of_kind(manifest_files, matches, ManifestContentType::Data, entry_filter)
    }

    /// The contexts of a plan without channels: those of data manifests.
    pub open spec fn contexts_for_streams(
        self,
        manifest_files: Seq<ManifestFile>,
        matches: Seq<ManifestMatch<E::BoundPredicate>>,
        entry_filter: Option<EntryFilter>,
    ) -> Seq<ManifestFileContextForStreams<E>> {
        manifest_files.zip_with(matches).filter(admitted(ManifestContentType::Data)).map_values(
            self.context_for_streams_of(entry_filter),
        )
    }

    /// Whether planning a scan of a selection can have this outcome: the contexts that testing its
    /// manifests comes to, or the error of the first manifest that could not be tested.
    pub open spec fn contexts_outcome(
        self,
        selection: ManifestSelection,
        outcome: Result<Seq<ManifestFileContext<E>>, Error>,
    ) -> bool {
        let manifest_files = selection.manifest_files@;
        match outcome {
            Ok(contexts) => exists|matches: Seq<ManifestMatch<E::BoundPredicate>>|
                {
                    &&& #[trigger] self.matches_outcome(manifest_files, Ok(matches))
                    &&& contexts == self.contexts(manifest_files, matches, selection.entry_filter)
                },
            Err(error) => self.matches_outcome(manifest_files, Err(error)),
        }
    }

    /// Whether planning a scan of a selection without channels can have this outcome: the contexts
    /// that testing its data manifests comes to, or the error of the first of them that could not
    /// be tested.
    pub open spec fn contexts_for_streams_outcome(
        self,
        selection: ManifestSelection,
        outcome: Result<Seq<ManifestFileContextForStreams<E>>, Error>,
    ) -> bool {
        let data_manifests = selection.manifest_files@.filter(of_kind(ManifestContentType::Data));
        match outcome {
            Ok(contexts) => exists|matches: Seq<ManifestMatch<E::BoundPredicate>>|
                {
                    &&& #[trigger] self.matches_outcome(data_manifests, Ok(matches))
                    &&& contexts == self.contexts_for_streams(
                        data_manifests,
                        matches,
                        selection.entry_filter,
                    )
                },
            Err(error) => self.matches_outcome(data_manifests, Err(error)),
        }
    }

    /// Makes the contexts of manifests from what was found of them. Delete manifests come first.
    pub fn arrange_manifest_file_contexts(
        &self,
        manifest_files: &Vec<ManifestFile>,
        matches: &Vec<ManifestMatch<E::BoundPredicate>>,
        entry_filter: &Option<EntryFilter>,
    ) -> (contexts: Vec<ManifestFileContext<E>>)
        requires
            manifest_files.len() == matches.len(),
        ensures
            contexts@ == self.contexts(manifest_files@, matches@, *entry_filter),
    {
        let ghost pairs = manifest_files@.zip_with(matches@);
        let ghost is_delete = admitted::<E::BoundPredicate>(ManifestContentType::Deletes);
        let ghost is_data = admitted::<E::BoundPredicate>(ManifestContentType::Data);
        let ghost context_of = self.context_of(*entry_filter);
        let mut deletes: Vec<ManifestFileContext<E>> = Vec::new();
        let mut data: Vec<ManifestFileContext<E>> = Vec::new();
        let mut i: usize = 0;
        proof {
            reveal(Seq::filter);
        }
        while i < manifest_files.len()
            invariant
                i <= manifest_files.len(),
                manifest_files.len() == matches.len(),
                pairs == manifest_files@.zip_with(matches@),
                is_delete == admitted::<E::BoundPredicate>(ManifestContentType::Deletes),
                is_data == admitted::<E::BoundPredicate>(ManifestContentType::Data),
                context_of == self.context_of(*entry_filter),
                deletes@ == pairs.take(i as int).filter(is_delete).map_values(context_of),
                data@ == pairs.take(i as int).filter(is_data).map_values(context_of),
            decreases manifest_files.len() - i,
        {
            let manifest_file = &manifest_files[i];
            proof {
                assert(pairs[i as int] == (manifest_files[i as int], matches[i as int]));
                lemma_filter_map_take_succ(pairs, i as int, is_delete, context_of);
                lemma_filter_map_take_succ(pairs, i as int, is_data, context_of);
            }
            if let Some(partition_filter) = matches[i].unless_excluded() {
                match manifest_file.content {
                    ManifestContentType::Deletes => {
                        let context = self.create_manifest_file_context(
                            manifest_file,
                            partition_filter,
                            EntryChannel::Deletes,
                            clone_entry_filter(entry_filter),
                        );
                        deletes.push(context);
                    },
                    ManifestContentType::Data => {
                        let context = self.create_manifest_file_context(
                            manifest_file,
                            partition_filter,
                            EntryChannel::Data,
                            clone_entry_filter(entry_filter),
                        );
                        data.push(context);
                    },
                }
            }
            i += 1;
        }
        assert(pairs.take(i as int) =~= pairs);
        deletes.append(&mut data);
        deletes
    }

    /// Makes the contexts of a plan without channels from what was found of manifests. Delete
    /// manifests get none.
    pub fn arrange_manifest_file_contexts_for_streams(
        &self,
        manifest_files: &Vec<ManifestFile>,
        matches: &Vec<ManifestMatch<E::BoundPredicate>>,
        entry_filter: &Option<EntryFilter>,
    ) -> (contexts: Vec<ManifestFileContextForStreams<E>>)
        requires
            manifest_files.len() == matches.len(),
        ensures
            contexts@ == self.contexts_for_streams(manifest_files@, matches@, *entry_filter),
    {
        let ghost pairs = manifest_files@.zip_with(matches@);
        let ghost is_data = admitted::<E::BoundPredicate>(ManifestContentType::Data);
        let ghost context_of = self.context_for_streams_of(*entry_filter);
        let mut contexts: Vec<ManifestFileContextForStreams<E>> = Vec::new();
        let mut i: usize = 0;
        proof {
            reveal(Seq::filter);
        }
        while i < manifest_files.len()
            invariant
                i <= manifest_files.len(),
                manifest_files.len() == matches.len(),
                pairs == manifest_files@.zip_with(matches@),
                is_data == admitted::<E::BoundPredicate>(ManifestContentType::Data),
                context_of == self.context_for_streams_of(*entry_filter),
                contexts@ == pairs.take(i as int).filter(is_data).map_values(context_of),
            decreases manifest_files.len() - i,
        {
            let manifest_file = &manifest_files[i];
            proof {
                assert(pairs[i as int] == (manifest_files[i as int], matches[i as int]));
                lemma_filter_map_take_succ(pairs, i as int, is_data, context_of);
            }
            if let Some(partition_filter) = matches[i].unless_excluded() {
                if manifest_file.content == ManifestContentType::Data {
                    let context = self.create_manifest_file_context_for_streams(
                        manifest_file,
                        partition_filter,
                        clone_entry_filter(entry_filter),
                    );
                    contexts.push(context);
                }
            }
            i += 1;
        }
        assert(pairs.take(i as int) =~= pairs);
        contexts
    }

    /// The contexts of the manifests that a scan considers, without those that cannot list a
    /// matching file. Delete manifests come first, so that the index of delete files fills before
    /// data files need it.
    ///
    /// Fails with the error of the first manifest that could not be tested.
    pub fn build_manifest_file_contexts(&self, selection: &ManifestSelection) -> (contexts: Result<
        Vec<ManifestFileContext<E>>,
        Error,
    >)
        ensures
            match contexts {
                Ok(contexts) => self.contexts_outcome(*selection, Ok(contexts@)),
                Err(error) => self.contexts_outcome(*selection, Err(error)),
            },
            self.predicate is None ==> contexts is Ok,
    {
        match self.match_manifests(&selection.manifest_files) {
            Err(error) => Err(error),
            Ok(matches) => Ok(
                self.arrange_manifest_file_contexts(
                    &selection.manifest_files,
                    &matches,
                    &selection.entry_filter,
                ),
            ),
        }
    }

    /// The contexts of the data manifests that a scan considers, without those that cannot list a
    /// matching file. Delete manifests are not even tested: their files are in the index of delete
    /// files already.
    ///
    /// Fails with the error of the first data manifest that could not be tested. That it succeeds
    /// where [`PlanContext::build_manifest_file_contexts`] does rests on services that answer alike
    /// each time; without a predicate, both always succeed.
    pub fn build_manifest_file_contexts_for_streams(&self, selection: &ManifestSelection) -> (contexts:
        Result<Vec<ManifestFileContextForStreams<E>>, Error>)
        ensures
            match contexts {
                Ok(contexts) => self.contexts_for_streams_outcome(*selection, Ok(contexts@)),
                Err(error) => self.contexts_for_streams_outcome(*selection, Err(error)),
            },
            self.predicate is None ==> contexts is Ok,
    {
        let data_manifests = manifests_of_kind(
            &selection.manifest_files,
            ManifestContentType::Data,
        );
        match self.match_manifests(&data_manifests) {
            Err(error) => Err(error),
            Ok(matches) => Ok(
                self.arrange_manifest_file_contexts_for_streams(
                    &data_manifests,
                    &matches,
                    &selection.entry_filter,
                ),
            ),
        }
    }
}

/// The manifests of a kind, in order.
pub fn manifests_of_kind(
    manifest_files: &Vec<ManifestFile>,
    content: ManifestContentType,
) -> (chosen: Vec<ManifestFile>)
    ensures
        chosen@ == manifest_files@.filter(of_kind(content)),
{
    let mut chosen: Vec<ManifestFile> = Vec::new();
    let mut i: usize = 0;
    proof {
        reveal(Seq::filter);
    }
    while i < manifest_files.len()
        invariant
            i <= manifest_files.len(),
            chosen@ == manifest_files@.take(i as int).filter(of_kind(content)),
        decreases manifest_files.len() - i,
    {
        proof {
            lemma_filter_map_take_succ(
                manifest_files@,
                i as int,
                of_kind(content),
                |m: ManifestFile| m,
            );
        }
        if manifest_files[i].content == content {
            chosen.push(manifest_files[i].clone());
        }
        i += 1;
    }
    assert(manifest_files@.take(i as int) =~= manifest_files@);
    chosen
}

} // verus!
