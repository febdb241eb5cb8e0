//! Testing manifests against the predicate of a scan.
use std::sync::Arc;
use vstd::prelude::*;

use crate::error::Error;
use crate::metadata::manifest::ManifestFile;
use crate::scan::context::PlanContext;
use crate::scan::services::ScanServices;

verus! {

/// What the predicate of a scan says of a manifest.
pub enum ManifestMatch<B> {
    /// The scan has no predicate.
    Unfiltered,
    /// The manifest can list matching files; they are found with this partition filter.
    Filtered(Arc<B>),
    /// The manifest cannot list a matching file.
    Excluded,
}

impl<B> ManifestMatch<B> {
    /// The partition filter that the files of the manifest are tested with.
    pub open spec fn partition_filter(self) -> Option<Arc<B>> {
        match self {
            ManifestMatch::Filtered(filter) => Some(filter),
            _ => None,
        }
    }

    /// The partition filter for the files of the manifest, if any, unless the manifest is
    /// excluded.
    pub fn unless_excluded(&self) -> (filter: Option<Option<Arc<B>>>)
        ensures
            filter == if *self == ManifestMatch::<B>::Excluded {
                None
            } else {
                Some(self.partition_filter())
            },
    {
        match self {
            ManifestMatch::Unfiltered => Some(None),
            ManifestMatch::Filtered(filter) => Some(Some(filter.clone())),
            ManifestMatch::Excluded => None,
        }
    }
}

impl<E: ScanServices> PlanContext<E> {
    /// Whether testing a manifest against the predicate of the scan can have this outcome.
    pub open spec fn match_outcome(
        self,
        manifest_file: ManifestFile,
        outcome: Result<ManifestMatch<E::BoundPredicate>, Error>,
    ) -> bool {
        if self.predicate is None {
            outcome == Ok::<_, Error>(ManifestMatch::<E::BoundPredicate>::Unfiltered)
        } else {
            exists|filter: Result<Arc<E::BoundPredicate>, Error>|
                {
                    &&& #[trigger] self.partition_filter_outcome(manifest_file, filter)
                    &&& match filter {
                        Err(error) => outcome == Err::<ManifestMatch<E::BoundPredicate>, _>(error),
                        Ok(filter) => exists|found: Result<bool, Error>|
                            {
                                &&& #[trigger] call_ensures(
                                    E::manifest_matches,
                                    (
                                        &*self.services,
                                        manifest_file.partition_spec_id,
                                        &filter,
                                        &manifest_file,
                                    ),
                                    found,
                                )
                                &&& outcome == match found {
                                    Err(error) => Err(error),
                                    Ok(true) => Ok(ManifestMatch::Filtered(filter)),
                                    Ok(false) => Ok(ManifestMatch::Excluded),
                                }
                            },
                    }
                }
        }
    }

    /// Tests whether a manifest can list files that match the predicate of the scan.
    pub fn match_manifest(&self, manifest_file: &ManifestFile) -> (outcome: Result<
        ManifestMatch<E::BoundPredicate>,
        Error,
    >)
        ensures
            self.match_outcome(*manifest_file, outcome),
    {
        if self.predicate.is_none() {
            return Ok(ManifestMatch::Unfiltered);
        }
        let filter = match self.get_partition_filter(manifest_file) {
            Err(error) => {
                return Err(error);
            },
            Ok(filter) => filter,
        };
        assert(self.partition_filter_outcome(*manifest_file, Ok(filter)));
        let found = self.services.manifest_matches(
            manifest_file.partition_spec_id,
            &filter,
            manifest_file,
        );
        match found {
            Err(error) => Err(error),
            Ok(true) => Ok(ManifestMatch::Filtered(filter)),
            Ok(false) => Ok(ManifestMatch::Excluded),
        }
    }

    /// Whether testing manifests in order can have this outcome: what was found of each of them,
    /// or the error of the first test that failed.
    pub open spec fn matches_outcome(
        self,
        manifest_files: Seq<ManifestFile>,
        outcome: Result<Seq<ManifestMatch<E::BoundPredicate>>, Error>,
    ) -> bool {
        match outcome {
            Ok(matches) => {
                &&& matches.len() == manifest_files.len()
                &&& forall|i: int|
                    0 <= i < manifest_files.len() ==> self.match_outcome(
                        manifest_files[i],
                        Ok(#[trigger] matches[i]),
                    )
            },
            Err(error) => exists|n: int, matches: Seq<ManifestMatch<E::BoundPredicate>>|
                {
                    &&& 0 <= n < manifest_files.len()
                    &&& #[trigger] self.matches_before(manifest_files, n, matches)
                    &&& self.match_outcome(manifest_files[n], Err(error))
                },
        }
    }

    /// Whether testing the first manifests can have found this of each of them.
    pub open spec fn matches_before(
        self,
        manifest_files: Seq<ManifestFile>,
        n: int,
        matches: Seq<ManifestMatch<E::BoundPredicate>>,
    ) -> bool {
        &&& matches.len() == n
        &&& forall|i: int|
            0 <= i < n ==> self.match_outcome(manifest_files[i], Ok(#[trigger] matches[i]))
    }

    /// Tests manifests in order, up to the first test that fails.
    pub fn match_manifests(&self, manifest_files: &Vec<ManifestFile>) -> (outcome: Result<
        Vec<ManifestMatch<E::BoundPredicate>>,
        Error,
    >)
        ensures
            match outcome {
                Ok(matches) => self.matches_outcome(manifest_files@, Ok(matches@)),
                Err(error) => self.matches_outcome(manifest_files@, Err(error)),
            },
            self.predicate is None ==> outcome is Ok,
    {
        let mut matches: Vec<ManifestMatch<E::BoundPredicate>> = Vec::new();
        let mut i: usize = 0;
        while i < manifest_files.len()
            invariant
                i <= manifest_files.len(),
                self.matches_before(manifest_files@, i as int, matches@),
            decreases manifest_files.len() - i,
        {
            match self.match_manifest(&manifest_files[i]) {
                Err(error) => {
                    assert(self.matches_before(manifest_files@, i as int, matches@));
                    return Err(error);
                },
                Ok(found) => {
                    matches.push(found);
                },
            }
            i += 1;
        }
        Ok(matches)
    }
}

} // verus!
