//! The context of a scan, and the contexts that a plan makes of manifests.
use std::sync::Arc;
use vstd::prelude::*;

use crate::error::{Error, ErrorKind};
use crate::metadata::manifest::ManifestFile;
use crate::metadata::snapshot::Snapshot;
use crate::scan::selection::EntryFilter;
use crate::scan::services::ScanServices;

verus! {

/// The predicates that a file is tested with, bound to the partition and to the snapshot schema.
pub struct BoundPredicates<B> {
    pub partition_bound_predicate: Arc<B>,
    pub snapshot_bound_predicate: Arc<B>,
}

impl<B> Clone for BoundPredicates<B> {
    fn clone(&self) -> (copy: Self)
        ensures
            copy == *self,
    {
        BoundPredicates {
            partition_bound_predicate: self.partition_bound_predicate.clone(),
            snapshot_bound_predicate: self.snapshot_bound_predicate.clone(),
        }
    }
}

/// Where the entries of a manifest are sent.
#[derive(Clone, Copy, PartialEq, Eq, Structural, Debug)]
pub enum EntryChannel {
    /// To the consumer of data files.
    Data,
    /// To the index of delete files.
    Deletes,
}

/// A manifest alongside what is needed to read its entries, for a plan that streams through
/// channels.
pub struct ManifestFileContext<E: ScanServices> {
    pub manifest_file: ManifestFile,
    pub channel: EntryChannel,
    pub field_ids: Arc<Vec<i32>>,
    pub bound_predicates: Option<BoundPredicates<E::BoundPredicate>>,
    pub snapshot_schema: Arc<E::Schema>,
    pub services: Arc<E>,
    /// Which entries are read; all of them where there is none.
    pub entry_filter: Option<EntryFilter>,
}

/// A manifest alongside what is needed to read its entries, for a plan without channels.
pub struct ManifestFileContextForStreams<E: ScanServices> {
    pub manifest_file: ManifestFile,
    pub field_ids: Arc<Vec<i32>>,
    pub bound_predicates: Option<BoundPredicates<E::BoundPredicate>>,
    pub snapshot_schema: Arc<E::Schema>,
    pub services: Arc<E>,
    /// Which entries are read; all of them where there is none.
    pub entry_filter: Option<EntryFilter>,
}

/// A snapshot alongside everything that planning a scan of it needs.
pub struct PlanContext<E: ScanServices> {
    pub snapshot: Arc<Snapshot>,
    pub table_metadata: Arc<E::TableMetadata>,
    pub snapshot_schema: Arc<E::Schema>,
    pub case_sensitive: bool,
    pub predicate: Option<Arc<E::Predicate>>,
    pub snapshot_bound_predicate: Option<Arc<E::BoundPredicate>>,
    pub field_ids: Arc<Vec<i32>>,
    pub services: Arc<E>,
    /// For an incremental scan, the snapshot to start after; `None` for the beginning.
    pub from_snapshot_id: Option<i64>,
    /// For an incremental scan, the snapshot to end with; `None` for a scan of the whole snapshot.
    pub to_snapshot_id: Option<i64>,
}

impl<E: ScanServices> PlanContext<E> {
    /// The message of the error for a partition filter that is asked for without a predicate.
    pub open spec fn missing_predicate() -> Seq<char> {
        "Expected a predicate but none present"@
    }

    /// Whether asking for the partition filter of a manifest can have this outcome: an error
    /// where there is no predicate; else what binding the predicate, and deriving the filter from
    /// the bound predicate, come to.
    pub open spec fn partition_filter_outcome(
        self,
        manifest_file: ManifestFile,
        outcome: Result<Arc<E::BoundPredicate>, Error>,
    ) -> bool {
        match self.predicate {
            None => outcome matches Err(error) && error.says(
                ErrorKind::Unexpected,
                Self::missing_predicate(),
            ),
            Some(predicate) => exists|bound: Result<E::BoundPredicate, Error>|
                {
                    &&& #[trigger] call_ensures(
                        E::bind,
                        (&*self.services, &*predicate, &self.snapshot_schema, self.case_sensitive),
                        bound,
                    )
                    &&& match bound {
                        Err(error) => outcome == Err::<Arc<E::BoundPredicate>, Error>(error),
                        Ok(bound) => call_ensures(
                            E::partition_filter,
                            (
                                &*self.services,
                                manifest_file.partition_spec_id,
                                &self.table_metadata,
                                &self.snapshot_schema,
                                self.case_sensitive,
                                bound,
                            ),
                            outcome,
                        ),
                    }
                },
        }
    }

    /// The partition filter that the predicate of the scan implies for the files of a manifest. Of
    /// the manifest only its partition spec counts. That two calls agree is not promised: it rests on
    /// services that answer alike each time.
    pub fn get_partition_filter(&self, manifest_file: &ManifestFile) -> (outcome: Result<
        Arc<E::BoundPredicate>,
        Error,
    >)
        ensures
            self.partition_filter_outcome(*manifest_file, outcome),
    {
        let partition_spec_id = manifest_file.partition_spec_id;
        match &self.predicate {
            None => Err(Error::new(ErrorKind::Unexpected, "Expected a predicate but none present")),
            Some(predicate) => {
                let bound = self.services.bind(
                    predicate,
                    &self.snapshot_schema,
                    self.case_sensitive,
                );
                match bound {
                    Err(error) => Err(error),
                    Ok(bound) => self.services.partition_filter(
                        partition_spec_id,
                        &self.table_metadata,
                        &self.snapshot_schema,
                        self.case_sensitive,
                        bound,
                    ),
                }
            },
        }
    }

    /// The predicates for the files of a manifest: both, or none where one of them is missing.
    pub open spec fn bound_predicates(
        self,
        partition_filter: Option<Arc<E::BoundPredicate>>,
    ) -> Option<BoundPredicates<E::BoundPredicate>> {
        match (partition_filter, self.snapshot_bound_predicate) {
            (Some(partition_bound_predicate), Some(snapshot_bound_predicate)) => Some(
                BoundPredicates { partition_bound_predicate, snapshot_bound_predicate },
            ),
            _ => None,
        }
    }

    /// The context of a manifest.
    pub open spec fn manifest_file_context(
        self,
        manifest_file: ManifestFile,
        partition_filter: Option<Arc<E::BoundPredicate>>,
        channel: EntryChannel,
        entry_filter: Option<EntryFilter>,
    ) -> ManifestFileContext<E> {
        ManifestFileContext {
            manifest_file,
            channel,
            field_ids: self.field_ids,
            bound_predicates: self.bound_predicates(partition_filter),
            snapshot_schema: self.snapshot_schema,
            services: self.services,
            entry_filter,
        }
    }

    /// The context of a manifest in a plan without channels.
    pub open spec fn manifest_file_context_for_streams(
        self,
        manifest_file: ManifestFile,
        partition_filter: Option<Arc<E::BoundPredicate>>,
        entry_filter: Option<EntryFilter>,
    ) -> ManifestFileContextForStreams<E> {
        ManifestFileContextForStreams {
            manifest_file,
            field_ids: self.field_ids,
            bound_predicates: self.bound_predicates(partition_filter),
            snapshot_schema: self.snapshot_schema,
            services: self.services,
            entry_filter,
        }
    }

    fn make_bound_predicates(&self, partition_filter: Option<Arc<E::BoundPredicate>>) -> (bound:
        Option<BoundPredicates<E::BoundPredicate>>)
        ensures
            bound == self.bound_predicates(partition_filter),
    {
        match (partition_filter, &self.snapshot_bound_predicate) {
            (Some(partition_bound_predicate), Some(snapshot_bound_predicate)) => Some(
                BoundPredicates {
                    partition_bound_predicate,
                    snapshot_bound_predicate: snapshot_bound_predicate.clone(),
                },
            ),
            _ => None,
        }
    }

    /// Makes the context of a manifest.
    pub fn create_manifest_file_context(
        &self,
        manifest_file: &ManifestFile,
        partition_filter: Option<Arc<E::BoundPredicate>>,
        channel: EntryChannel,
        entry_filter: Option<EntryFilter>,
    ) -> (context: ManifestFileContext<E>)
        ensures
            context == self.manifest_file_context(
                *manifest_file,
                partition_filter,
                channel,
                entry_filter,
            ),
    {
        ManifestFileContext {
            manifest_file: manifest_file.clone(),
            channel,
            field_ids: self.field_ids.clone(),
            bound_predicates: self.make_bound_predicates(partition_filter),
            snapshot_schema: self.snapshot_schema.clone(),
            services: self.services.clone(),
            entry_filter,
        }
    }

    /// Makes the context of a manifest in a plan without channels.
    pub fn create_manifest_file_context_for_streams(
        &self,
        manifest_file: &ManifestFile,
        partition_filter: Option<Arc<E::BoundPredicate>>,
        entry_filter: Option<EntryFilter>,
    ) -> (context: ManifestFileContextForStreams<E>)
        ensures
            context == self.manifest_file_context_for_streams(
                *manifest_file,
                partition_filter,
                entry_filter,
            ),
    {
        ManifestFileContextForStreams {
            manifest_file: manifest_file.clone(),
            field_ids: self.field_ids.clone(),
            bound_predicates: self.make_bound_predicates(partition_filter),
            snapshot_schema: self.snapshot_schema.clone(),
            services: self.services.clone(),
            entry_filter,
        }
    }
}

} // verus!
