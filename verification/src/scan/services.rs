//! What scan planning asks of the rest of the system.
use std::sync::Arc;
use vstd::prelude::*;

use crate::error::Error;
use crate::metadata::data_file::DataFile;
use crate::metadata::manifest::ManifestFile;
use crate::metadata::snapshot::Snapshot;

verus! {

/// Predicate evaluation and snapshot history, as scan planning uses them.
///
/// Nothing is promised of what a method returns: an implementation may cache, and may fail. What
/// planning does is stated for every outcome.
pub trait ScanServices: Sized {
    /// Metadata of a table.
    type TableMetadata;

    /// The schema that a scan reads with.
    type Schema;

    /// A predicate as it was written.
    type Predicate;

    /// A predicate whose references are resolved against a schema.
    type BoundPredicate;

    /// Resolves the references of a predicate.
    fn bind(
        &self,
        predicate: &Self::Predicate,
        schema: &Arc<Self::Schema>,
        case_sensitive: bool,
    ) -> Result<Self::BoundPredicate, Error>;

    /// The partition filter that a predicate implies for a partition spec.
    fn partition_filter(
        &self,
        partition_spec_id: i32,
        table_metadata: &Arc<Self::TableMetadata>,
        schema: &Arc<Self::Schema>,
        case_sensitive: bool,
        predicate: Self::BoundPredicate,
    ) -> Result<Arc<Self::BoundPredicate>, Error>;

    /// Whether a manifest can list a file that a partition filter lets through.
    fn manifest_matches(
        &self,
        partition_spec_id: i32,
        partition_filter: &Arc<Self::BoundPredicate>,
        manifest_file: &ManifestFile,
    ) -> Result<bool, Error>;

    /// Whether a partition filter lets a file through.
    fn file_matches(
        &self,
        partition_spec_id: i32,
        partition_filter: &Arc<Self::BoundPredicate>,
        data_file: &DataFile,
    ) -> Result<bool, Error>;

    /// The ancestors of the latest snapshot, from that snapshot on and up to the oldest one, which
    /// is left out. Without an oldest snapshot, all ancestors.
    fn ancestors_between(
        &self,
        table_metadata: &Arc<Self::TableMetadata>,
        latest_snapshot_id: i64,
        oldest_snapshot_id: Option<i64>,
    ) -> Vec<Arc<Snapshot>>;
}

} // verus!
