//! Manifests, the lists of them, and the entries in them.
use std::sync::Arc;
use vstd::prelude::*;

use crate::metadata::data_file::{DataContentType, DataFile};

verus! {

/// What the files of a manifest hold.
#[derive(Clone, Copy, PartialEq, Eq, Structural, Debug)]
pub enum ManifestContentType {
    /// The manifest lists data files.
    Data,
    /// The manifest lists delete files.
    Deletes,
}

/// What a manifest entry says of its file.
#[derive(Clone, Copy, PartialEq, Eq, Structural, Debug)]
pub enum ManifestStatus {
    /// The file was in the table before.
    Existing,
    /// The file was added by the snapshot of the entry.
    Added,
    /// The file was removed by the snapshot of the entry.
    Deleted,
}

/// One line of a manifest: a file and what happened to it.
#[derive(PartialEq, Eq, Debug)]
pub struct ManifestEntry {
    pub status: ManifestStatus,
    pub snapshot_id: Option<i64>,
    pub sequence_number: Option<i64>,
    pub file_sequence_number: Option<i64>,
    pub data_file: Arc<DataFile>,
}

impl ManifestEntry {
    /// Whether the file of the entry is part of the table.
    pub open spec fn alive(self) -> bool {
        self.status != ManifestStatus::Deleted
    }

    /// Whether the file of the entry is part of the table.
    pub fn is_alive(&self) -> (alive: bool)
        ensures
            alive == self.alive(),
    {
        match self.status {
            ManifestStatus::Existing => true,
            ManifestStatus::Added => true,
            ManifestStatus::Deleted => false,
        }
    }

    /// What the file of the entry holds.
    pub fn content_type(&self) -> (content: DataContentType)
        ensures
            content == self.data_file.content,
    {
        self.data_file.content_type()
    }

    /// The full path of the file of the entry.
    pub fn file_path(&self) -> (path: &str)
        ensures
            path@ == self.data_file.file_path@,
    {
        self.data_file.file_path()
    }
}

/// A manifest that was read.
#[derive(PartialEq, Eq, Debug)]
pub struct Manifest {
    pub entries: Vec<Arc<ManifestEntry>>,
}

/// Bounds of one partition field over the files of a manifest.
#[derive(PartialEq, Eq, Debug)]
pub struct FieldSummary {
    pub contains_null: bool,
    pub contains_nan: Option<bool>,
    pub lower_bound: Option<Vec<u8>>,
    pub upper_bound: Option<Vec<u8>>,
}

/// A manifest as a manifest list describes it.
#[derive(PartialEq, Eq, Debug)]
pub struct ManifestFile {
    pub manifest_path: String,
    pub manifest_length: i64,
    pub partition_spec_id: i32,
    pub content: ManifestContentType,
    pub sequence_number: i64,
    pub min_sequence_number: i64,
    pub added_snapshot_id: i64,
    pub added_files_count: Option<u32>,
    pub existing_files_count: Option<u32>,
    pub deleted_files_count: Option<u32>,
    pub added_rows_count: Option<u64>,
    pub existing_rows_count: Option<u64>,
    pub deleted_rows_count: Option<u64>,
    pub partitions: Option<Arc<Vec<FieldSummary>>>,
    pub key_metadata: Option<Arc<Vec<u8>>>,
}

impl Clone for ManifestFile {
    fn clone(&self) -> (copy: Self)
        ensures
            copy == *self,
    {
        ManifestFile {
            manifest_path: self.manifest_path.clone(),
            manifest_length: self.manifest_length,
            partition_spec_id: self.partition_spec_id,
            content: self.content,
            sequence_number: self.sequence_number,
            min_sequence_number: self.min_sequence_number,
            added_snapshot_id: self.added_snapshot_id,
            added_files_count: self.added_files_count,
            existing_files_count: self.existing_files_count,
            deleted_files_count: self.deleted_files_count,
            added_rows_count: self.added_rows_count,
            existing_rows_count: self.existing_rows_count,
            deleted_rows_count: self.deleted_rows_count,
            partitions: match &self.partitions {
                Some(summaries) => Some(summaries.clone()),
                None => None,
            },
            key_metadata: match &self.key_metadata {
                Some(bytes) => Some(bytes.clone()),
                None => None,
            },
        }
    }
}

/// The manifests of one snapshot.
#[derive(PartialEq, Eq, Debug)]
pub struct ManifestList {
    pub entries: Vec<ManifestFile>,
}

} // verus!
