//! Data files and delete files, as a manifest describes them.
use std::sync::Arc;
use vstd::prelude::*;

verus! {

/// What a file holds.
#[derive(Clone, Copy, PartialEq, Eq, Structural, Debug)]
pub enum DataContentType {
    /// Rows of the table.
    Data,
    /// Deletes that name a file and a position in it.
    PositionDeletes,
    /// Deletes that name the values of some columns.
    EqualityDeletes,
}

/// The format a file is written in.
#[derive(Clone, Copy, PartialEq, Eq, Structural, Debug)]
pub enum DataFileFormat {
    Avro,
    Orc,
    Parquet,
    Puffin,
}

/// A partition tuple: one value for each partition field, in its binary single-value form, or
/// `None` for null.
#[derive(PartialEq, Eq, Debug)]
pub struct Struct {
    pub fields: Vec<Option<Vec<u8>>>,
}

/// Statistics of the columns of a file, keyed by field id.
#[derive(PartialEq, Eq, Debug)]
pub struct FileMetrics {
    pub column_sizes: Vec<(i32, u64)>,
    pub value_counts: Vec<(i32, u64)>,
    pub null_value_counts: Vec<(i32, u64)>,
    pub nan_value_counts: Vec<(i32, u64)>,
    pub lower_bounds: Vec<(i32, Vec<u8>)>,
    pub upper_bounds: Vec<(i32, Vec<u8>)>,
    pub split_offsets: Vec<i64>,
}

/// A data file or delete file of a table.
#[derive(PartialEq, Eq, Debug)]
pub struct DataFile {
    pub content: DataContentType,
    pub file_path: String,
    pub file_format: DataFileFormat,
    pub partition: Arc<Struct>,
    pub record_count: u64,
    pub file_size_in_bytes: u64,
    pub metrics: Arc<FileMetrics>,
    pub key_metadata: Option<Arc<Vec<u8>>>,
    pub equality_ids: Option<Arc<Vec<i32>>>,
    pub sort_order_id: Option<i32>,
    pub partition_spec_id: i32,
}

impl DataFile {
    /// What the file holds.
    pub fn content_type(&self) -> (content: DataContentType)
        ensures
            content == self.content,
    {
        self.content
    }

    /// The full path of the file.
    pub fn file_path(&self) -> (path: &str)
        ensures
            path@ == self.file_path@,
    {
        self.file_path.as_str()
    }
}

impl Clone for DataFile {
    fn clone(&self) -> (copy: Self)
        ensures
            copy == *self,
    {
        DataFile {
            content: self.content,
            file_path: self.file_path.clone(),
            file_format: self.file_format,
            partition: self.partition.clone(),
            record_count: self.record_count,
            file_size_in_bytes: self.file_size_in_bytes,
            metrics: self.metrics.clone(),
            key_metadata: match &self.key_metadata {
                Some(bytes) => Some(bytes.clone()),
                None => None,
            },
            equality_ids: match &self.equality_ids {
                Some(ids) => Some(ids.clone()),
                None => None,
            },
            sort_order_id: self.sort_order_id,
            partition_spec_id: self.partition_spec_id,
        }
    }
}

} // verus!
