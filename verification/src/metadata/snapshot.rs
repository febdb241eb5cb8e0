//! Snapshots of a table.
use vstd::prelude::*;

verus! {

/// What a snapshot did to the table.
#[derive(Clone, Copy, PartialEq, Eq, Structural, Debug)]
pub enum Operation {
    /// Only added data files.
    Append,
    /// Replaced files by files with the same rows, such as a compaction.
    Replace,
    /// Added and removed rows.
    Overwrite,
    /// Only removed rows.
    Delete,
}

/// The summary that a snapshot carries.
#[derive(PartialEq, Eq, Debug)]
pub struct Summary {
    pub operation: Operation,
}

/// The state of a table at one moment.
#[derive(PartialEq, Eq, Debug)]
pub struct Snapshot {
    pub snapshot_id: i64,
    pub parent_snapshot_id: Option<i64>,
    pub sequence_number: i64,
    pub timestamp_ms: i64,
    pub manifest_list: String,
    pub summary: Summary,
}

} // verus!
