//! How the columns of files relate to the columns of a table.
use vstd::prelude::*;

verus! {

/// One field of a partition spec.
#[derive(PartialEq, Eq, Debug)]
pub struct PartitionField {
    pub source_id: i32,
    pub field_id: i32,
    pub name: String,
}

/// How rows are grouped into partitions.
#[derive(PartialEq, Eq, Debug)]
pub struct PartitionSpec {
    pub spec_id: i32,
    pub fields: Vec<PartitionField>,
}

/// The names that a column has in files without field ids.
#[derive(PartialEq, Eq, Debug)]
pub struct MappedField {
    pub field_id: Option<i32>,
    pub names: Vec<String>,
}

/// Names of columns, for files without field ids.
#[derive(PartialEq, Eq, Debug)]
pub struct NameMapping {
    pub fields: Vec<MappedField>,
}

} // verus!
