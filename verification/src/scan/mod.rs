//! Planning of table scans.
pub mod context;
pub mod delete_guarantees;
pub mod deletes;
pub mod entries;
pub mod guarantees;
pub mod laws;
pub mod matching;
pub mod planning;
pub mod selection;
pub mod selection_guarantees;
pub mod services;
