//! Changes to a table.
pub mod delete_entries;
pub mod existing_manifests;
pub mod guarantees;
pub mod laws;
pub mod manifest_guarantees;
pub mod operation;
pub mod properties;
pub mod removed_paths;
pub mod rewrite_files;
