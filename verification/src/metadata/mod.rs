//! Table metadata: data files, the manifests that list them, and the snapshots that own manifests.
pub mod data_file;
pub mod guarantees;
pub mod manifest;
pub mod schema;
pub mod snapshot;
