//! From manifests to the entries that a scan reads, and from entries to the tasks that read files.
use std::sync::Arc;
use vstd::prelude::*;

use crate::error::{Error, ErrorKind};
use crate::metadata::data_file::{DataContentType, DataFile, DataFileFormat, Struct};
use crate::metadata::manifest::{Manifest, ManifestEntry};
use crate::metadata::schema::{NameMapping, PartitionSpec};
use crate::scan::context::{BoundPredicates, ManifestFileContext, ManifestFileContextForStreams};
use crate::scan::selection::EntryFilter;
use crate::scan::services::ScanServices;
use crate::seqs::lemma_filter_map_take_succ;

verus! {

/// A manifest entry alongside what is needed to make a task of it.
pub struct ManifestEntryContext<E: ScanServices> {
    pub manifest_entry: Arc<ManifestEntry>,
    pub services: Arc<E>,
    pub field_ids: Arc<Vec<i32>>,
    pub bound_predicates: Option<BoundPredicates<E::BoundPredicate>>,
    pub partition_spec_id: i32,
    pub snapshot_schema: Arc<E::Schema>,
}

/// A file to read, or a part of it, and how to read it. The deletes that apply to the file are of
/// a type that the index of delete files chooses.
pub struct FileScanTask<E: ScanServices, D> {
    pub start: u64,
    pub length: u64,
    pub record_count: Option<u64>,
    pub data_file_path: String,
    pub data_file_content: DataContentType,
    pub data_file_format: DataFileFormat,
    pub schema: Arc<E::Schema>,
    pub project_field_ids: Vec<i32>,
    pub predicate: Option<Arc<E::BoundPredicate>>,
    pub deletes: Vec<D>,
    pub sequence_number: i64,
    pub equality_ids: Option<Vec<i32>>,
    pub file_size_in_bytes: u64,
    pub partition: Option<Arc<Struct>>,
    pub partition_spec: Option<Arc<PartitionSpec>>,
    pub name_mapping: Option<Arc<NameMapping>>,
}

/// Whether an entry is read: without a filter, every entry is.
pub open spec fn is_read(entry_filter: Option<EntryFilter>) -> spec_fn(Arc<ManifestEntry>) -> bool {
    |entry: Arc<ManifestEntry>|
        match entry_filter {
            None => true,
            Some(filter) => filter.admits(*entry),
        }
}

/// The context of an entry of a manifest.
pub open spec fn context_of_entry<E: ScanServices>(
    partition_spec_id: i32,
    services: Arc<E>,
    field_ids: Arc<Vec<i32>>,
    bound_predicates: Option<BoundPredicates<E::BoundPredicate>>,
    snapshot_schema: Arc<E::Schema>,
) -> spec_fn(Arc<ManifestEntry>) -> ManifestEntryContext<E> {
    |manifest_entry: Arc<ManifestEntry>|
        ManifestEntryContext {
            manifest_entry,
            services,
            field_ids,
            bound_predicates,
            partition_spec_id,
            snapshot_schema,
        }
}

impl<E: ScanServices> ManifestFileContext<E> {
    /// The context of an entry of the manifest.
    pub open spec fn entry_context(self) -> spec_fn(Arc<ManifestEntry>) -> ManifestEntryContext<E> {
        context_of_entry(
            self.manifest_file.partition_spec_id,
            self.services,
            self.field_ids,
            self.bound_predicates,
            self.snapshot_schema,
        )
    }

    /// The contexts of the entries that the scan reads of the manifest, in the order in which they
    /// are sent to the channel of the manifest.
    pub fn manifest_entries_to_stream(&self, manifest: &Manifest) -> (contexts: Vec<
        ManifestEntryContext<E>,
    >)
        ensures
            contexts@ == manifest.entries@.filter(is_read(self.entry_filter)).map_values(
                self.entry_context(),
            ),
    {
        collect_entries(
            manifest,
            &self.entry_filter,
            self.manifest_file.partition_spec_id,
            &self.services,
            &self.field_ids,
            &self.bound_predicates,
            &self.snapshot_schema,
        )
    }
}

impl<E: ScanServices> ManifestFileContextForStreams<E> {
    /// The context of an entry of the manifest.
    pub open spec fn entry_context(self) -> spec_fn(Arc<ManifestEntry>) -> ManifestEntryContext<E> {
        context_of_entry(
            self.manifest_file.partition_spec_id,
            self.services,
            self.field_ids,
            self.bound_predicates,
            self.snapshot_schema,
        )
    }

    /// The contexts of the entries that the scan reads of the manifest, in order.
    pub fn manifest_entries_vec(&self, manifest: &Manifest) -> (contexts: Vec<
        ManifestEntryContext<E>,
    >)
        ensures
            contexts@ == manifest.entries@.filter(is_read(self.entry_filter)).map_values(
                self.entry_context(),
            ),
    {
        collect_entries(
            manifest,
            &self.entry_filter,
            self.manifest_file.partition_spec_id,
            &self.services,
            &self.field_ids,
            &self.bound_predicates,
            &self.snapshot_schema,
        )
    }
}

/// The contexts of the entries of a manifest that are read, in order.
fn collect_entries<E: ScanServices>(
    manifest: &Manifest,
    entry_filter: &Option<EntryFilter>,
    partition_spec_id: i32,
    services: &Arc<E>,
    field_ids: &Arc<Vec<i32>>,
    bound_predicates: &Option<BoundPredicates<E::BoundPredicate>>,
    snapshot_schema: &Arc<E::Schema>,
) -> (contexts: Vec<ManifestEntryContext<E>>)
    ensures
        contexts@ == manifest.entries@.filter(is_read(*entry_filter)).map_values(
            context_of_entry(
                partition_spec_id,
                *services,
                *field_ids,
                *bound_predicates,
                *snapshot_schema,
            ),
        ),
{
    let ghost keep = is_read(*entry_filter);
    let ghost make = context_of_entry(
        partition_spec_id,
        *services,
        *field_ids,
        *bound_predicates,
        *snapshot_schema,
    );
    let mut contexts: Vec<ManifestEntryContext<E>> = Vec::new();
    let mut i: usize = 0;
    proof {
        reveal(Seq::filter);
    }
    while i < manifest.entries.len()
        invariant
            i <= manifest.entries.len(),
            keep == is_read(*entry_filter),
            make == context_of_entry(
                partition_spec_id,
                *services,
                *field_ids,
                *bound_predicates,
                *snapshot_schema,
            ),
            contexts@ == manifest.entries@.take(i as int).filter(keep).map_values(make),
        decreases manifest.entries.len() - i,
    {
        proof {
            lemma_filter_map_take_succ(manifest.entries@, i as int, keep, make);
        }
        if reads_entry(entry_filter, &manifest.entries[i]) {
            contexts.push(
                ManifestEntryContext {
                    manifest_entry: manifest.entries[i].clone(),
                    services: services.clone(),
                    field_ids: field_ids.clone(),
                    bound_predicates: clone_bound_predicates(bound_predicates),
                    partition_spec_id,
                    snapshot_schema: snapshot_schema.clone(),
                },
            );
        }
        i += 1;
    }
    assert(manifest.entries@.take(i as int) =~= manifest.entries@);
    contexts
}

impl<E: ScanServices> ManifestEntryContext<E> {
    /// What the index of delete files is asked for: the file of the entry, and its sequence number.
    pub fn delete_lookup(&self) -> (lookup: (Arc<DataFile>, Option<i64>))
        ensures
            lookup == (self.manifest_entry.data_file, self.manifest_entry.sequence_number),
    {
        (self.manifest_entry.data_file.clone(), self.manifest_entry.sequence_number)
    }

    /// Whether a task reads the whole file of the entry, with these deletes.
    pub open spec fn makes_task<D>(self, deletes: Seq<D>, task: FileScanTask<E, D>) -> bool {
        let entry = *self.manifest_entry;
        let file = *entry.data_file;
        &&& task.start == 0
        &&& task.length == file.file_size_in_bytes
        &&& task.record_count == Some(file.record_count)
        &&& task.data_file_path@ == file.file_path@
        &&& task.data_file_content == file.content
        &&& task.data_file_format == file.file_format
        &&& task.schema == self.snapshot_schema
        &&& task.project_field_ids@ == self.field_ids@
        &&& task.predicate == match self.bound_predicates {
            Some(predicates) => Some(predicates.snapshot_bound_predicate),
            None => None,
        }
        &&& task.deletes@ == deletes
        &&& task.sequence_number == match entry.sequence_number {
            Some(number) => number,
            None => 0,
        }
        &&& match (task.equality_ids, file.equality_ids) {
            (Some(ids), Some(file_ids)) => ids@ == file_ids@,
            (None, None) => true,
            _ => false,
        }
        &&& task.file_size_in_bytes == file.file_size_in_bytes
        &&& task.partition == Some(file.partition)
        &&& task.partition_spec is None
        &&& task.name_mapping is None
    }

    /// Makes the task that reads the file of the entry, with the deletes that the index of delete
    /// files knows for it.
    pub fn into_file_scan_task<D>(self, deletes: Vec<D>) -> (task: FileScanTask<E, D>)
        ensures
            self.makes_task(deletes@, task),
    {
        let entry = &self.manifest_entry;
        let file = &entry.data_file;
        let predicate = match &self.bound_predicates {
            Some(predicates) => Some(predicates.snapshot_bound_predicate.clone()),
            None => None,
        };
        let equality_ids = match &file.equality_ids {
            Some(ids) => Some(copy_ids(ids)),
            None => None,
        };
        let sequence_number: i64 = match entry.sequence_number {
            Some(number) => number,
            None => 0,
        };
        FileScanTask {
            start: 0,
            length: file.file_size_in_bytes,
            record_count: Some(file.record_count),
            data_file_path: file.file_path.clone(),
            data_file_content: file.content_type(),
            data_file_format: file.file_format,
            schema: self.snapshot_schema.clone(),
            project_field_ids: copy_ids(&self.field_ids),
            predicate,
            deletes,
            sequence_number,
            equality_ids,
            file_size_in_bytes: file.file_size_in_bytes,
            partition: Some(file.partition.clone()),
            partition_spec: None,
            name_mapping: None,
        }
    }
}

/// The failure to send an entry: the receiver of the channel is gone.
pub fn send_error() -> (error: Error)
    ensures
        error.says(ErrorKind::Unexpected, "mpsc channel SendError"@),
{
    Error::new(ErrorKind::Unexpected, "mpsc channel SendError")
}

fn reads_entry(entry_filter: &Option<EntryFilter>, entry: &Arc<ManifestEntry>) -> (read: bool)
    ensures
        read == is_read(*entry_filter)(*entry),
{
    match entry_filter {
        None => true,
        Some(filter) => filter.matches(entry),
    }
}

fn clone_bound_predicates<B>(predicates: &Option<BoundPredicates<B>>) -> (copy: Option<
    BoundPredicates<B>,
>)
    ensures
        copy == *predicates,
{
    match predicates {
        Some(predicates) => Some(predicates.clone()),
        None => None,
    }
}

fn copy_ids(ids: &Arc<Vec<i32>>) -> (copy: Vec<i32>)
    ensures
        copy@ == ids@,
{
    let mut copy: Vec<i32> = Vec::new();
    let mut i: usize = 0;
    while i < ids.len()
        invariant
            i <= ids.len(),
            copy@ =~= ids@.take(i as int),
        decreases ids.len() - i,
    {
        copy.push(ids[i]);
        i += 1;
    }
    copy
}

} // verus!
