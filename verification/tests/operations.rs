use std::sync::Arc;

use iceberg::metadata::data_file::{
    DataContentType, DataFile, DataFileFormat, FileMetrics, Struct,
};
use iceberg::metadata::manifest::{
    Manifest, ManifestContentType, ManifestEntry, ManifestFile, ManifestList, ManifestStatus,
};
use iceberg::metadata::snapshot::{Operation, Snapshot, Summary};
use iceberg::transaction::delete_entries::{can_remove, gen_manifest_entry, LoadAction};
use iceberg::transaction::existing_manifests::{
    dispose, rewrite_manifest, LoadedManifest, ManifestDisposition, ManifestRewrite, RewriteAction,
};
use iceberg::transaction::operation::{RewriteFilesOperation, RewriteFilesOperationConcurrent};
use iceberg::transaction::removed_paths::RemovedPaths;
use iceberg::StringHashSet;

fn file(path: &str, content: DataContentType) -> DataFile {
    DataFile {
        content,
        file_path: path.to_string(),
        file_format: DataFileFormat::Parquet,
        partition: Arc::new(Struct { fields: vec![Some(vec![1])] }),
        record_count: 10,
        file_size_in_bytes: 1000,
        metrics: Arc::new(FileMetrics {
            column_sizes: vec![(1, 500)],
            value_counts: vec![],
            null_value_counts: vec![],
            nan_value_counts: vec![],
            lower_bounds: vec![],
            upper_bounds: vec![],
            split_offsets: vec![4],
        }),
        key_metadata: None,
        equality_ids: None,
        sort_order_id: None,
        partition_spec_id: 0,
    }
}

fn entry_with(status: ManifestStatus, path: &str, content: DataContentType) -> Arc<ManifestEntry> {
    Arc::new(ManifestEntry {
        status,
        snapshot_id: Some(11),
        sequence_number: Some(3),
        file_sequence_number: Some(2),
        data_file: Arc::new(file(path, content)),
    })
}

fn data(path: &str) -> Arc<ManifestEntry> {
    entry_with(ManifestStatus::Existing, path, DataContentType::Data)
}

fn manifest(entries: Vec<Arc<ManifestEntry>>) -> Arc<Manifest> {
    Arc::new(Manifest { entries })
}

fn manifest_file(path: &str, partition_spec_id: i32) -> ManifestFile {
    ManifestFile {
        manifest_path: path.to_string(),
        manifest_length: 100,
        partition_spec_id,
        content: ManifestContentType::Data,
        sequence_number: 3,
        min_sequence_number: 1,
        added_snapshot_id: 11,
        added_files_count: Some(1),
        existing_files_count: Some(0),
        deleted_files_count: Some(0),
        added_rows_count: Some(10),
        existing_rows_count: Some(0),
        deleted_rows_count: Some(0),
        partitions: None,
        key_metadata: None,
    }
}

fn set(paths: &[&str]) -> StringHashSet {
    let mut set = StringHashSet::new();
    for path in paths {
        set.insert(path.to_string());
    }
    set
}

fn removed(data_files: &[&str], delete_files: &[&str]) -> Arc<RemovedPaths> {
    Arc::new(RemovedPaths {
        data_file_paths: set(data_files),
        delete_file_paths: set(delete_files),
    })
}

fn snapshot() -> Arc<Snapshot> {
    Arc::new(Snapshot {
        snapshot_id: 11,
        parent_snapshot_id: None,
        sequence_number: 3,
        timestamp_ms: 0,
        manifest_list: "list.avro".to_string(),
        summary: Summary { operation: Operation::Append },
    })
}

/// Five manifests: one untouched, one that loses all its files, one that loses some and has a
/// removal, one that loses some, one whose only other entry is a removal.
fn table() -> Vec<LoadedManifest> {
    vec![
        (manifest_file("m0", 0), manifest(vec![data("a"), data("b")])),
        (manifest_file("m1", 0), manifest(vec![data("x"), data("y")])),
        (
            manifest_file("m2", 5),
            manifest(vec![
                data("c"),
                data("x2"),
                entry_with(ManifestStatus::Deleted, "gone", DataContentType::Data),
                entry_with(ManifestStatus::Added, "d", DataContentType::Data),
            ]),
        ),
        (
            manifest_file("m3", 6),
            manifest(vec![
                entry_with(ManifestStatus::Existing, "p", DataContentType::PositionDeletes),
                entry_with(ManifestStatus::Existing, "q", DataContentType::EqualityDeletes),
            ]),
        ),
        (
            manifest_file("m4", 7),
            manifest(vec![
                data("x"),
                entry_with(ManifestStatus::Deleted, "gone", DataContentType::Data),
            ]),
        ),
    ]
}

fn removal() -> Arc<RemovedPaths> {
    removed(&["x", "y", "x2"], &["p"])
}

fn list_of(manifests: &[LoadedManifest]) -> ManifestList {
    ManifestList { entries: manifests.iter().map(|(file, _)| file.clone()).collect() }
}

fn written_file(rewrite: &ManifestRewrite, n: usize) -> ManifestFile {
    manifest_file(&format!("w{}-{}", n, rewrite.existing_entries.len()), rewrite.partition_spec_id)
}

fn paths_of(entries: &[Arc<ManifestEntry>]) -> Vec<&str> {
    entries.iter().map(|e| e.data_file.file_path.as_str()).collect()
}

/// What one operation has written, and the manifests that stay.
struct Outcome {
    rewrites: Vec<(i32, Vec<String>)>,
    files: Vec<ManifestFile>,
}

fn note(outcome: &mut Outcome, rewrite: &ManifestRewrite) {
    assert_eq!(rewrite.content, ManifestContentType::Data);
    let paths = paths_of(&rewrite.existing_entries).into_iter().map(|p| p.to_string()).collect();
    outcome.rewrites.push((rewrite.partition_spec_id, paths));
}

fn existing_sequentially(manifests: &[LoadedManifest], removed: Arc<RemovedPaths>) -> Outcome {
    let mut outcome = Outcome { rewrites: vec![], files: vec![] };
    let mut run = RewriteFilesOperation.existing_manifest(Some(snapshot()), removed);
    loop {
        match run.next_action() {
            RewriteAction::LoadManifestList(of) => {
                assert_eq!(of, snapshot());
                run.manifest_list_loaded(list_of(manifests));
            }
            RewriteAction::LoadManifest(file) => {
                let found = manifests.iter().find(|(f, _)| *f == file).unwrap();
                run.manifest_loaded(found.1.clone());
            }
            RewriteAction::WriteManifest(rewrite) => {
                note(&mut outcome, &rewrite);
                run.manifest_written(written_file(&rewrite, outcome.rewrites.len()));
            }
            RewriteAction::Finish => break,
        }
    }
    outcome.files = run.finish();
    outcome
}

fn existing_concurrently(manifests: &[LoadedManifest], removed: Arc<RemovedPaths>) -> Outcome {
    let mut outcome = Outcome { rewrites: vec![], files: vec![] };
    let mut operation = RewriteFilesOperationConcurrent::new();
    let loaded = manifests.iter().map(|(f, m)| (f.clone(), m.clone())).collect();
    let mut run = operation.existing_manifest(Some(snapshot()), Some(loaded), removed).unwrap();
    while let Some(rewrite) = run.next_write() {
        note(&mut outcome, &rewrite);
        run.manifest_written(written_file(&rewrite, outcome.rewrites.len()));
    }
    outcome.files = run.finish();
    outcome
}

fn delete_entries_sequentially(
    manifests: &[LoadedManifest],
    removed: Arc<RemovedPaths>,
) -> Vec<ManifestEntry> {
    let mut run = RewriteFilesOperation.delete_entries(Some(snapshot()), removed.clone());
    loop {
        match run.next_action() {
            LoadAction::LoadManifestList(of) => {
                assert_eq!(of, snapshot());
                run.manifest_list_loaded(list_of(manifests));
            }
            LoadAction::LoadManifest(file) => {
                let found = manifests.iter().find(|(f, _)| *f == file).unwrap();
                assert!(can_remove(&found.1, &removed));
                run.manifest_loaded(&found.1);
            }
            LoadAction::Finish => break,
        }
    }
    run.finish()
}

#[test]
fn both_operations_replace_files() {
    assert_eq!(RewriteFilesOperation.operation(), Operation::Replace);
    assert_eq!(RewriteFilesOperationConcurrent::new().operation(), Operation::Replace);
    assert_eq!(RewriteFilesOperationConcurrent::default().operation(), Operation::Replace);
}

#[test]
fn manifests_are_kept_dropped_or_rewritten() {
    let outcome = existing_sequentially(&table(), removal());
    let files: Vec<&str> = outcome.files.iter().map(|f| f.manifest_path.as_str()).collect();
    assert_eq!(files, vec!["m0", "w1-2", "w2-1", "w3-0"]);
    assert_eq!(outcome.files[0], manifest_file("m0", 0));
    assert_eq!(
        outcome.rewrites,
        vec![
            (5, vec!["c".to_string(), "d".to_string()]),
            (6, vec!["q".to_string()]),
            (7, vec![]),
        ]
    );
}

#[test]
fn both_operations_keep_and_write_the_same_manifests() {
    let sequential = existing_sequentially(&table(), removal());
    let concurrent = existing_concurrently(&table(), removal());
    assert_eq!(sequential.files, concurrent.files);
    assert_eq!(sequential.rewrites, concurrent.rewrites);
}

#[test]
fn removing_nothing_keeps_every_manifest() {
    let manifests = table();
    let sequential = existing_sequentially(&manifests, removed(&[], &[]));
    let concurrent = existing_concurrently(&manifests, removed(&[], &[]));
    assert!(sequential.rewrites.is_empty());
    assert_eq!(sequential.files, list_of(&manifests).entries);
    assert_eq!(concurrent.files, sequential.files);
    assert!(delete_entries_sequentially(&manifests, removed(&[], &[])).is_empty());
}

#[test]
fn a_manifest_is_judged_by_the_paths_of_its_entries() {
    let removed = removed(&["x"], &["p"]);
    let judge = |entries: Vec<Arc<ManifestEntry>>| dispose(&manifest(entries), &removed);
    assert_eq!(judge(vec![]), ManifestDisposition::Keep);
    assert_eq!(judge(vec![data("a")]), ManifestDisposition::Keep);
    assert_eq!(judge(vec![data("x"), data("x")]), ManifestDisposition::Drop);
    // The path alone counts here, whatever the file holds.
    assert_eq!(judge(vec![data("p")]), ManifestDisposition::Drop);
    assert_eq!(judge(vec![data("x"), data("a")]), ManifestDisposition::Rewrite);
    // A removal of another file is enough for the manifest to be written anew.
    assert_eq!(
        judge(vec![
            data("x"),
            entry_with(ManifestStatus::Deleted, "a", DataContentType::Data)
        ]),
        ManifestDisposition::Rewrite
    );
}

#[test]
fn rewritten_manifests_keep_their_entries_as_they_are() {
    let kept = entry_with(ManifestStatus::Added, "a", DataContentType::Data);
    let rewrite = rewrite_manifest(
        &manifest_file("m", 9),
        &manifest(vec![data("x"), kept.clone()]),
        &removed(&["x"], &[]),
    );
    assert_eq!(rewrite.partition_spec_id, 9);
    assert_eq!(rewrite.content, ManifestContentType::Data);
    assert_eq!(rewrite.existing_entries, vec![kept]);
}

#[test]
fn removed_files_are_recorded_as_deleted() {
    let entries = delete_entries_sequentially(&table(), removal());
    let found: Vec<&str> = entries.iter().map(|e| e.data_file.file_path.as_str()).collect();
    assert_eq!(found, vec!["x", "y", "x2", "p", "x"]);
    for entry in &entries {
        assert_eq!(entry.status, ManifestStatus::Deleted);
        assert_eq!(entry.snapshot_id, Some(11));
        assert_eq!(entry.sequence_number, Some(3));
        assert_eq!(entry.file_sequence_number, Some(2));
    }
    assert_eq!(*entries[0].data_file, file("x", DataContentType::Data));
}

#[test]
fn both_operations_record_the_same_removals() {
    let removed = removal();
    let sequential = delete_entries_sequentially(&table(), removed.clone());
    let concurrent = RewriteFilesOperationConcurrent::generate_delete_entries_from_manifests(
        &table(),
        &removed.data_file_paths,
        &removed.delete_file_paths,
    );
    assert_eq!(sequential, concurrent);
}

#[test]
fn only_files_of_the_removed_kind_are_recorded() {
    let manifests = vec![(
        manifest_file("m", 0),
        manifest(vec![
            data("p"),
            entry_with(ManifestStatus::Existing, "p", DataContentType::EqualityDeletes),
            entry_with(ManifestStatus::Existing, "x", DataContentType::PositionDeletes),
        ]),
    )];
    let entries = delete_entries_sequentially(&manifests, removed(&["x"], &["p"]));
    assert_eq!(entries.len(), 1);
    assert_eq!(entries[0].data_file.content, DataContentType::EqualityDeletes);
}

#[test]
fn a_live_file_is_kept_or_recorded_and_never_both() {
    let manifests = table();
    let outcome = existing_sequentially(&manifests, removal());
    let mut kept: Vec<String> = outcome.rewrites.into_iter().flat_map(|(_, paths)| paths).collect();
    kept.extend(paths_of(&manifests[0].1.entries).into_iter().map(|p| p.to_string()));
    let recorded = delete_entries_sequentially(&manifests, removal());
    for (_, manifest) in &manifests {
        for entry in manifest.entries.iter().filter(|e| e.is_alive()) {
            let path = &entry.data_file.file_path;
            let is_recorded = recorded.iter().any(|r| r.data_file == entry.data_file);
            assert_ne!(kept.contains(path), is_recorded, "{}", path);
        }
    }
}

#[test]
fn a_file_removed_as_one_of_the_other_kind_vanishes() {
    let manifests = vec![(manifest_file("m", 0), manifest(vec![data("p"), data("a")]))];
    let gone = removed(&[], &["p"]);
    let outcome = existing_sequentially(&manifests, gone.clone());
    assert_eq!(outcome.rewrites, vec![(0, vec!["a".to_string()])]);
    assert!(delete_entries_sequentially(&manifests, gone).is_empty());
}

#[test]
fn both_operations_fill_the_same_places_whatever_the_written_manifests_are() {
    let sequential = existing_sequentially(&table(), removal());
    let mut operation = RewriteFilesOperationConcurrent::new();
    let mut run =
        operation.existing_manifest(Some(snapshot()), Some(table()), removal()).unwrap();
    let mut turn = 0;
    while run.next_write().is_some() {
        turn += 1;
        run.manifest_written(manifest_file(&format!("other {}", turn), 0));
    }
    let files = run.finish();
    let paths: Vec<&str> = files.iter().map(|f| f.manifest_path.as_str()).collect();
    assert_eq!(paths, vec!["m0", "other 1", "other 2", "other 3"]);
    assert_eq!(files.len(), sequential.files.len());
    assert_eq!(files[0], sequential.files[0]);
}

#[test]
fn an_entry_that_records_a_removal_only_changes_its_status() {
    let old = Arc::new(ManifestEntry {
        status: ManifestStatus::Added,
        snapshot_id: Some(1),
        sequence_number: Some(2),
        file_sequence_number: None,
        data_file: Arc::new(file("x", DataContentType::Data)),
    });
    let new = gen_manifest_entry(&old);
    assert_eq!(new.status, ManifestStatus::Deleted);
    assert_eq!(new.snapshot_id, Some(1));
    assert_eq!(new.sequence_number, Some(2));
    assert_eq!(new.file_sequence_number, None);
    assert_eq!(new.data_file, old.data_file);
}

#[test]
fn removals_need_numbered_entries() {
    let unnumbered = |snapshot_id, sequence_number| {
        manifest(vec![
            data("a"),
            Arc::new(ManifestEntry {
                status: ManifestStatus::Added,
                snapshot_id,
                sequence_number,
                file_sequence_number: None,
                data_file: Arc::new(file("x", DataContentType::Data)),
            }),
        ])
    };
    let gone = removed(&["x"], &[]);
    assert!(can_remove(&unnumbered(Some(1), Some(1)), &gone));
    assert!(!can_remove(&unnumbered(None, Some(1)), &gone));
    assert!(!can_remove(&unnumbered(Some(1), None), &gone));
    assert!(can_remove(&unnumbered(None, None), &removed(&["a"], &["x"])));
    let pairs = |m: Arc<Manifest>| {
        vec![
            (manifest_file("m0", 0), manifest(vec![data("x")])),
            (manifest_file("m1", 0), m),
        ]
    };
    let possible = |m: Arc<Manifest>| {
        RewriteFilesOperationConcurrent::can_remove_from_manifests(&pairs(m), &gone)
    };
    assert!(possible(unnumbered(Some(1), Some(1))));
    assert!(!possible(unnumbered(None, Some(1))));
}

#[test]
fn without_a_snapshot_there_is_nothing_to_do() {
    let run = RewriteFilesOperation.delete_entries(None, removal());
    assert!(matches!(run.next_action(), LoadAction::Finish));
    assert!(run.finish().is_empty());

    let run = RewriteFilesOperation.existing_manifest(None, removal());
    assert!(matches!(run.next_action(), RewriteAction::Finish));
    assert!(run.finish().is_empty());

    let mut operation = RewriteFilesOperationConcurrent::new();
    let entries = operation.delete_entries(None, Some(table()), &removal());
    assert_eq!(entries, Some(vec![]));
    let run = operation.existing_manifest(None, Some(table()), removal()).unwrap();
    assert!(run.next_write().is_none());
    assert!(run.finish().is_empty());
    // Nothing was kept either.
    assert!(operation.get_or_load_manifests(None).is_none());
}

#[test]
fn manifests_are_loaded_once() {
    let mut operation = RewriteFilesOperationConcurrent::new();
    assert!(operation.existing_manifest(Some(snapshot()), None, removal()).is_none());
    assert!(operation.delete_entries(Some(snapshot()), None, &removal()).is_none());
    assert!(operation.existing_manifest(Some(snapshot()), Some(table()), removal()).is_some());
    let entries = operation.delete_entries(Some(snapshot()), None, &removal()).unwrap();
    assert_eq!(entries, delete_entries_sequentially(&table(), removal()));
    // What is loaded later does not count.
    let kept = operation.get_or_load_manifests(Some(vec![])).unwrap();
    assert_eq!(kept.len(), 5);
    assert_eq!(kept[0].0.manifest_path, "m0");
}

#[test]
fn the_cache_finds_manifests_by_path() {
    let mut operation = RewriteFilesOperationConcurrent::new();
    assert_eq!(operation.get_manifest_cache().len(), 0);
    let first = manifest(vec![data("a")]);
    let second = manifest(vec![data("b")]);
    let loaded = vec![
        (manifest_file("m", 0), first),
        (manifest_file("n", 0), manifest(vec![])),
        (manifest_file("m", 0), second.clone()),
    ];
    operation.get_or_load_manifests(Some(loaded));
    let cache = operation.get_manifest_cache();
    assert_eq!(cache.len(), 2);
    assert_eq!(cache.get("m"), Some(&second));
    assert_eq!(cache.get("n"), Some(&manifest(vec![])));
    assert_eq!(cache.get("o"), None);
}

#[test]
fn loaded_manifests_are_paired_in_order() {
    let manifests = table();
    let loaded: Vec<Arc<Manifest>> = manifests.iter().map(|(_, m)| m.clone()).collect();
    let pairs = RewriteFilesOperationConcurrent::pair_manifests(&list_of(&manifests), &loaded);
    assert_eq!(pairs, manifests);
}
