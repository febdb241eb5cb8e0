use std::cell::RefCell;
use std::sync::Arc;

use iceberg::error::{Error, ErrorKind};
use iceberg::metadata::data_file::{
    DataContentType, DataFile, DataFileFormat, FileMetrics, Struct,
};
use iceberg::metadata::manifest::{
    Manifest, ManifestContentType, ManifestEntry, ManifestFile, ManifestList, ManifestStatus,
};
use iceberg::metadata::snapshot::{Operation, Snapshot, Summary};
use iceberg::scan::context::{EntryChannel, PlanContext};
use iceberg::scan::deletes::{DeleteFileAction, DeleteFileContext};
use iceberg::scan::entries::send_error;
use iceberg::scan::matching::ManifestMatch;
use iceberg::scan::selection::ManifestSelection;
use iceberg::scan::services::ScanServices;

/// Binds to the predicate itself, derives filters named after it and the partition spec, and lets
/// through what has "hit" in its path. Paths with "fail" cannot be tested.
struct Services {
    lineage: Vec<Arc<Snapshot>>,
    calls: RefCell<Vec<String>>,
}

fn failure(message: &str) -> Error {
    Error::new(ErrorKind::DataInvalid, message)
}

impl ScanServices for Services {
    type TableMetadata = String;
    type Schema = String;
    type Predicate = String;
    type BoundPredicate = String;

    fn bind(
        &self,
        predicate: &String,
        schema: &Arc<String>,
        case_sensitive: bool,
    ) -> Result<String, Error> {
        if predicate == "unbindable" {
            return Err(failure("bind"));
        }
        Ok(format!("{}/{}/{}", predicate, schema, case_sensitive))
    }

    fn partition_filter(
        &self,
        partition_spec_id: i32,
        table_metadata: &Arc<String>,
        _schema: &Arc<String>,
        _case_sensitive: bool,
        predicate: String,
    ) -> Result<Arc<String>, Error> {
        if partition_spec_id < 0 {
            return Err(failure("partition filter"));
        }
        Ok(Arc::new(format!("{}:{}:{}", table_metadata, partition_spec_id, predicate)))
    }

    fn manifest_matches(
        &self,
        _partition_spec_id: i32,
        _partition_filter: &Arc<String>,
        manifest_file: &ManifestFile,
    ) -> Result<bool, Error> {
        self.calls.borrow_mut().push(manifest_file.manifest_path.clone());
        if manifest_file.manifest_path.contains("fail") {
            return Err(failure(&manifest_file.manifest_path));
        }
        Ok(manifest_file.manifest_path.contains("hit"))
    }

    fn file_matches(
        &self,
        _partition_spec_id: i32,
        _partition_filter: &Arc<String>,
        data_file: &DataFile,
    ) -> Result<bool, Error> {
        if data_file.file_path.contains("fail") {
            return Err(failure(&data_file.file_path));
        }
        Ok(data_file.file_path.contains("hit"))
    }

    fn ancestors_between(
        &self,
        _table_metadata: &Arc<String>,
        latest_snapshot_id: i64,
        oldest_snapshot_id: Option<i64>,
    ) -> Vec<Arc<Snapshot>> {
        self.lineage
            .iter()
            .filter(|s| s.snapshot_id <= latest_snapshot_id)
            .filter(|s| oldest_snapshot_id.map_or(true, |oldest| s.snapshot_id > oldest))
            .cloned()
            .collect()
    }
}

fn snapshot(id: i64, operation: Operation) -> Arc<Snapshot> {
    Arc::new(Snapshot {
        snapshot_id: id,
        parent_snapshot_id: if id > 1 { Some(id - 1) } else { None },
        sequence_number: id,
        timestamp_ms: id,
        manifest_list: format!("list-{}", id),
        summary: Summary { operation },
    })
}

fn plan(predicate: Option<&str>) -> PlanContext<Services> {
    PlanContext {
        snapshot: snapshot(5, Operation::Append),
        table_metadata: Arc::new("table".to_string()),
        snapshot_schema: Arc::new("schema".to_string()),
        case_sensitive: true,
        predicate: predicate.map(|p| Arc::new(p.to_string())),
        snapshot_bound_predicate: predicate.map(|p| Arc::new(format!("snapshot {}", p))),
        field_ids: Arc::new(vec![1, 2, 4]),
        services: Arc::new(Services {
            lineage: vec![
                snapshot(5, Operation::Append),
                snapshot(4, Operation::Replace),
                snapshot(3, Operation::Overwrite),
                snapshot(2, Operation::Delete),
                snapshot(1, Operation::Append),
            ],
            calls: RefCell::new(vec![]),
        }),
        from_snapshot_id: None,
        to_snapshot_id: None,
    }
}

fn incremental(from: Option<i64>, to: i64) -> PlanContext<Services> {
    PlanContext { from_snapshot_id: from, to_snapshot_id: Some(to), ..plan(None) }
}

fn manifest_file(path: &str, content: ManifestContentType, added: i64) -> ManifestFile {
    ManifestFile {
        manifest_path: path.to_string(),
        manifest_length: 100,
        partition_spec_id: 3,
        content,
        sequence_number: 1,
        min_sequence_number: 1,
        added_snapshot_id: added,
        added_files_count: None,
        existing_files_count: None,
        deleted_files_count: None,
        added_rows_count: None,
        existing_rows_count: None,
        deleted_rows_count: None,
        partitions: None,
        key_metadata: None,
    }
}

fn data_manifest(path: &str) -> ManifestFile {
    manifest_file(path, ManifestContentType::Data, 1)
}

fn delete_manifest(path: &str) -> ManifestFile {
    manifest_file(path, ManifestContentType::Deletes, 1)
}

fn file(path: &str, content: DataContentType) -> DataFile {
    DataFile {
        content,
        file_path: path.to_string(),
        file_format: DataFileFormat::Orc,
        partition: Arc::new(Struct { fields: vec![None, Some(vec![7])] }),
        record_count: 12,
        file_size_in_bytes: 3456,
        metrics: Arc::new(FileMetrics {
            column_sizes: vec![],
            value_counts: vec![],
            null_value_counts: vec![],
            nan_value_counts: vec![],
            lower_bounds: vec![],
            upper_bounds: vec![],
            split_offsets: vec![],
        }),
        key_metadata: None,
        equality_ids: Some(Arc::new(vec![2])),
        sort_order_id: None,
        partition_spec_id: 3,
    }
}

fn entry(
    path: &str,
    status: ManifestStatus,
    content: DataContentType,
    snapshot_id: Option<i64>,
) -> Arc<ManifestEntry> {
    Arc::new(ManifestEntry {
        status,
        snapshot_id,
        sequence_number: Some(8),
        file_sequence_number: Some(8),
        data_file: Arc::new(file(path, content)),
    })
}

fn selection(manifest_files: Vec<ManifestFile>) -> ManifestSelection {
    ManifestSelection { manifest_files, entry_filter: None }
}

fn error_of<T>(result: Result<T, Error>) -> Error {
    match result {
        Ok(_) => panic!("no error"),
        Err(error) => error,
    }
}

#[test]
fn a_partition_filter_needs_a_predicate() {
    let error = error_of(plan(None).get_partition_filter(&data_manifest("hit")));
    assert_eq!(error.kind(), ErrorKind::Unexpected);
    assert_eq!(error.message, "Expected a predicate but none present");
}

#[test]
fn a_partition_filter_is_derived_from_the_bound_predicate() {
    let filter = plan(Some("a > 1")).get_partition_filter(&data_manifest("hit")).unwrap();
    assert_eq!(*filter, "table:3:a > 1/schema/true");
}

#[test]
fn manifests_of_one_partition_spec_get_the_same_filter() {
    let plan = plan(Some("a > 1"));
    let filter_of = |m: &ManifestFile| plan.get_partition_filter(m).unwrap();
    let one = data_manifest("hit");
    let other = manifest_file("fail", ManifestContentType::Deletes, 4);
    assert_eq!(filter_of(&one), filter_of(&other));
    let odd = ManifestFile { partition_spec_id: 8, ..data_manifest("hit") };
    assert_eq!(*filter_of(&odd), "table:8:a > 1/schema/true");
}

#[test]
fn failures_of_the_partition_filter_are_passed_on() {
    let error = error_of(plan(Some("unbindable")).get_partition_filter(&data_manifest("hit")));
    assert_eq!(error, failure("bind"));
    let odd = ManifestFile { partition_spec_id: -1, ..data_manifest("hit") };
    let error = error_of(plan(Some("a > 1")).get_partition_filter(&odd));
    assert_eq!(error, failure("partition filter"));
}

#[test]
fn manifests_are_matched_against_the_predicate() {
    let with = plan(Some("a > 1"));
    assert!(matches!(
        plan(None).match_manifest(&data_manifest("fail")),
        Ok(ManifestMatch::Unfiltered)
    ));
    assert!(matches!(with.match_manifest(&data_manifest("miss")), Ok(ManifestMatch::Excluded)));
    match with.match_manifest(&data_manifest("hit")) {
        Ok(ManifestMatch::Filtered(filter)) => assert_eq!(*filter, "table:3:a > 1/schema/true"),
        _ => panic!("not filtered"),
    }
    assert_eq!(error_of(with.match_manifest(&data_manifest("fail"))), failure("fail"));
    assert_eq!(
        error_of(plan(Some("unbindable")).match_manifest(&data_manifest("hit"))),
        failure("bind")
    );
}

#[test]
fn a_whole_scan_considers_every_manifest_of_the_snapshot() {
    let list = ManifestList { entries: vec![delete_manifest("d"), data_manifest("m")] };
    let run = plan(None).select_manifests(&list);
    assert!(run.next_snapshot().is_none());
    let selection = run.finish();
    assert_eq!(selection.manifest_files, list.entries);
    assert!(selection.entry_filter.is_none());
}

/// Chooses manifests, with one manifest list for each snapshot: what it added, and everything that
/// its parent lists.
fn choose_manifests(plan: &PlanContext<Services>) -> (Vec<i64>, ManifestSelection) {
    let mut needed = vec![];
    let mut run = plan.select_manifests(&ManifestList { entries: vec![data_manifest("ignored")] });
    while let Some(snapshot) = run.next_snapshot() {
        needed.push(snapshot.snapshot_id);
        let entries = (1..=snapshot.snapshot_id)
            .rev()
            .map(|id| manifest_file(&format!("m{}", id), ManifestContentType::Data, id))
            .collect();
        run.manifest_list_loaded(&ManifestList { entries });
    }
    (needed, run.finish())
}

#[test]
fn an_incremental_scan_skips_snapshots_that_add_no_rows() {
    let (needed, selection) = choose_manifests(&incremental(None, 5));
    assert_eq!(needed, vec![5, 3, 1]);
    let paths: Vec<&str> =
        selection.manifest_files.iter().map(|m| m.manifest_path.as_str()).collect();
    assert_eq!(paths, vec!["m5", "m3", "m1", "m3", "m1", "m1"]);
}

#[test]
fn choosing_manifests_twice_comes_to_the_same() {
    let plan = incremental(Some(1), 5);
    let (_, first) = choose_manifests(&plan);
    let (_, second) = choose_manifests(&plan);
    assert_eq!(first.manifest_files.len(), 3);
    assert_eq!(first.manifest_files, second.manifest_files);
    let ids = |s: &ManifestSelection| s.entry_filter.as_ref().unwrap().snapshot_ids.clone();
    assert_eq!(ids(&first), ids(&second));
}

#[test]
fn an_incremental_scan_starts_after_the_first_and_ends_with_the_last_snapshot() {
    let (needed, selection) = choose_manifests(&incremental(Some(1), 4));
    assert_eq!(needed, vec![3]);
    let paths: Vec<&str> =
        selection.manifest_files.iter().map(|m| m.manifest_path.as_str()).collect();
    assert_eq!(paths, vec!["m3"]);
}

#[test]
fn an_incremental_scan_without_new_rows_considers_nothing() {
    let (needed, selection) = choose_manifests(&incremental(Some(3), 4));
    assert!(needed.is_empty());
    assert!(selection.manifest_files.is_empty());
    assert!(selection.entry_filter.is_some());
}

#[test]
fn an_incremental_scan_reads_only_added_data_of_its_snapshots() {
    let filter = choose_manifests(&incremental(None, 5)).1.entry_filter.unwrap();
    let added = ManifestStatus::Added;
    assert!(filter.matches(&entry("a", added, DataContentType::Data, Some(5))));
    assert!(filter.matches(&entry("a", added, DataContentType::Data, None)));
    assert!(!filter.matches(&entry("a", added, DataContentType::Data, Some(4))));
    assert!(!filter.matches(&entry("a", added, DataContentType::Data, Some(6))));
    assert!(!filter.matches(&entry("a", added, DataContentType::PositionDeletes, Some(5))));
    assert!(!filter.matches(&entry("a", added, DataContentType::EqualityDeletes, None)));
    let existing = ManifestStatus::Existing;
    assert!(!filter.matches(&entry("a", existing, DataContentType::Data, Some(5))));
    let deleted = ManifestStatus::Deleted;
    assert!(!filter.matches(&entry("a", deleted, DataContentType::Data, Some(5))));
}

#[test]
fn delete_manifests_come_first() {
    let files = vec![
        data_manifest("m1"),
        delete_manifest("d1"),
        data_manifest("m2"),
        delete_manifest("d2"),
    ];
    let contexts = plan(None).build_manifest_file_contexts(&selection(files)).ok().unwrap();
    let order: Vec<(&str, EntryChannel)> =
        contexts.iter().map(|c| (c.manifest_file.manifest_path.as_str(), c.channel)).collect();
    assert_eq!(
        order,
        vec![
            ("d1", EntryChannel::Deletes),
            ("d2", EntryChannel::Deletes),
            ("m1", EntryChannel::Data),
            ("m2", EntryChannel::Data),
        ]
    );
    for context in &contexts {
        assert!(context.bound_predicates.is_none());
        assert!(context.entry_filter.is_none());
        assert_eq!(*context.field_ids, vec![1, 2, 4]);
        assert_eq!(*context.snapshot_schema, "schema");
    }
}

#[test]
fn manifests_without_matches_are_left_out() {
    let files = vec![
        data_manifest("miss"),
        delete_manifest("hit d"),
        data_manifest("hit m"),
        delete_manifest("miss"),
    ];
    let plan = plan(Some("a > 1"));
    let contexts = plan.build_manifest_file_contexts(&selection(files)).ok().unwrap();
    let paths: Vec<&str> =
        contexts.iter().map(|c| c.manifest_file.manifest_path.as_str()).collect();
    assert_eq!(paths, vec!["hit d", "hit m"]);
    let bound = contexts[1].bound_predicates.as_ref().unwrap();
    assert_eq!(*bound.partition_bound_predicate, "table:3:a > 1/schema/true");
    assert_eq!(*bound.snapshot_bound_predicate, "snapshot a > 1");
}

#[test]
fn both_predicates_are_needed_to_test_files() {
    let plan = PlanContext { snapshot_bound_predicate: None, ..plan(Some("a > 1")) };
    let contexts =
        plan.build_manifest_file_contexts(&selection(vec![data_manifest("hit")])).ok().unwrap();
    assert_eq!(contexts.len(), 1);
    assert!(contexts[0].bound_predicates.is_none());
}

#[test]
fn the_first_manifest_that_cannot_be_tested_fails_the_plan() {
    let files = vec![
        data_manifest("hit"),
        delete_manifest("fail 1"),
        data_manifest("fail 2"),
        data_manifest("hit"),
    ];
    let plan = plan(Some("a > 1"));
    let selection = selection(files);
    let error = error_of(plan.build_manifest_file_contexts(&selection));
    assert_eq!(error, failure("fail 1"));
    assert_eq!(*plan.services.calls.borrow(), vec!["hit", "fail 1"]);
    plan.services.calls.borrow_mut().clear();
    // A plan without channels does not look at delete manifests.
    let error = error_of(plan.build_manifest_file_contexts_for_streams(&selection));
    assert_eq!(error, failure("fail 2"));
    assert_eq!(*plan.services.calls.borrow(), vec!["hit", "fail 2"]);
}

#[test]
fn both_plans_agree_on_data_manifests() {
    let (_, chosen) = choose_manifests(&incremental(None, 5));
    let mut files = vec![delete_manifest("hit d"), data_manifest("miss"), data_manifest("hit m")];
    files.extend(chosen.manifest_files);
    let selection = ManifestSelection { manifest_files: files, entry_filter: chosen.entry_filter };
    let plan = plan(Some("a > 1"));
    let channels = plan.build_manifest_file_contexts(&selection).ok().unwrap();
    let streams = plan.build_manifest_file_contexts_for_streams(&selection).ok().unwrap();
    assert_eq!(channels.len(), 2);
    assert_eq!(streams.len(), 1);
    assert_eq!(streams[0].manifest_file, channels[1].manifest_file);
    let manifest = Manifest {
        entries: vec![
            entry("a", ManifestStatus::Added, DataContentType::Data, Some(5)),
            entry("b", ManifestStatus::Existing, DataContentType::Data, Some(5)),
            entry("c", ManifestStatus::Added, DataContentType::Data, None),
        ],
    };
    let sent = channels[1].manifest_entries_to_stream(&manifest);
    let collected = streams[0].manifest_entries_vec(&manifest);
    assert_eq!(sent.len(), 2);
    assert_eq!(collected.len(), 2);
    for (one, other) in sent.iter().zip(&collected) {
        assert_eq!(one.manifest_entry, other.manifest_entry);
        assert_eq!(one.partition_spec_id, 3);
        assert_eq!(other.partition_spec_id, 3);
    }
    assert_eq!(sent[1].manifest_entry.data_file.file_path, "c");
}

#[test]
fn both_plans_succeed_together_with_the_same_data_contexts() {
    for predicate in [None, Some("a > 1")] {
        let plan = plan(predicate);
        let files = || {
            selection(vec![
                data_manifest("hit 1"),
                delete_manifest("hit 2"),
                data_manifest("miss 3"),
                delete_manifest("miss 4"),
                data_manifest("hit 5"),
            ])
        };
        let channels = plan.build_manifest_file_contexts(&files()).ok().unwrap();
        let streams = plan.build_manifest_file_contexts_for_streams(&files()).ok().unwrap();
        let data: Vec<_> =
            channels.iter().filter(|c| c.channel == EntryChannel::Data).collect();
        assert_eq!(streams.len(), if predicate.is_some() { 2 } else { 3 });
        assert_eq!(streams.len(), data.len());
        for (stream, channel) in streams.iter().zip(data) {
            assert_eq!(stream.manifest_file, channel.manifest_file);
            assert_eq!(stream.field_ids, channel.field_ids);
            assert_eq!(stream.snapshot_schema, channel.snapshot_schema);
            assert_eq!(stream.bound_predicates.is_some(), predicate.is_some());
            let filter = |bound: &iceberg::scan::context::BoundPredicates<String>| {
                (bound.partition_bound_predicate.clone(), bound.snapshot_bound_predicate.clone())
            };
            assert_eq!(
                stream.bound_predicates.as_ref().map(filter),
                channel.bound_predicates.as_ref().map(filter)
            );
        }
    }
}

#[test]
fn a_whole_scan_reads_every_entry() {
    let contexts =
        plan(None).build_manifest_file_contexts(&selection(vec![data_manifest("m")])).ok().unwrap();
    let manifest = Manifest {
        entries: vec![
            entry("a", ManifestStatus::Deleted, DataContentType::Data, Some(5)),
            entry("b", ManifestStatus::Existing, DataContentType::PositionDeletes, Some(9)),
        ],
    };
    let sent = contexts[0].manifest_entries_to_stream(&manifest);
    assert_eq!(sent.len(), 2);
    assert_eq!(sent[0].manifest_entry, manifest.entries[0]);
}

#[test]
fn a_task_reads_the_whole_file() {
    let plan = plan(Some("a > 1"));
    let contexts =
        plan.build_manifest_file_contexts(&selection(vec![data_manifest("hit")])).ok().unwrap();
    let manifest = Manifest {
        entries: vec![entry("f", ManifestStatus::Added, DataContentType::Data, Some(5))],
    };
    let context = contexts[0].manifest_entries_to_stream(&manifest).remove(0);
    let (looked_up, sequence_number) = context.delete_lookup();
    assert_eq!(*looked_up, file("f", DataContentType::Data));
    assert_eq!(sequence_number, Some(8));
    let task = context.into_file_scan_task(vec!["delete 1", "delete 2"]);
    assert_eq!(task.start, 0);
    assert_eq!(task.length, 3456);
    assert_eq!(task.record_count, Some(12));
    assert_eq!(task.data_file_path, "f");
    assert_eq!(task.data_file_content, DataContentType::Data);
    assert_eq!(task.data_file_format, DataFileFormat::Orc);
    assert_eq!(*task.schema, "schema");
    assert_eq!(task.project_field_ids, vec![1, 2, 4]);
    assert_eq!(*task.predicate.unwrap(), "snapshot a > 1");
    assert_eq!(task.deletes, vec!["delete 1", "delete 2"]);
    assert_eq!(task.sequence_number, 8);
    assert_eq!(task.equality_ids, Some(vec![2]));
    assert_eq!(task.file_size_in_bytes, 3456);
    assert_eq!(task.partition.unwrap().fields, vec![None, Some(vec![7])]);
    assert!(task.partition_spec.is_none());
    assert!(task.name_mapping.is_none());
}

#[test]
fn a_task_without_numbers_or_predicates_has_defaults() {
    let contexts =
        plan(None).build_manifest_file_contexts(&selection(vec![data_manifest("m")])).ok().unwrap();
    let unnumbered = Arc::new(ManifestEntry {
        status: ManifestStatus::Added,
        snapshot_id: None,
        sequence_number: None,
        file_sequence_number: None,
        data_file: Arc::new(DataFile {
            equality_ids: None,
            ..file("f", DataContentType::Data)
        }),
    });
    let manifest = Manifest { entries: vec![unnumbered] };
    let context = contexts[0].manifest_entries_to_stream(&manifest).remove(0);
    let task = context.into_file_scan_task::<u8>(vec![]);
    assert_eq!(task.sequence_number, 0);
    assert_eq!(task.equality_ids, None);
    assert!(task.predicate.is_none());
    assert!(task.deletes.is_empty());
}

/// Finds delete files; every manifest lists the given entries.
fn find_deletes(
    plan: &PlanContext<Services>,
    list: &ManifestList,
    entries: &[Arc<ManifestEntry>],
) -> Result<(Vec<String>, Vec<DeleteFileContext<Services>>), Error> {
    let mut loaded = vec![];
    let mut run = plan.load_delete_file_contexts_for_streams(list);
    loop {
        match run.next_action()? {
            DeleteFileAction::LoadManifest(manifest_file) => {
                loaded.push(manifest_file.manifest_path);
                run.manifest_loaded(&Manifest { entries: entries.to_vec() })?;
            }
            DeleteFileAction::Finish => return Ok((loaded, run.finish())),
        }
    }
}

fn some_entries() -> Vec<Arc<ManifestEntry>> {
    vec![
        entry("hit 1", ManifestStatus::Added, DataContentType::PositionDeletes, Some(1)),
        entry("hit 2", ManifestStatus::Deleted, DataContentType::PositionDeletes, Some(1)),
        entry("hit 3", ManifestStatus::Existing, DataContentType::Data, Some(1)),
        entry("miss 4", ManifestStatus::Existing, DataContentType::EqualityDeletes, Some(1)),
    ]
}

fn found_paths(contexts: &[DeleteFileContext<Services>]) -> Vec<&str> {
    contexts.iter().map(|c| c.manifest_entry.data_file.file_path.as_str()).collect()
}

#[test]
fn live_delete_files_of_delete_manifests_are_found() {
    let list = ManifestList {
        entries: vec![delete_manifest("d1"), data_manifest("m"), delete_manifest("d2")],
    };
    let (loaded, found) = find_deletes(&plan(None), &list, &some_entries()).ok().unwrap();
    assert_eq!(loaded, vec!["d1", "d2"]);
    assert_eq!(found_paths(&found), vec!["hit 1", "miss 4", "hit 1", "miss 4"]);
    assert_eq!(found[0].partition_spec_id, 3);
    assert_eq!(*found[0].field_ids, vec![1, 2, 4]);
    assert_eq!(*found[0].snapshot_schema, "schema");
}

#[test]
fn delete_files_that_cannot_match_are_left_out() {
    let list = ManifestList {
        entries: vec![delete_manifest("miss"), delete_manifest("hit"), delete_manifest("miss")],
    };
    let (loaded, found) = find_deletes(&plan(Some("a > 1")), &list, &some_entries()).ok().unwrap();
    assert_eq!(loaded, vec!["hit"]);
    assert_eq!(found_paths(&found), vec!["hit 1"]);
}

#[test]
fn an_incremental_scan_ignores_delete_files() {
    let list = ManifestList { entries: vec![delete_manifest("d1")] };
    let (loaded, found) =
        find_deletes(&incremental(None, 5), &list, &some_entries()).ok().unwrap();
    assert!(loaded.is_empty());
    assert!(found.is_empty());
}

#[test]
fn failures_end_the_search_for_delete_files() {
    let plan = plan(Some("a > 1"));
    let list = ManifestList {
        entries: vec![data_manifest("fail 0"), delete_manifest("hit"), delete_manifest("fail 1")],
    };
    let error = error_of(find_deletes(&plan, &list, &some_entries()));
    assert_eq!(error, failure("fail 1"));
    let live = entry("fail 2", ManifestStatus::Added, DataContentType::PositionDeletes, None);
    let list = ManifestList { entries: vec![delete_manifest("hit")] };
    assert_eq!(error_of(find_deletes(&plan, &list, &[live])), failure("fail 2"));
    // An entry that is not needed anyway is not tested.
    let dead = entry("fail 3", ManifestStatus::Deleted, DataContentType::PositionDeletes, None);
    let (_, found) = find_deletes(&plan, &list, &[dead]).ok().unwrap();
    assert!(found.is_empty());
}

#[test]
fn a_closed_channel_is_unexpected() {
    let error = send_error();
    assert_eq!(error.kind(), ErrorKind::Unexpected);
    assert_eq!(error.message, "mpsc channel SendError");
}
