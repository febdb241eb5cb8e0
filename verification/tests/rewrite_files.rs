use std::sync::Arc;

use iceberg::metadata::data_file::{
    DataContentType, DataFile, DataFileFormat, FileMetrics, Struct,
};
use iceberg::metadata::manifest::{ManifestEntry, ManifestStatus};
use iceberg::transaction::properties::MergeSettings;
use iceberg::transaction::removed_paths::{is_removed_file, RemovedPaths};
use iceberg::transaction::rewrite_files::{ManifestLoading, ManifestProcess, RewriteFilesAction};
use iceberg::StringHashMap;
use uuid::Uuid;

fn file(path: &str, content: DataContentType) -> DataFile {
    DataFile {
        content,
        file_path: path.to_string(),
        file_format: DataFileFormat::Parquet,
        partition: Arc::new(Struct { fields: vec![] }),
        record_count: 10,
        file_size_in_bytes: 1000,
        metrics: Arc::new(FileMetrics {
            column_sizes: vec![],
            value_counts: vec![],
            null_value_counts: vec![],
            nan_value_counts: vec![],
            lower_bounds: vec![],
            upper_bounds: vec![],
            split_offsets: vec![],
        }),
        key_metadata: None,
        equality_ids: None,
        sort_order_id: None,
        partition_spec_id: 0,
    }
}

fn entry(path: &str, content: DataContentType) -> ManifestEntry {
    ManifestEntry {
        status: ManifestStatus::Added,
        snapshot_id: Some(1),
        sequence_number: Some(1),
        file_sequence_number: None,
        data_file: Arc::new(file(path, content)),
    }
}

fn properties(pairs: &[(&str, &str)]) -> StringHashMap<String> {
    let mut map = StringHashMap::new();
    for (name, value) in pairs {
        map.insert(name.to_string(), value.to_string());
    }
    map
}

fn paths(files: &[DataFile]) -> Vec<&str> {
    files.iter().map(|f| f.file_path.as_str()).collect()
}

const ID: Uuid = Uuid::from_u128(0x0123_4567_89ab_7cde_8f01_2345_6789_abcd);

#[test]
fn fresh_commits_get_their_own_version_seven_identifier() {
    let action = RewriteFilesAction::new();
    let first = action.commit();
    let second = action.commit();
    assert_eq!(first.commit_uuid.get_version_num(), 7);
    assert_eq!(second.commit_uuid.get_version_num(), 7);
    assert_ne!(first.commit_uuid, second.commit_uuid);
}

#[test]
fn a_given_identifier_is_used() {
    let mut action = RewriteFilesAction::new();
    action.set_commit_uuid(ID);
    assert_eq!(action.commit().commit_uuid, ID);
    assert_eq!(action.commit().commit_uuid, ID);
}

#[test]
fn a_new_action_does_nothing() {
    let plan = RewriteFilesAction::new().commit_as(ID);
    assert_eq!(plan.commit_uuid, ID);
    assert_eq!(plan.key_metadata, None);
    assert_eq!(plan.snapshot_id, None);
    assert_eq!(plan.snapshot_properties.len(), 0);
    assert!(plan.added_data_files.is_empty());
    assert!(plan.added_delete_files.is_empty());
    assert!(plan.removed_data_files.is_empty());
    assert!(plan.removed_delete_files.is_empty());
    assert_eq!(plan.new_data_file_sequence_number, None);
    assert_eq!(plan.target_branch, None);
    assert!(!plan.enable_delete_filter_manager);
    assert!(!plan.validate_data_file_changes);
    assert_eq!(plan.manifest_loading, ManifestLoading::Concurrent);
    assert_eq!(plan.manifest_process, ManifestProcess::Default);
}

#[test]
fn default_is_new() {
    let plan = RewriteFilesAction::default().commit_as(ID);
    assert_eq!(plan.manifest_loading, ManifestLoading::Concurrent);
    assert_eq!(plan.manifest_process, ManifestProcess::Default);
    assert!(plan.removed_data_files.is_empty());
}

#[test]
fn every_setting_reaches_the_plan() {
    let plan = RewriteFilesAction::new()
        .set_enable_delete_filter_manager(true)
        .set_key_metadata(vec![1, 2, 3])
        .set_snapshot_id(42)
        .set_target_branch("audit".to_string())
        .set_new_data_file_sequence_number(-5)
        .set_check_file_existence(true)
        .set_use_concurrent_manifest_loading(false)
        .commit_as(ID);
    assert!(plan.enable_delete_filter_manager);
    assert_eq!(plan.key_metadata, Some(vec![1, 2, 3]));
    assert_eq!(plan.snapshot_id, Some(42));
    assert_eq!(plan.target_branch, Some("audit".to_string()));
    assert_eq!(plan.new_data_file_sequence_number, Some(-5));
    assert!(plan.validate_data_file_changes);
    assert_eq!(plan.manifest_loading, ManifestLoading::Sequential);
}

#[test]
fn added_and_removed_files_are_kept_apart_by_what_they_hold() {
    let plan = RewriteFilesAction::new()
        .add_data_files(vec![
            file("a", DataContentType::Data),
            file("b", DataContentType::EqualityDeletes),
            file("c", DataContentType::Data),
        ])
        .delete_files(vec![
            file("x", DataContentType::PositionDeletes),
            file("y", DataContentType::Data),
        ])
        .commit_as(ID);
    assert_eq!(paths(&plan.added_data_files), vec!["a", "c"]);
    assert_eq!(paths(&plan.added_delete_files), vec!["b"]);
    assert_eq!(paths(&plan.removed_data_files), vec!["y"]);
    assert_eq!(paths(&plan.removed_delete_files), vec!["x"]);
    assert_eq!(plan.added_data_files[0], file("a", DataContentType::Data));
}

#[test]
fn files_accumulate_over_calls_in_either_order() {
    let twice = RewriteFilesAction::new()
        .delete_files(vec![file("r", DataContentType::Data)])
        .add_data_files(vec![file("a", DataContentType::Data)])
        .add_data_files(vec![file("b", DataContentType::Data)])
        .commit_as(ID);
    let once = RewriteFilesAction::new()
        .add_data_files(vec![file("a", DataContentType::Data), file("b", DataContentType::Data)])
        .delete_files(vec![file("r", DataContentType::Data)])
        .commit_as(ID);
    assert_eq!(twice.added_data_files, once.added_data_files);
    assert_eq!(twice.removed_data_files, once.removed_data_files);
}

#[test]
fn the_plan_leaves_the_action_as_it_is() {
    let action = RewriteFilesAction::new().add_data_files(vec![file("a", DataContentType::Data)]);
    assert_eq!(action.commit_as(ID).added_data_files, action.commit_as(ID).added_data_files);
    assert_eq!(action.commit().added_data_files.len(), 1);
}

#[test]
fn properties_set_how_manifests_are_merged() {
    let mut action = RewriteFilesAction::new();
    action
        .set_snapshot_properties(properties(&[
            ("commit.manifest.target-size-bytes", "4096"),
            ("commit.manifest.min-count-to-merge", "+7"),
            ("commit.manifest-merge.enabled", "true"),
            ("owner", "compaction"),
        ]))
        .set_commit_uuid(ID);
    let plan = action.commit();
    assert_eq!(plan.commit_uuid, ID);
    assert_eq!(
        plan.manifest_process,
        ManifestProcess::Merge { target_size_bytes: 4096, min_count_to_merge: 7 }
    );
    assert_eq!(plan.snapshot_properties.len(), 4);
    assert_eq!(plan.snapshot_properties.get("owner"), Some(&"compaction".to_string()));
}

#[test]
fn properties_without_settings_leave_the_defaults() {
    let settings = MergeSettings::from_properties(&properties(&[("owner", "compaction")]));
    assert_eq!(settings, MergeSettings::default());
    assert_eq!(settings.target_size_bytes, 8388608);
    assert_eq!(settings.min_count_to_merge, 100);
    assert!(!settings.merge_enabled);
}

#[test]
fn malformed_properties_leave_the_defaults() {
    for text in ["", "+", "-1", "-0", " 5", "5 ", "1_000", "4294967296", "ten", "0x10", "++1"] {
        let settings = MergeSettings::from_properties(&properties(&[
            ("commit.manifest.target-size-bytes", text),
            ("commit.manifest.min-count-to-merge", text),
            ("commit.manifest-merge.enabled", text),
        ]));
        assert_eq!(settings, MergeSettings::default(), "{}", text);
    }
    for text in ["TRUE", "True", "1", "yes", " true", "false"] {
        let settings =
            MergeSettings::from_properties(&properties(&[("commit.manifest-merge.enabled", text)]));
        assert!(!settings.merge_enabled, "{}", text);
    }
}

#[test]
fn the_largest_number_and_leading_zeros_are_read() {
    let settings = MergeSettings::from_properties(&properties(&[
        ("commit.manifest.target-size-bytes", "4294967295"),
        ("commit.manifest.min-count-to-merge", "00012"),
    ]));
    assert_eq!(settings.target_size_bytes, u32::MAX);
    assert_eq!(settings.min_count_to_merge, 12);
}

#[test]
fn the_last_properties_count() {
    let mut action = RewriteFilesAction::new();
    action.set_snapshot_properties(properties(&[
        ("commit.manifest-merge.enabled", "true"),
        ("owner", "first"),
    ]));
    action.set_snapshot_properties(properties(&[("job", "second")]));
    let plan = action.commit_as(ID);
    assert_eq!(plan.manifest_process, ManifestProcess::Default);
    assert_eq!(plan.snapshot_properties.len(), 1);
    assert_eq!(plan.snapshot_properties.get("owner"), None);
}

#[test]
fn removed_files_are_found_by_path_and_kind() {
    let plan = RewriteFilesAction::new()
        .delete_files(vec![
            file("d", DataContentType::Data),
            file("p", DataContentType::PositionDeletes),
            file("e", DataContentType::EqualityDeletes),
        ])
        .commit_as(ID);
    let removed = RemovedPaths::collect(&plan.removed_data_files, &plan.removed_delete_files);
    let is_removed = |entry: &ManifestEntry| {
        is_removed_file(entry, &removed.data_file_paths, &removed.delete_file_paths)
    };
    assert!(is_removed(&entry("d", DataContentType::Data)));
    assert!(is_removed(&entry("p", DataContentType::PositionDeletes)));
    assert!(is_removed(&entry("e", DataContentType::PositionDeletes)));
    assert!(!is_removed(&entry("d", DataContentType::PositionDeletes)));
    assert!(!is_removed(&entry("p", DataContentType::Data)));
    assert!(!is_removed(&entry("other", DataContentType::Data)));
    assert!(removed.contains_path(&entry("d", DataContentType::PositionDeletes)));
    assert!(removed.contains_path(&entry("p", DataContentType::Data)));
    assert!(!removed.contains_path(&entry("other", DataContentType::Data)));
}
