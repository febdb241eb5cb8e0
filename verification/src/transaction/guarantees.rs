//! What the action that rewrites files promises, said of inputs and results alone.
use uuid::Uuid;
use vstd::hash_map::StringHashMap;
use vstd::hash_set::StringHashSet;
use vstd::prelude::*;

use crate::metadata::data_file::{DataContentType, DataFile};
use crate::metadata::manifest::ManifestEntry;
use crate::transaction::properties::{
    decimal_value, is_decimal, is_digit, parsed_bool, parsed_u32, MergeSettings,
};
use crate::transaction::removed_paths::{is_removed_file, RemovedPaths};
use crate::transaction::rewrite_files::{
    holds_data, holds_deletes, CommitPlan, ManifestLoading, ManifestProcess, RewriteFilesAction,
    RewriteRequest,
};

verus! {

/// Whether a request asks for nothing, with the defaults: no merging, concurrent loading, and
/// neither validation nor a delete filter manager.
pub open spec fn asks_for_nothing(request: RewriteRequest) -> bool {
    &&& request.added_data_files.len() == 0
    &&& request.added_delete_files.len() == 0
    &&& request.removed_data_files.len() == 0
    &&& request.removed_delete_files.len() == 0
    &&& request.commit_uuid is None
    &&& request.key_metadata is None
    &&& request.snapshot_properties == Map::<Seq<char>, String>::empty()
    &&& request.snapshot_id is None
    &&& request.new_data_file_sequence_number is None
    &&& request.target_branch is None
    &&& !request.enable_delete_filter_manager
    &&& !request.check_file_existence
    &&& request.use_concurrent_manifest_loading
    &&& request.merge_settings.target_size_bytes == 8388608
    &&& request.merge_settings.min_count_to_merge == 100
    &&& !request.merge_settings.merge_enabled
}

/// A new action asks for nothing.
pub proof fn law_new_actions_ask_for_nothing(one: RewriteFilesAction, other: RewriteFilesAction)
    requires
        call_ensures(RewriteFilesAction::new, (), one),
        call_ensures(<RewriteFilesAction as Default>::default, (), other),
    ensures
        asks_for_nothing(one@),
        asks_for_nothing(other@),
{
}

/// Files that are added go behind those added before, data files among data files and delete files
/// among delete files, all of them and in order. Nothing else changes.
pub proof fn law_adding_files_adds_them(
    before: RewriteFilesAction,
    files: Vec<DataFile>,
    after: RewriteFilesAction,
)
    requires
        call_ensures(RewriteFilesAction::add_data_files, (before, files), after),
    ensures
        after@ == (RewriteRequest {
            added_data_files: before@.added_data_files + files@.filter(
                |f: DataFile| f.content == DataContentType::Data,
            ),
            added_delete_files: before@.added_delete_files + files@.filter(
                |f: DataFile|
                    f.content == DataContentType::PositionDeletes || f.content
                        == DataContentType::EqualityDeletes,
            ),
            ..before@
        }),
{
    lemma_kinds();
}

/// Files that are removed go behind those removed before, data files among data files and delete
/// files among delete files, all of them and in order. Nothing else changes.
pub proof fn law_deleting_files_removes_them(
    before: RewriteFilesAction,
    files: Vec<DataFile>,
    after: RewriteFilesAction,
)
    requires
        call_ensures(RewriteFilesAction::delete_files, (before, files), after),
    ensures
        after@ == (RewriteRequest {
            removed_data_files: before@.removed_data_files + files@.filter(
                |f: DataFile| f.content == DataContentType::Data,
            ),
            removed_delete_files: before@.removed_delete_files + files@.filter(
                |f: DataFile|
                    f.content == DataContentType::PositionDeletes || f.content
                        == DataContentType::EqualityDeletes,
            ),
            ..before@
        }),
{
    lemma_kinds();
}

proof fn lemma_kinds()
    ensures
        holds_data() == (|f: DataFile| f.content == DataContentType::Data),
        holds_deletes() == (|f: DataFile|
            f.content == DataContentType::PositionDeletes || f.content
                == DataContentType::EqualityDeletes),
{
    assert(holds_data() =~= (|f: DataFile| f.content == DataContentType::Data));
    assert(holds_deletes() =~= (|f: DataFile|
        f.content == DataContentType::PositionDeletes || f.content
            == DataContentType::EqualityDeletes));
}

/// A setter sets what it is named after, and nothing else.
pub proof fn law_setters_set_one_thing(
    action: RewriteFilesAction,
    flag: bool,
    key_metadata: Vec<u8>,
    number: i64,
    branch: String,
    managed: RewriteFilesAction,
    keyed: RewriteFilesAction,
    numbered: RewriteFilesAction,
    branched: RewriteFilesAction,
    sequenced: RewriteFilesAction,
    checked: RewriteFilesAction,
    loaded: RewriteFilesAction,
)
    requires
        call_ensures(
            RewriteFilesAction::set_enable_delete_filter_manager,
            (action, flag),
            managed,
        ),
        call_ensures(RewriteFilesAction::set_key_metadata, (action, key_metadata), keyed),
        call_ensures(RewriteFilesAction::set_snapshot_id, (action, number), numbered),
        call_ensures(RewriteFilesAction::set_target_branch, (action, branch), branched),
        call_ensures(
            RewriteFilesAction::set_new_data_file_sequence_number,
            (action, number),
            sequenced,
        ),
        call_ensures(RewriteFilesAction::set_check_file_existence, (action, flag), checked),
        call_ensures(
            RewriteFilesAction::set_use_concurrent_manifest_loading,
            (action, flag),
            loaded,
        ),
    ensures
        managed@ == (RewriteRequest { enable_delete_filter_manager: flag, ..action@ }),
        keyed@ == (RewriteRequest { key_metadata: Some(key_metadata@), ..action@ }),
        numbered@ == (RewriteRequest { snapshot_id: Some(number), ..action@ }),
        branched@ == (RewriteRequest { target_branch: Some(branch), ..action@ }),
        sequenced@ == (RewriteRequest {
            new_data_file_sequence_number: Some(number),
            ..action@
        }),
        checked@ == (RewriteRequest { check_file_existence: flag, ..action@ }),
        loaded@ == (RewriteRequest { use_concurrent_manifest_loading: flag, ..action@ }),
{
}

/// The identifier that is set is the one of the action from then on, and nothing else changes.
pub proof fn law_identifiers_are_set(
    action: &mut RewriteFilesAction,
    commit_uuid: Uuid,
    result: &mut RewriteFilesAction,
)
    requires
        call_ensures(RewriteFilesAction::set_commit_uuid, (action, commit_uuid), result),
    ensures
        old(result)@ == (RewriteRequest { commit_uuid: Some(commit_uuid), ..old(action)@ }),
        *final(action) == *final(result),
{
}

/// Whether merge settings are the ones that properties ask for: each that is named there, and
/// holds a value of its kind, is that value, and every other is its default.
pub open spec fn asked_for(
    settings: MergeSettings,
    properties: Map<Seq<char>, String>,
) -> bool {
    let size = "commit.manifest.target-size-bytes"@;
    let count = "commit.manifest.min-count-to-merge"@;
    let enabled = "commit.manifest-merge.enabled"@;
    &&& properties.contains_key(size) && parsed_u32(properties[size]@) is Some ==> Some(
        settings.target_size_bytes,
    ) == parsed_u32(properties[size]@)
    &&& !(properties.contains_key(size) && parsed_u32(properties[size]@) is Some)
        ==> settings.target_size_bytes == 8388608
    &&& properties.contains_key(count) && parsed_u32(properties[count]@) is Some ==> Some(
        settings.min_count_to_merge,
    ) == parsed_u32(properties[count]@)
    &&& !(properties.contains_key(count) && parsed_u32(properties[count]@) is Some)
        ==> settings.min_count_to_merge == 100
    &&& settings.merge_enabled <==> properties.contains_key(enabled) && properties[enabled]@
        == "true"@
}

/// Merge settings are read from the properties that name them.
pub proof fn law_settings_are_read_from_properties(
    properties: StringHashMap<String>,
    settings: MergeSettings,
    default: MergeSettings,
)
    requires
        call_ensures(MergeSettings::from_properties, (&properties,), settings),
        call_ensures(<MergeSettings as Default>::default, (), default),
    ensures
        asked_for(settings, properties@),
        asked_for(default, Map::empty()),
{
}

/// Setting properties sets them, and the merge settings that they ask for, and nothing else.
pub proof fn law_properties_are_set(
    action: &mut RewriteFilesAction,
    properties: StringHashMap<String>,
    result: &mut RewriteFilesAction,
)
    requires
        call_ensures(RewriteFilesAction::set_snapshot_properties, (action, properties), result),
    ensures
        *final(action) == *final(result),
        asked_for(old(result)@.merge_settings, properties@),
        old(result)@ == (RewriteRequest {
            merge_settings: old(result)@.merge_settings,
            snapshot_properties: properties@,
            ..old(action)@
        }),
{
}

/// A digit denotes itself, and a digit behind a number makes it ten times as large and adds itself,
/// as long as that fits.
pub proof fn law_numbers_are_decimal(text: Seq<char>, c: char)
    requires
        '0' <= c <= '9',
    ensures
        parsed_u32(seq![c]) == Some((c as int - '0' as int) as u32),
        (text.len() > 0 && forall|i: int|
            0 <= i < text.len() ==> '0' <= #[trigger] text[i] <= '9') ==> match parsed_u32(text) {
            Some(n) => parsed_u32(text.push(c)) == if n * 10 + (c as int - '0' as int)
                <= u32::MAX {
                Some((n * 10 + (c as int - '0' as int)) as u32)
            } else {
                None
            },
            None => parsed_u32(text.push(c)) is None,
        },
{
    let one = seq![c];
    assert(one.drop_last() =~= Seq::empty());
    assert(decimal_value(Seq::<char>::empty()) == 0);
    assert(decimal_value(one) == c as int - '0' as int);
    assert forall|i: int| 0 <= i < one.len() implies is_digit(#[trigger] one[i]) by {}
    assert(is_decimal(one));
    let longer = text.push(c);
    if text.len() > 0 && forall|i: int| 0 <= i < text.len() ==> '0' <= #[trigger] text[i] <= '9' {
        assert(longer.drop_last() =~= text);
        assert(decimal_value(longer) == decimal_value(text) * 10 + (c as int - '0' as int));
        assert forall|i: int| 0 <= i < longer.len() implies is_digit(#[trigger] longer[i]) by {
            if i < text.len() {
                assert(longer[i] == text[i]);
            }
        }
        assert(is_decimal(text)) by {
            assert forall|i: int| 0 <= i < text.len() implies is_digit(#[trigger] text[i]) by {}
        }
        assert(is_decimal(longer));
        assert(longer[0] == text[0]);
    }
}

/// A plus sign before digits changes nothing, and any text without digits, or with anything else in
/// it, denotes no number.
pub proof fn law_only_digits_denote_numbers(text: Seq<char>)
    ensures
        (text.len() > 0 && '0' <= text[0] <= '9') ==> parsed_u32(seq!['+'] + text) == parsed_u32(
            text,
        ),
        text.len() == 0 ==> parsed_u32(text) is None && parsed_u32(seq!['+'] + text) is None,
        (exists|i: int|
            0 <= i < text.len() && !('0' <= #[trigger] text[i] <= '9') && (i > 0 || text[0]
                != '+')) ==> parsed_u32(text) is None,
{
    let signed = seq!['+'] + text;
    assert(signed.drop_first() =~= text);
    if exists|i: int|
        0 <= i < text.len() && !('0' <= #[trigger] text[i] <= '9') && (i > 0 || text[0] != '+') {
        let i = choose|i: int|
            0 <= i < text.len() && !('0' <= #[trigger] text[i] <= '9') && (i > 0 || text[0]
                != '+');
        if text[0] == '+' {
            assert(text.drop_first()[i - 1] == text[i]);
            assert(!is_digit(text.drop_first()[i - 1]));
        } else {
            assert(!is_digit(text[i]));
        }
    }
}

/// Only two words denote truth values.
pub proof fn law_only_two_words_denote_truth_values(text: Seq<char>)
    ensures
        parsed_bool(text) == Some(true) <==> text == "true"@,
        parsed_bool(text) == Some(false) <==> text == "false"@,
{
    reveal_strlit("true");
    reveal_strlit("false");
    assert("true"@.len() != "false"@.len());
}

/// Whether a plan commits exactly what a request asks for.
pub open spec fn commits(plan: CommitPlan, request: RewriteRequest) -> bool {
    &&& plan.added_data_files@ == request.added_data_files
    &&& plan.added_delete_files@ == request.added_delete_files
    &&& plan.removed_data_files@ == request.removed_data_files
    &&& plan.removed_delete_files@ == request.removed_delete_files
    &&& plan.snapshot_properties@ == request.snapshot_properties
    &&& plan.snapshot_id == request.snapshot_id
    &&& plan.new_data_file_sequence_number == request.new_data_file_sequence_number
    &&& plan.target_branch == request.target_branch
    &&& plan.enable_delete_filter_manager == request.enable_delete_filter_manager
    &&& plan.validate_data_file_changes == request.check_file_existence
    &&& plan.key_metadata is Some <==> request.key_metadata is Some
    &&& plan.key_metadata matches Some(bytes) ==> bytes@ == request.key_metadata->0
    &&& plan.manifest_loading == ManifestLoading::Concurrent
        <==> request.use_concurrent_manifest_loading
    &&& plan.manifest_process == ManifestProcess::Default <==> !request.merge_settings.merge_enabled
    &&& plan.manifest_process matches ManifestProcess::Merge {
        target_size_bytes,
        min_count_to_merge,
    } ==> {
        &&& target_size_bytes == request.merge_settings.target_size_bytes
        &&& min_count_to_merge == request.merge_settings.min_count_to_merge
    }
}

/// An action commits exactly what it asks for, under its own identifier if it has one, or under
/// the one that it is given.
pub proof fn law_actions_commit_what_they_ask_for(
    action: RewriteFilesAction,
    commit_uuid: Uuid,
    plan: CommitPlan,
    given: CommitPlan,
)
    requires
        call_ensures(RewriteFilesAction::commit, (&action,), plan),
        call_ensures(RewriteFilesAction::commit_as, (&action, commit_uuid), given),
    ensures
        commits(plan, action@),
        commits(given, action@),
        action@.commit_uuid is Some ==> Some(plan.commit_uuid) == action@.commit_uuid,
        given.commit_uuid == commit_uuid,
{
}

/// The collected paths are those of the files, data files apart from delete files.
pub proof fn law_paths_are_those_of_the_files(
    data_files: Vec<DataFile>,
    delete_files: Vec<DataFile>,
    paths: RemovedPaths,
    path: Seq<char>,
)
    requires
        call_ensures(RemovedPaths::collect, (&data_files, &delete_files), paths),
    ensures
        paths.data_file_paths@.contains(path) <==> exists|i: int|
            0 <= i < data_files@.len() && #[trigger] data_files@[i].file_path@ == path,
        paths.delete_file_paths@.contains(path) <==> exists|i: int|
            0 <= i < delete_files@.len() && #[trigger] delete_files@[i].file_path@ == path,
{
    assert(paths@.data_file_paths == paths.data_file_paths@);
    assert(paths@.delete_file_paths == paths.delete_file_paths@);
}

/// Removed paths are seen as what they are: the paths of data files and those of delete files.
pub proof fn law_removed_paths_are_seen_as_they_are(paths: RemovedPaths)
    ensures
        paths@.data_file_paths == paths.data_file_paths@,
        paths@.delete_file_paths == paths.delete_file_paths@,
{
}

/// The path of an entry is removed if it is among either paths. The file of an entry is removed if
/// its path is among those for what it holds.
pub proof fn law_removed_files_are_told_by_path(
    paths: RemovedPaths,
    entry: ManifestEntry,
    data_paths: StringHashSet,
    delete_paths: StringHashSet,
    has_path: bool,
    has_file: bool,
)
    requires
        call_ensures(RemovedPaths::contains_path, (&paths, &entry), has_path),
        call_ensures(is_removed_file, (&entry, &data_paths, &delete_paths), has_file),
    ensures
        has_path <==> paths.data_file_paths@.contains(entry.data_file.file_path@)
            || paths.delete_file_paths@.contains(entry.data_file.file_path@),
        has_file <==> if entry.data_file.content == DataContentType::Data {
            data_paths@.contains(entry.data_file.file_path@)
        } else {
            delete_paths@.contains(entry.data_file.file_path@)
        },
{
}

/// Every action, file, property and path is accepted.
pub proof fn law_every_action_can_be_made(
    action: RewriteFilesAction,
    changed: &mut RewriteFilesAction,
    files: Vec<DataFile>,
    other_files: Vec<DataFile>,
    properties: StringHashMap<String>,
    commit_uuid: Uuid,
    paths: RemovedPaths,
    entry: ManifestEntry,
)
    ensures
        call_requires(RewriteFilesAction::new, ()),
        call_requires(RewriteFilesAction::add_data_files, (action, files)),
        call_requires(RewriteFilesAction::delete_files, (action, files)),
        call_requires(RewriteFilesAction::set_snapshot_properties, (changed, properties)),
        call_requires(RewriteFilesAction::set_commit_uuid, (changed, commit_uuid)),
        call_requires(RewriteFilesAction::commit, (&action,)),
        call_requires(RewriteFilesAction::commit_as, (&action, commit_uuid)),
        call_requires(MergeSettings::from_properties, (&properties,)),
        call_requires(RemovedPaths::collect, (&files, &other_files)),
        call_requires(RemovedPaths::contains_path, (&paths, &entry)),
        call_requires(
            is_removed_file,
            (&entry, &paths.data_file_paths, &paths.delete_file_paths),
        ),
{
}

} // verus!
