//! The transaction action that rewrites files.
use std::sync::Arc;
use uuid::Uuid;
use vstd::hash_map::StringHashMap;
use vstd::prelude::*;

use crate::metadata::data_file::{DataContentType, DataFile};
use crate::seqs::lemma_filter_map_take_succ;
use crate::transaction::properties::{merge_settings, MergeSettings};

verus! {

/// The type `Uuid` of the crate `uuid`: an identifier that is passed on and never looked into.
#[verifier::external_type_specification]
#[verifier::external_body]
pub struct ExUuid(uuid::Uuid);

/// `Uuid::now_v7` of the crate `uuid` makes a fresh identifier out of the clock and random bits.
/// Nothing is claimed of the result: it differs from call to call, and its version and ordering,
/// which that crate promises, are inside a value that is never looked into here. It panics where
/// the clock stands before the Unix epoch or no random bytes can be had, whatever the caller does.
pub assume_specification[ uuid::Uuid::now_v7 ]() -> (id: uuid::Uuid);

/// Whether a file holds rows.
pub open spec fn holds_data() -> spec_fn(DataFile) -> bool {
    |file: DataFile| file.content == DataContentType::Data
}

/// Whether a file holds deletes.
pub open spec fn holds_deletes() -> spec_fn(DataFile) -> bool {
    |file: DataFile| file.content != DataContentType::Data
}

/// What a rewrite of files is asked to do.
#[verifier::ext_equal]
pub struct RewriteRequest {
    pub merge_settings: MergeSettings,
    pub commit_uuid: Option<Uuid>,
    pub key_metadata: Option<Seq<u8>>,
    pub snapshot_properties: Map<Seq<char>, String>,
    pub added_data_files: Seq<DataFile>,
    pub added_delete_files: Seq<DataFile>,
    pub removed_data_files: Seq<DataFile>,
    pub removed_delete_files: Seq<DataFile>,
    pub snapshot_id: Option<i64>,
    pub new_data_file_sequence_number: Option<i64>,
    pub target_branch: Option<String>,
    pub enable_delete_filter_manager: bool,
    pub check_file_existence: bool,
    pub use_concurrent_manifest_loading: bool,
}

impl RewriteRequest {
    /// A request to do nothing, with default settings.
    pub open spec fn nothing() -> Self {
        RewriteRequest {
            merge_settings: merge_settings(Map::empty()),
            commit_uuid: None,
            key_metadata: None,
            snapshot_properties: Map::empty(),
            added_data_files: Seq::empty(),
            added_delete_files: Seq::empty(),
            removed_data_files: Seq::empty(),
            removed_delete_files: Seq::empty(),
            snapshot_id: None,
            new_data_file_sequence_number: None,
            target_branch: None,
            enable_delete_filter_manager: false,
            check_file_existence: false,
            use_concurrent_manifest_loading: true,
        }
    }

    /// The request with more files to add.
    pub open spec fn with_added(self, files: Seq<DataFile>) -> Self {
        RewriteRequest {
            added_data_files: self.added_data_files + files.filter(holds_data()),
            added_delete_files: self.added_delete_files + files.filter(holds_deletes()),
            ..self
        }
    }

    /// The request with more files to remove.
    pub open spec fn with_removed(self, files: Seq<DataFile>) -> Self {
        RewriteRequest {
            removed_data_files: self.removed_data_files + files.filter(holds_data()),
            removed_delete_files: self.removed_delete_files + files.filter(holds_deletes()),
            ..self
        }
    }

    /// The request with other properties, and the settings that they ask for.
    pub open spec fn with_properties(self, properties: Map<Seq<char>, String>) -> Self {
        RewriteRequest {
            merge_settings: merge_settings(properties),
            snapshot_properties: properties,
            ..self
        }
    }
}

/// Transaction action for rewriting files.
pub struct RewriteFilesAction {
    merge_settings: MergeSettings,
    commit_uuid: Option<Uuid>,
    key_metadata: Option<Vec<u8>>,
    snapshot_properties: Arc<StringHashMap<String>>,
    added_data_files: Vec<DataFile>,
    added_delete_files: Vec<DataFile>,
    removed_data_files: Vec<DataFile>,
    removed_delete_files: Vec<DataFile>,
    snapshot_id: Option<i64>,
    new_data_file_sequence_number: Option<i64>,
    target_branch: Option<String>,
    enable_delete_filter_manager: bool,
    check_file_existence: bool,
    use_concurrent_manifest_loading: bool,
}

impl View for RewriteFilesAction {
    type V = RewriteRequest;

    closed spec fn view(&self) -> RewriteRequest {
        RewriteRequest {
            merge_settings: self.merge_settings,
            commit_uuid: self.commit_uuid,
            key_metadata: bytes_of(self.key_metadata),
            snapshot_properties: self.snapshot_properties@,
            added_data_files: self.added_data_files@,
            added_delete_files: self.added_delete_files@,
            removed_data_files: self.removed_data_files@,
            removed_delete_files: self.removed_delete_files@,
            snapshot_id: self.snapshot_id,
            new_data_file_sequence_number: self.new_data_file_sequence_number,
            target_branch: self.target_branch,
            enable_delete_filter_manager: self.enable_delete_filter_manager,
            check_file_existence: self.check_file_existence,
            use_concurrent_manifest_loading: self.use_concurrent_manifest_loading,
        }
    }
}

/// The bytes in an optional vector.
pub open spec fn bytes_of(bytes: Option<Vec<u8>>) -> Option<Seq<u8>> {
    match bytes {
        Some(bytes) => Some(bytes@),
        None => None,
    }
}

impl RewriteFilesAction {
    /// An action that does nothing yet. Manifests are loaded concurrently.
    pub fn new() -> (action: Self)
        ensures
            action@ == RewriteRequest::nothing(),
    {
        RewriteFilesAction {
            merge_settings: MergeSettings::default(),
            commit_uuid: None,
            key_metadata: None,
            snapshot_properties: Arc::new(StringHashMap::new()),
            added_data_files: Vec::new(),
            added_delete_files: Vec::new(),
            removed_data_files: Vec::new(),
            removed_delete_files: Vec::new(),
            snapshot_id: None,
            new_data_file_sequence_number: None,
            target_branch: None,
            enable_delete_filter_manager: false,
            check_file_existence: false,
            use_concurrent_manifest_loading: true,
        }
    }

    /// Adds files to the snapshot. Data files and delete files are kept apart.
    pub fn add_data_files(self, data_files: Vec<DataFile>) -> (action: Self)
        ensures
            action@ == self@.with_added(data_files@),
    {
        let mut action = self;
        let ghost files = data_files@;
        proof {
            reveal(Seq::filter);
        }
        for file in iter: data_files
            invariant
                iter.seq() == files,
                action@ =~= self@.with_added(files.take(iter.index() as int)),
        {
            proof {
                lemma_filter_map_take_succ(files, iter.index() as int, holds_data(), |f: DataFile| f);
                lemma_filter_map_take_succ(
                    files,
                    iter.index() as int,
                    holds_deletes(),
                    |f: DataFile| f,
                );
            }
            match file.content_type() {
                DataContentType::Data => action.added_data_files.push(file),
                DataContentType::PositionDeletes => action.added_delete_files.push(file),
                DataContentType::EqualityDeletes => action.added_delete_files.push(file),
            }
        }
        assert(files.take(files.len() as int) =~= files);
        action
    }

    /// Removes files from the snapshot. Data files and delete files are kept apart.
    pub fn delete_files(self, remove_data_files: Vec<DataFile>) -> (action: Self)
        ensures
            action@ == self@.with_removed(remove_data_files@),
    {
        let mut action = self;
        let ghost files = remove_data_files@;
        proof {
            reveal(Seq::filter);
        }
        for file in iter: remove_data_files
            invariant
                iter.seq() == files,
                action@ =~= self@.with_removed(files.take(iter.index() as int)),
        {
            proof {
                lemma_filter_map_take_succ(files, iter.index() as int, holds_data(), |f: DataFile| f);
                lemma_filter_map_take_succ(
                    files,
                    iter.index() as int,
                    holds_deletes(),
                    |f: DataFile| f,
                );
            }
            match file.content_type() {
                DataContentType::Data => action.removed_data_files.push(file),
                DataContentType::PositionDeletes => action.removed_delete_files.push(file),
                DataContentType::EqualityDeletes => action.removed_delete_files.push(file),
            }
        }
        assert(files.take(files.len() as int) =~= files);
        action
    }

    /// Sets the properties of the snapshot, and with them how manifests are merged.
    pub fn set_snapshot_properties(&mut self, properties: StringHashMap<String>) -> (action:
        &mut Self)
        ensures
            action@ == old(self)@.with_properties(properties@),
            *final(self) == *final(action),
    {
        self.merge_settings = MergeSettings::from_properties(&properties);
        self.snapshot_properties = Arc::new(properties);
        self
    }

    /// Set commit UUID for the snapshot.
    pub fn set_commit_uuid(&mut self, commit_uuid: Uuid) -> (action: &mut Self)
        ensures
            action@ == (RewriteRequest { commit_uuid: Some(commit_uuid), ..old(self)@ }),
            *final(self) == *final(action),
    {
        self.commit_uuid = Some(commit_uuid);
        self
    }

    /// Enable delete filter manager for this snapshot.
    /// By default, delete filter manager is disabled.
    pub fn set_enable_delete_filter_manager(
        self,
        enable_delete_filter_manager: bool,
    ) -> (action: Self)
        ensures
            action@ == (RewriteRequest { enable_delete_filter_manager, ..self@ }),
    {
        RewriteFilesAction { enable_delete_filter_manager, ..self }
    }

    /// Set key metadata for manifest files.
    pub fn set_key_metadata(self, key_metadata: Vec<u8>) -> (action: Self)
        ensures
            action@ == (RewriteRequest { key_metadata: Some(key_metadata@), ..self@ }),
    {
        RewriteFilesAction { key_metadata: Some(key_metadata), ..self }
    }

    /// Set snapshot id
    pub fn set_snapshot_id(self, snapshot_id: i64) -> (action: Self)
        ensures
            action@ == (RewriteRequest { snapshot_id: Some(snapshot_id), ..self@ }),
    {
        RewriteFilesAction { snapshot_id: Some(snapshot_id), ..self }
    }

    /// Sets the branch that the snapshot is made on.
    pub fn set_target_branch(self, target_branch: String) -> (action: Self)
        ensures
            action@ == (RewriteRequest { target_branch: Some(target_branch), ..self@ }),
    {
        RewriteFilesAction { target_branch: Some(target_branch), ..self }
    }

    /// Gives new data files this sequence number, that of the snapshot that a compaction started
    /// from, in place of the number of the new snapshot. This avoids commit conflicts with updates
    /// that add newer equality deletes at a higher sequence number.
    pub fn set_new_data_file_sequence_number(self, seq: i64) -> (action: Self)
        ensures
            action@ == (RewriteRequest { new_data_file_sequence_number: Some(seq), ..self@ }),
    {
        RewriteFilesAction { new_data_file_sequence_number: Some(seq), ..self }
    }

    /// Sets whether the changes to files are checked before the commit.
    pub fn set_check_file_existence(self, check: bool) -> (action: Self)
        ensures
            action@ == (RewriteRequest { check_file_existence: check, ..self@ }),
    {
        RewriteFilesAction { check_file_existence: check, ..self }
    }

    /// Enable or disable concurrent manifest loading.
    ///
    /// When enabled (default), all manifests are loaded at once, which helps tables with many
    /// manifest files. Set to `false` to load them one after the other.
    pub fn set_use_concurrent_manifest_loading(self, use_concurrent: bool) -> (action: Self)
        ensures
            action@ == (RewriteRequest { use_concurrent_manifest_loading: use_concurrent, ..self@ }),
    {
        RewriteFilesAction { use_concurrent_manifest_loading: use_concurrent, ..self }
    }
}

impl Default for RewriteFilesAction {
    fn default() -> (action: Self)
        ensures
            action@ == RewriteRequest::nothing(),
    {
        Self::new()
    }
}

/// How the manifests of the table are loaded.
#[derive(Clone, Copy, PartialEq, Eq, Structural, Debug)]
pub enum ManifestLoading {
    /// One after the other.
    Sequential,
    /// All at once.
    Concurrent,
}

/// What happens to the manifests of the new snapshot.
#[derive(Clone, Copy, PartialEq, Eq, Structural, Debug)]
pub enum ManifestProcess {
    /// They are left as they are.
    Default,
    /// Small ones are merged.
    Merge { target_size_bytes: u32, min_count_to_merge: u32 },
}

/// What is to be committed, and how.
pub struct CommitPlan {
    pub commit_uuid: Uuid,
    pub key_metadata: Option<Vec<u8>>,
    pub snapshot_id: Option<i64>,
    pub snapshot_properties: Arc<StringHashMap<String>>,
    pub added_data_files: Vec<DataFile>,
    pub added_delete_files: Vec<DataFile>,
    pub removed_data_files: Vec<DataFile>,
    pub removed_delete_files: Vec<DataFile>,
    /// The sequence number for new data files; `None` for that of the new snapshot.
    pub new_data_file_sequence_number: Option<i64>,
    /// The branch that the snapshot is made on; `None` for the main branch.
    pub target_branch: Option<String>,
    pub enable_delete_filter_manager: bool,
    /// Whether the changes to files are to be checked before anything else happens.
    pub validate_data_file_changes: bool,
    pub manifest_loading: ManifestLoading,
    pub manifest_process: ManifestProcess,
}

impl CommitPlan {
    /// Whether the plan is what a request asks for, under an identifier.
    pub open spec fn carries_out(self, request: RewriteRequest, commit_uuid: Uuid) -> bool {
        &&& self.commit_uuid == commit_uuid
        &&& bytes_of(self.key_metadata) == request.key_metadata
        &&& self.snapshot_id == request.snapshot_id
        &&& self.snapshot_properties@ == request.snapshot_properties
        &&& self.added_data_files@ == request.added_data_files
        &&& self.added_delete_files@ == request.added_delete_files
        &&& self.removed_data_files@ == request.removed_data_files
        &&& self.removed_delete_files@ == request.removed_delete_files
        &&& self.new_data_file_sequence_number == request.new_data_file_sequence_number
        &&& self.target_branch == request.target_branch
        &&& self.enable_delete_filter_manager == request.enable_delete_filter_manager
        &&& self.validate_data_file_changes == request.check_file_existence
        &&& self.manifest_loading == if request.use_concurrent_manifest_loading {
            ManifestLoading::Concurrent
        } else {
            ManifestLoading::Sequential
        }
        &&& self.manifest_process == if request.merge_settings.merge_enabled {
            ManifestProcess::Merge {
                target_size_bytes: request.merge_settings.target_size_bytes,
                min_count_to_merge: request.merge_settings.min_count_to_merge,
            }
        } else {
            ManifestProcess::Default
        }
    }
}

impl RewriteFilesAction {
    /// What the action commits: under its own identifier, or a fresh one where it has none.
    ///
    /// Drawing a fresh identifier panics where the clock of the machine stands before the Unix epoch
    /// or its source of random bytes fails. [`RewriteFilesAction::commit_as`] draws none, and does
    /// not panic.
    pub fn commit(&self) -> (plan: CommitPlan)
        ensures
            plan.carries_out(self@, plan.commit_uuid),
            self@.commit_uuid matches Some(id) ==> plan.commit_uuid == id,
    {
        match self.commit_uuid {
            Some(commit_uuid) => self.commit_as(commit_uuid),
            None => self.commit_as(Uuid::now_v7()),
        }
    }

    /// What the action commits under a given identifier.
    pub fn commit_as(&self, commit_uuid: Uuid) -> (plan: CommitPlan)
        ensures
            plan.carries_out(self@, commit_uuid),
    {
        let key_metadata = match &self.key_metadata {
            Some(bytes) => Some(copy_bytes(bytes)),
            None => None,
        };
        let target_branch = match &self.target_branch {
            Some(branch) => Some(branch.clone()),
            None => None,
        };
        let manifest_loading = if self.use_concurrent_manifest_loading {
            ManifestLoading::Concurrent
        } else {
            ManifestLoading::Sequential
        };
        let manifest_process = if self.merge_settings.merge_enabled {
            ManifestProcess::Merge {
                target_size_bytes: self.merge_settings.target_size_bytes,
                min_count_to_merge: self.merge_settings.min_count_to_merge,
            }
        } else {
            ManifestProcess::Default
        };
        CommitPlan {
            commit_uuid,
            key_metadata,
            snapshot_id: self.snapshot_id,
            snapshot_properties: self.snapshot_properties.clone(),
            added_data_files: copy_files(&self.added_data_files),
            added_delete_files: copy_files(&self.added_delete_files),
            removed_data_files: copy_files(&self.removed_data_files),
            removed_delete_files: copy_files(&self.removed_delete_files),
            new_data_file_sequence_number: self.new_data_file_sequence_number,
            target_branch,
            enable_delete_filter_manager: self.enable_delete_filter_manager,
            validate_data_file_changes: self.check_file_existence,
            manifest_loading,
            manifest_process,
        }
    }
}

fn copy_bytes(bytes: &Vec<u8>) -> (copy: Vec<u8>)
    ensures
        copy@ == bytes@,
{
    let copy = bytes.clone();
    assert(copy@ =~= bytes@);
    copy
}

fn copy_files(files: &Vec<DataFile>) -> (copy: Vec<DataFile>)
    ensures
        copy@ == files@,
{
    let copy = files.clone();
    assert(copy@ =~= files@);
    copy
}

} // verus!
