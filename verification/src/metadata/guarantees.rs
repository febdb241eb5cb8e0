//! What the accessors and copies of metadata promise, said of inputs and results alone.
use vstd::prelude::*;

use crate::error::{Error, ErrorKind};
use crate::metadata::data_file::{DataContentType, DataFile};
use crate::metadata::manifest::{ManifestEntry, ManifestFile, ManifestStatus};

verus! {

/// An entry is alive exactly if it does not say that its file was deleted.
pub proof fn law_only_deleted_entries_are_dead(entry: ManifestEntry, alive: bool)
    ensures
        entry.alive() <==> entry.status == ManifestStatus::Added || entry.status
            == ManifestStatus::Existing,
        call_requires(ManifestEntry::is_alive, (&entry,)),
        call_ensures(ManifestEntry::is_alive, (&entry,), alive) ==> (alive <==> entry.status
            != ManifestStatus::Deleted),
{
}

/// An entry has the content and the path of its file.
pub proof fn law_entries_speak_of_their_files(
    entry: ManifestEntry,
    content: DataContentType,
    path: &str,
    file_content: DataContentType,
    file_path: &str,
)
    requires
        call_ensures(ManifestEntry::content_type, (&entry,), content),
        call_ensures(ManifestEntry::file_path, (&entry,), path),
        call_ensures(DataFile::content_type, (&*entry.data_file,), file_content),
        call_ensures(DataFile::file_path, (&*entry.data_file,), file_path),
    ensures
        content == entry.data_file.content,
        file_content == entry.data_file.content,
        path@ == entry.data_file.file_path@,
        file_path@ == entry.data_file.file_path@,
{
}

/// A copy is the same as what it was made of.
pub proof fn law_copies_are_the_same(
    file: DataFile,
    file_copy: DataFile,
    manifest_file: ManifestFile,
    manifest_file_copy: ManifestFile,
)
    requires
        call_ensures(<DataFile as Clone>::clone, (&file,), file_copy),
        call_ensures(<ManifestFile as Clone>::clone, (&manifest_file,), manifest_file_copy),
    ensures
        file_copy == file,
        manifest_file_copy == manifest_file,
{
}

/// An error has the kind and the message that it is made with.
pub proof fn law_errors_say_what_they_are_told(
    kind: ErrorKind,
    message: &str,
    error: Error,
    told: ErrorKind,
)
    requires
        call_ensures(Error::new, (kind, message), error),
        call_ensures(Error::kind, (&error,), told),
    ensures
        error.kind == kind,
        told == kind,
        error.message@ == message@,
{
}

} // verus!
