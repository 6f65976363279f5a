//! Run configuration: where the inbox and the archive roots live, how
//! long a duplicate hash suffix is, and what to do when a target path
//! already exists.

use vstd::prelude::*;
use vstd::string::*;
use crate::pathstr::join_spec;
use crate::pathstr::path_join;

verus! {

/// What happens when the computed target path already exists.
#[derive(Debug, Clone)]
pub enum DuplicateHandling {
    Skip,
    AppendHash,
    Overwrite,
    Error,
}

/// Configuration of one media-processing run over a fixed inbox and
/// media root.
#[derive(Debug)]
pub struct ProcessingConfig {
    pub inbox_path: String,
    pub media_root: String,
    pub hash_length: usize,
    pub handle_duplicates: DuplicateHandling,
    pub skip_unsupported_files: bool,
    pub create_backup: bool,
}

/// Configuration of a whole life-directory run; the inbox, media root,
/// documents root and tag file all live under one root.
#[derive(Debug)]
pub struct LifeConfig {
    pub life_path: String,
    pub hash_length: usize,
    pub handle_duplicates: DuplicateHandling,
    pub skip_unsupported_files: bool,
    pub create_backup: bool,
}

impl ProcessingConfig {
    /// The default run configuration: six hash characters, hash-suffix
    /// duplicate handling, unsupported files skipped silently.
    pub fn new(inbox_path: String, media_root: String) -> (r: Self)
        ensures
            r.inbox_path == inbox_path,
            r.media_root == media_root,
            r.hash_length == 6,
            r.handle_duplicates is AppendHash,
            r.skip_unsupported_files,
            !r.create_backup,
    {
        ProcessingConfig {
            inbox_path,
            media_root,
            hash_length: 6,
            handle_duplicates: DuplicateHandling::AppendHash,
            skip_unsupported_files: true,
            create_backup: false,
        }
    }

    /// The same configuration with another hash-suffix length.
    pub fn with_hash_length(self, length: usize) -> (r: Self)
        ensures
            r == (ProcessingConfig { hash_length: length, ..self }),
    {
        ProcessingConfig { hash_length: length, ..self }
    }

    /// The same configuration with another duplicate policy.
    pub fn with_duplicate_handling(self, handling: DuplicateHandling) -> (r: Self)
        ensures
            r == (ProcessingConfig { handle_duplicates: handling, ..self }),
    {
        ProcessingConfig { handle_duplicates: handling, ..self }
    }

    /// The same configuration with backups switched on or off.
    pub fn with_backup(self, create_backup: bool) -> (r: Self)
        ensures
            r == (ProcessingConfig { create_backup, ..self }),
    {
        ProcessingConfig { create_backup, ..self }
    }

    /// The same configuration, choosing whether unsupported files are
    /// skipped silently or reported.
    pub fn skip_unsupported(self, skip: bool) -> (r: Self)
        ensures
            r == (ProcessingConfig { skip_unsupported_files: skip, ..self }),
    {
        ProcessingConfig { skip_unsupported_files: skip, ..self }
    }
}

impl LifeConfig {
    /// The default life-directory configuration under `life_path`.
    pub fn new(life_path: String) -> (r: Self)
        ensures
            r.life_path == life_path,
            r.hash_length == 6,
            r.handle_duplicates is AppendHash,
            r.skip_unsupported_files,
            !r.create_backup,
    {
        LifeConfig {
            life_path,
            hash_length: 6,
            handle_duplicates: DuplicateHandling::AppendHash,
            skip_unsupported_files: true,
            create_backup: false,
        }
    }

    /// Where unsorted files arrive.
    pub fn inbox_path(&self) -> (r: String)
        ensures
            r@ == join_spec(self.life_path@, "inbox"@),
    {
        path_join(self.life_path.as_str(), "inbox")
    }

    /// The root of the dated media archive.
    pub fn media_root(&self) -> (r: String)
        ensures
            r@ == join_spec(self.life_path@, "media"@),
    {
        path_join(self.life_path.as_str(), "media")
    }

    /// The root of the dated documents archive.
    pub fn documents_root(&self) -> (r: String)
        ensures
            r@ == join_spec(self.life_path@, "documents"@),
    {
        path_join(self.life_path.as_str(), "documents")
    }

    /// Where the tag dictionary is persisted.
    pub fn tags_file(&self) -> (r: String)
        ensures
            r@ == join_spec(join_spec(self.life_path@, "documents"@), "tags.txt"@),
    {
        path_join(self.documents_root().as_str(), "tags.txt")
    }

    /// The same configuration with another hash-suffix length.
    pub fn with_hash_length(self, length: usize) -> (r: Self)
        ensures
            r == (LifeConfig { hash_length: length, ..self }),
    {
        LifeConfig { hash_length: length, ..self }
    }

    /// The same configuration with another duplicate policy.
    pub fn with_duplicate_handling(self, handling: DuplicateHandling) -> (r: Self)
        ensures
            r == (LifeConfig { handle_duplicates: handling, ..self }),
    {
        LifeConfig { handle_duplicates: handling, ..self }
    }

    /// The same configuration with backups switched on or off.
    pub fn with_backup(self, create_backup: bool) -> (r: Self)
        ensures
            r == (LifeConfig { create_backup, ..self }),
    {
        LifeConfig { create_backup, ..self }
    }

    /// The same configuration, choosing whether unsupported files are
    /// skipped silently or reported.
    pub fn skip_unsupported(self, skip: bool) -> (r: Self)
        ensures
            r == (LifeConfig { skip_unsupported_files: skip, ..self }),
    {
        LifeConfig { skip_unsupported_files: skip, ..self }
    }

    /// The media-run view of this configuration: inbox and media root
    /// derived from the life path, the rest carried over.
    pub fn to_processing_config(&self) -> (r: ProcessingConfig)
        ensures
            r.inbox_path@ == join_spec(self.life_path@, "inbox"@),
            r.media_root@ == join_spec(self.life_path@, "media"@),
            r.hash_length == self.hash_length,
            r.skip_unsupported_files == self.skip_unsupported_files,
            r.create_backup == self.create_backup,
            r.handle_duplicates == self.handle_duplicates,
    {
        ProcessingConfig {
            inbox_path: self.inbox_path(),
            media_root: self.media_root(),
            hash_length: self.hash_length,
            handle_duplicates: self.duplicate_handling(),
            skip_unsupported_files: self.skip_unsupported_files,
            create_backup: self.create_backup,
        }
    }

    /// A copy of the duplicate policy.
    pub fn duplicate_handling(&self) -> (r: DuplicateHandling)
        ensures
            r == self.handle_duplicates,
    {
        match self.handle_duplicates {
            DuplicateHandling::Skip => DuplicateHandling::Skip,
            DuplicateHandling::AppendHash => DuplicateHandling::AppendHash,
            DuplicateHandling::Overwrite => DuplicateHandling::Overwrite,
            DuplicateHandling::Error => DuplicateHandling::Error,
        }
    }
}

} // verus!
