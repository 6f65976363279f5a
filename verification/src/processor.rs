//! The processing pipelines: the per-file media pipeline and its batch
//! runner, and the unified run that buckets an inbox into media,
//! documents and unknown files, processes the first automatically and
//! the second interactively, and tallies everything.

use vstd::prelude::*;
use vstd::string::*;
use crate::config::{DuplicateHandling, LifeConfig, ProcessingConfig};
use crate::error::CleanboxError;
use crate::filesystem::{FileHasher, FileManager};
use crate::interactive::{DocumentInputCollector, UserPrompt};
use crate::media::{File, FileMetadata, FileType};
use crate::metadata::MetadataParser;
use crate::naming::{DocumentNamingStrategy, NamingStrategy, TimestampNamingStrategy};
use crate::organization::{DocumentOrganizer, MonthlyOrganizer, OrganizationStrategy};
use crate::paths::{BasePathResolver, LifeDirectoryResolver};
use crate::pathstr::{
    extension_spec, file_name_spec, has_extension_spec, path_join, stem_spec, with_file_name_spec,
};
use crate::tags::{flow_wf, TagDictionary};

verus! {

/// The tally of one media batch: counts of processed, skipped and
/// failed files, and one message per failure.
#[derive(Debug)]
pub struct ProcessingResult {
    pub processed_files: usize,
    pub skipped_files: usize,
    pub failed_files: usize,
    pub errors: Vec<String>,
}

/// The tally invariant: exactly one message per counted failure.
pub open spec fn result_wf(r: &ProcessingResult) -> bool {
    r.failed_files == r.errors@.len()
}

impl ProcessingResult {
    /// An empty tally.
    pub fn new() -> (r: Self)
        ensures
            r.processed_files == 0,
            r.skipped_files == 0,
            r.failed_files == 0,
            r.errors@.len() == 0,
            result_wf(&r),
    {
        ProcessingResult { processed_files: 0, skipped_files: 0, failed_files: 0, errors: Vec::new() }
    }

    /// Records one failure with its message.
    pub fn add_error(&mut self, error: String)
        requires
            result_wf(old(self)),
        ensures
            result_wf(final(self)),
            final(self).errors@ == old(self).errors@.push(error),
            final(self).failed_files == old(self).failed_files + 1,
            final(self).processed_files == old(self).processed_files,
            final(self).skipped_files == old(self).skipped_files,
    {
        self.errors.push(error);
        self.failed_files = self.errors.len();
    }

    /// Counts one skipped file.
    pub fn skip_file(&mut self)
        requires
            old(self).skipped_files < usize::MAX,
        ensures
            final(self).skipped_files == old(self).skipped_files + 1,
            final(self).processed_files == old(self).processed_files,
            final(self).failed_files == old(self).failed_files,
            final(self).errors@ == old(self).errors@,
    {
        self.skipped_files = self.skipped_files + 1;
    }

    /// Counts one processed file.
    pub fn process_file(&mut self)
        requires
            old(self).processed_files < usize::MAX,
        ensures
            final(self).processed_files == old(self).processed_files + 1,
            final(self).skipped_files == old(self).skipped_files,
            final(self).failed_files == old(self).failed_files,
            final(self).errors@ == old(self).errors@,
    {
        self.processed_files = self.processed_files + 1;
    }
}

/// The unsupported-category error the media pipeline raises for a file
/// that is not an image or a video: unknown files are skipped and
/// documents need the interactive flow.
pub fn routing_error_for(metadata: &FileMetadata) -> (r: Option<CleanboxError>)
    ensures
        r is None <==> (metadata.file_type == FileType::Image || metadata.file_type
            == FileType::Video),
        r matches Some(e) ==> e is UnsupportedFileType,
{
    if metadata.file_type.should_skip() {
        return Some(CleanboxError::UnsupportedFileType(metadata.mime_type.clone()));
    }
    if metadata.file_type.needs_interactive_processing() {
        return Some(
            CleanboxError::UnsupportedFileType(
                "Document files require interactive processing: ".to_owned().concat(
                    metadata.mime_type.as_str(),
                ),
            ),
        );
    }
    None
}

/// True for the failure kinds the batch counts as skips rather than
/// errors: unsupported files and missing or unreadable media metadata.
pub fn is_skippable_error(error: &CleanboxError) -> (r: bool)
    ensures
        r == (error is UnsupportedFileType || error is Exif),
{
    match error {
        CleanboxError::UnsupportedFileType(_) => true,
        CleanboxError::Exif(_) => true,
        _ => false,
    }
}

/// Resolves a duplicate target path under a policy: skipping and
/// erroring both refuse, overwriting keeps the target, and the hash
/// policy splices a prefix of the source's content hash into the target
/// name.
pub fn resolve_duplicate_path<F: FileManager>(
    file_manager: &F,
    handling: &DuplicateHandling,
    hash_length: usize,
    source_path: &str,
    target_path: &str,
) -> (r: Result<String, CleanboxError>)
    ensures
        handling is Skip || handling is Error ==> (r matches Err(e) && e matches
            CleanboxError::FileAlreadyExists(p) && p@ == target_path@),
        handling is Overwrite ==> (r matches Ok(p) && p@ == target_path@),
        handling is AppendHash ==> match r {
            Ok(p) => exists|suffix: Seq<char>|
                suffix.len() <= hash_length && p@ == with_file_name_spec(
                    target_path@,
                    stem_spec(target_path@) + seq!['_'] + suffix + seq!['.'] + extension_spec(
                        target_path@,
                    ),
                ),
            Err(e) => e is Io || e is Exif || e is InvalidPath || e is InvalidFileStem || e
                is InvalidFileExtension || e is TagDictionaryCorrupted || e
                is FileAlreadyExists || e is UnsupportedFileType || e is UserCancelled || e
                is InvalidUserInput || e is InvalidDateTime,
        },
{
    match handling {
        DuplicateHandling::Skip => Err(
            CleanboxError::FileAlreadyExists(target_path.to_owned()),
        ),
        DuplicateHandling::Error => Err(
            CleanboxError::FileAlreadyExists(target_path.to_owned()),
        ),
        DuplicateHandling::Overwrite => Ok(target_path.to_owned()),
        DuplicateHandling::AppendHash => {
            let hash = match file_manager.calculate_file_hash(source_path) {
                Ok(h) => h,
                Err(e) => {
                    return Err(e);
                },
            };
            let hash_suffix = FileHasher::generate_hash_suffix(hash.as_str(), hash_length);
            let target_file = File::new(target_path.to_owned());
            let original_name = match target_file.file_name() {
                Ok(n) => n,
                Err(e) => {
                    return Err(e);
                },
            };
            let new_name = match FileHasher::append_hash_to_filename(
                original_name.as_str(),
                hash_suffix.as_str(),
            ) {
                Ok(n) => n,
                Err(e) => {
                    return Err(e);
                },
            };
            let result = crate::pathstr::with_file_name(target_path, new_name.as_str());
            proof {
                crate::pathstr::lemma_after_last_no_sep(target_path@, '/');
                crate::pathstr::lemma_after_last_absent(original_name@, '/');
                assert(file_name_spec(original_name@) == original_name@);
                assert(file_name_spec(original_name@) == file_name_spec(target_path@));
                assert(stem_spec(original_name@) == stem_spec(target_path@));
                assert(extension_spec(original_name@) == extension_spec(target_path@));
                let suffix = hash_suffix@;
                assert(suffix.len() <= hash_length && result@ == with_file_name_spec(
                    target_path@,
                    stem_spec(target_path@) + seq!['_'] + suffix + seq!['.'] + extension_spec(
                        target_path@,
                    ),
                ));
            }
            Ok(result)
        },
    }
}

/// Runs the media pipeline on one file: parse its metadata, refuse
/// anything but images and videos, rename it to its capture timestamp,
/// file it under the resolved base by the organization strategy, and
/// resolve a duplicate target under the configured policy before the
/// final move. Its first step is already a capability call, and every
/// later outcome depends on what the capabilities return, so nothing is
/// promised here; the name, directory, duplicate target and path
/// splices it hands to the filesystem are pinned by the contracts of
/// the functions it calls.
pub fn process_one_file<E: MetadataParser, F: FileManager, N: NamingStrategy, O: OrganizationStrategy, R: BasePathResolver>(
    parser: &E,
    file_manager: &F,
    naming_strategy: &N,
    organization_strategy: &O,
    base_path_resolver: &R,
    config: &ProcessingConfig,
    file_path: &str,
) -> (r: Result<(), CleanboxError>) {
    let metadata = match parser.parse_metadata(file_path) {
        Ok(m) => m,
        Err(e) => {
            return Err(e);
        },
    };
    match routing_error_for(&metadata) {
        Some(e) => {
            return Err(e);
        },
        None => {},
    }
    let file = File::new(file_path.to_owned()).with_metadata(metadata);
    let new_name = match naming_strategy.generate_name(&file) {
        Ok(n) => n,
        Err(e) => {
            return Err(e);
        },
    };
    let temp_path = crate::pathstr::with_file_name(file_path, new_name.as_str());
    if !crate::tags::str_eq(file_path, temp_path.as_str()) {
        if let Err(e) = file_manager.rename_file(file_path, temp_path.as_str()) {
            return Err(e);
        }
    }
    let file_type = match &file.metadata {
        Some(m) => m.file_type.dup(),
        None => FileType::Unknown,
    };
    let base_path = base_path_resolver.resolve_base_path(&file_type, config);
    let target_dir = match organization_strategy.determine_target_directory(
        &file,
        base_path.as_str(),
    ) {
        Ok(d) => d,
        Err(e) => {
            return Err(e);
        },
    };
    let mut target_path = path_join(target_dir.as_str(), new_name.as_str());
    if file_manager.file_exists(target_path.as_str()) {
        target_path = match resolve_duplicate_path(
            file_manager,
            &config.handle_duplicates,
            config.hash_length,
            temp_path.as_str(),
            target_path.as_str(),
        ) {
            Ok(p) => p,
            Err(e) => {
                return Err(e);
            },
        };
    }
    file_manager.move_file(temp_path.as_str(), target_path.as_str())
}

/// The media pipeline bound to one parser, filesystem, naming strategy,
/// organization strategy and base-path resolver.
pub struct FileProcessor<E: MetadataParser, F: FileManager, N: NamingStrategy, O: OrganizationStrategy, R: BasePathResolver> {
    pub exif_parser: E,
    pub file_manager: F,
    pub naming_strategy: N,
    pub organization_strategy: O,
    pub base_path_resolver: R,
    pub config: ProcessingConfig,
}

impl<
    E: MetadataParser,
    F: FileManager,
    N: NamingStrategy,
    O: OrganizationStrategy,
    R: BasePathResolver,
> FileProcessor<E, F, N, O, R> {
    /// A pipeline over the given capabilities and configuration.
    pub fn new(
        exif_parser: E,
        file_manager: F,
        naming_strategy: N,
        organization_strategy: O,
        base_path_resolver: R,
        config: ProcessingConfig,
    ) -> (r: Self)
        ensures
            r.config == config,
    {
        FileProcessor {
            exif_parser,
            file_manager,
            naming_strategy,
            organization_strategy,
            base_path_resolver,
            config,
        }
    }

    /// The pipeline's configuration.
    pub fn config(&self) -> (r: &ProcessingConfig)
        ensures
            r == &self.config,
    {
        &self.config
    }

    /// Runs the media pipeline on one file with this pipeline's
    /// capabilities; what it hands to the filesystem is pinned by the
    /// contracts of the functions it calls.
    pub fn process_single_file(&self, file_path: &str) -> Result<(), CleanboxError> {
        process_one_file(
            &self.exif_parser,
            &self.file_manager,
            &self.naming_strategy,
            &self.organization_strategy,
            &self.base_path_resolver,
            &self.config,
            file_path,
        )
    }

    /// Runs the media pipeline over every regular file of the inbox:
    /// failures of single files are tallied, skippable ones as skips
    /// (reported only when the run is configured not to silence them),
    /// and never abort the batch; only an unreadable inbox does. The
    /// tally carries exactly one message per counted failure.
    pub fn process_directory(&self) -> (r: Result<ProcessingResult, CleanboxError>)
        ensures
            r matches Ok(res) ==> result_wf(&res) && res.processed_files + res.skipped_files
                <= usize::MAX,
    {
        let mut result = ProcessingResult::new();
        let file_paths = match self.file_manager.read_directory(self.config.inbox_path.as_str()) {
            Ok(p) => p,
            Err(e) => {
                return Err(e);
            },
        };
        let n = file_paths.len();
        let mut i: usize = 0;
        while i < n
            invariant
                n == file_paths@.len(),
                i <= n,
                result_wf(&result),
                result.processed_files + result.skipped_files <= i,
            decreases n - i,
        {
            let file_path = &file_paths[i];
            if self.file_manager.is_file(file_path.as_str()) {
                match self.process_single_file(file_path.as_str()) {
                    Ok(()) => {
                        result.process_file();
                    },
                    Err(e) => {
                        let error_msg = file_path.clone().concat(": ").concat(
                            e.message().as_str(),
                        );
                        if is_skippable_error(&e) {
                            result.skip_file();
                            if !self.config.skip_unsupported_files {
                                result.add_error(error_msg);
                            }
                        } else {
                            result.add_error(error_msg);
                        }
                    },
                }
            }
            i = i + 1;
        }
        Ok(result)
    }
}

/// An inbox listing bucketed by category.
#[derive(Debug)]
pub struct CategorizedFiles {
    pub media_files: Vec<String>,
    pub document_files: Vec<String>,
    pub unknown_files: Vec<String>,
}

impl CategorizedFiles {
    /// Three empty buckets.
    pub fn new() -> (r: Self)
        ensures
            r.media_files@.len() == 0,
            r.document_files@.len() == 0,
            r.unknown_files@.len() == 0,
    {
        CategorizedFiles {
            media_files: Vec::new(),
            document_files: Vec::new(),
            unknown_files: Vec::new(),
        }
    }

    /// How many files all buckets hold together.
    pub fn total_count(&self) -> (r: usize)
        requires
            self.media_files@.len() + self.document_files@.len() + self.unknown_files@.len()
                <= usize::MAX,
        ensures
            r == self.media_files@.len() + self.document_files@.len()
                + self.unknown_files@.len(),
    {
        self.media_files.len() + self.document_files.len() + self.unknown_files.len()
    }
}

/// The tally of one unified run: media and document counts, skips,
/// failures, and one message per failure.
#[derive(Debug)]
pub struct UnifiedProcessingResult {
    pub media_processed: usize,
    pub documents_processed: usize,
    pub files_skipped: usize,
    pub files_failed: usize,
    pub errors: Vec<String>,
}

/// The unified-tally invariant: exactly one message per counted
/// failure.
pub open spec fn unified_wf(r: &UnifiedProcessingResult) -> bool {
    r.files_failed == r.errors@.len()
}

impl UnifiedProcessingResult {
    /// An empty tally.
    pub fn new() -> (r: Self)
        ensures
            r.media_processed == 0,
            r.documents_processed == 0,
            r.files_skipped == 0,
            r.files_failed == 0,
            r.errors@.len() == 0,
            unified_wf(&r),
    {
        UnifiedProcessingResult {
            media_processed: 0,
            documents_processed: 0,
            files_skipped: 0,
            files_failed: 0,
            errors: Vec::new(),
        }
    }

    /// How many files were processed, media and documents together.
    pub fn total_processed(&self) -> (r: usize)
        requires
            self.media_processed + self.documents_processed <= usize::MAX,
        ensures
            r == self.media_processed + self.documents_processed,
    {
        self.media_processed + self.documents_processed
    }

    /// Records one failure with its message.
    fn add_failure(&mut self, error: String)
        requires
            unified_wf(old(self)),
        ensures
            unified_wf(final(self)),
            final(self).errors@ == old(self).errors@.push(error),
            final(self).files_failed == old(self).files_failed + 1,
            final(self).media_processed == old(self).media_processed,
            final(self).documents_processed == old(self).documents_processed,
            final(self).files_skipped == old(self).files_skipped,
    {
        self.errors.push(error);
        self.files_failed = self.errors.len();
    }
}

/// The unified run: buckets the inbox, runs the media pipeline over the
/// media bucket, collects document labels interactively for the
/// document bucket, and leaves unknown files in place.
pub struct UnifiedProcessor<E: MetadataParser, F: FileManager, P: UserPrompt> {
    pub metadata_parser: E,
    pub file_manager: F,
    pub prompter: P,
    pub life_config: LifeConfig,
}

impl<E: MetadataParser, F: FileManager + Clone, P: UserPrompt + Clone> UnifiedProcessor<E, F, P> {
    /// A unified run over the given capabilities and configuration.
    pub fn new(metadata_parser: E, file_manager: F, prompter: P, life_config: LifeConfig) -> (r:
        Self)
        ensures
            r.life_config == life_config,
    {
        UnifiedProcessor { metadata_parser, file_manager, prompter, life_config }
    }

    /// Buckets every regular file of the inbox by parsed category; a
    /// file whose metadata cannot be parsed lands in the unknown
    /// bucket. Only an unreadable inbox fails.
    pub fn categorize_files(&self) -> (r: Result<CategorizedFiles, CleanboxError>)
        ensures
            r matches Ok(c) ==> c.media_files@.len() + c.document_files@.len()
                + c.unknown_files@.len() <= usize::MAX,
    {
        let mut categorized = CategorizedFiles::new();
        let inbox_path = self.life_config.inbox_path();
        let file_paths = match self.file_manager.read_directory(inbox_path.as_str()) {
            Ok(p) => p,
            Err(e) => {
                return Err(e);
            },
        };
        let n = file_paths.len();
        let mut i: usize = 0;
        while i < n
            invariant
                n == file_paths@.len(),
                i <= n,
                categorized.media_files@.len() + categorized.document_files@.len()
                    + categorized.unknown_files@.len() <= i,
            decreases n - i,
        {
            let file_path = file_paths[i].clone();
            if self.file_manager.is_file(file_path.as_str()) {
                match self.metadata_parser.parse_metadata(file_path.as_str()) {
                    Ok(metadata) => match metadata.file_type {
                        FileType::Image | FileType::Video => {
                            categorized.media_files.push(file_path);
                        },
                        FileType::Document => {
                            categorized.document_files.push(file_path);
                        },
                        FileType::Unknown => {
                            categorized.unknown_files.push(file_path);
                        },
                    },
                    Err(_) => {
                        categorized.unknown_files.push(file_path);
                    },
                }
            }
            i = i + 1;
        }
        Ok(categorized)
    }

    /// Runs the media pipeline over the media bucket with the standard
    /// strategies, counting successes and recording failures without
    /// aborting.
    pub fn process_media_files(
        &self,
        media_files: &Vec<String>,
        result: &mut UnifiedProcessingResult,
    ) -> (r: Result<(), CleanboxError>)
        requires
            unified_wf(old(result)),
            old(result).media_processed + media_files@.len() <= usize::MAX,
        ensures
            unified_wf(final(result)),
            final(result).media_processed + final(result).files_failed == old(
                result,
            ).media_processed + old(result).files_failed + media_files@.len(),
            final(result).documents_processed == old(result).documents_processed,
            final(result).files_skipped == old(result).files_skipped,
    {
        let naming = TimestampNamingStrategy::new();
        let organizer = MonthlyOrganizer::new();
        let resolver = LifeDirectoryResolver::new();
        let config = self.life_config.to_processing_config();
        let n = media_files.len();
        let mut i: usize = 0;
        while i < n
            invariant
                n == media_files@.len(),
                i <= n,
                unified_wf(result),
                result.media_processed <= old(result).media_processed + i,
                result.media_processed + result.files_failed == old(result).media_processed
                    + old(result).files_failed + i,
                old(result).media_processed + n <= usize::MAX,
                result.documents_processed == old(result).documents_processed,
                result.files_skipped == old(result).files_skipped,
            decreases n - i,
        {
            match process_one_file(
                &self.metadata_parser,
                &self.file_manager,
                &naming,
                &organizer,
                &resolver,
                &config,
                media_files[i].as_str(),
            ) {
                Ok(()) => {
                    result.media_processed = result.media_processed + 1;
                },
                Err(e) => {
                    let error_msg = media_files[i].clone().concat(": ").concat(
                        e.message().as_str(),
                    );
                    result.add_failure(error_msg);
                },
            }
            i = i + 1;
        }
        Ok(())
    }

    /// Collects a label for every document and files each one under
    /// `documents/YYYY/MM` with its derived name; a cancellation from
    /// the console stops the batch early, any other failure is recorded
    /// and the batch goes on. The grown dictionary is saved once at the
    /// end.
    pub fn process_document_files(
        &self,
        document_files: &Vec<String>,
        result: &mut UnifiedProcessingResult,
    ) -> (r: Result<(), CleanboxError>)
        requires
            unified_wf(old(result)),
            old(result).documents_processed + document_files@.len() <= usize::MAX,
        ensures
            unified_wf(final(result)),
            final(result).media_processed == old(result).media_processed,
            final(result).files_skipped == old(result).files_skipped,
    {
        let document_naming = DocumentNamingStrategy::new();
        let document_organizer = DocumentOrganizer::new();
        let tags_file = self.life_config.tags_file();
        let tag_dict = match TagDictionary::load_from_file(
            &self.file_manager,
            tags_file.as_str(),
        ) {
            Ok(d) => d,
            Err(e) => {
                return Err(e);
            },
        };
        let mut collector = DocumentInputCollector::new(
            self.prompter.clone(),
            tag_dict,
            self.file_manager.clone(),
        );
        let n = document_files.len();
        let mut i: usize = 0;
        while i < n
            invariant
                n == document_files@.len(),
                i <= n,
                unified_wf(result),
                flow_wf(&collector.tag_selector.flow),
                result.documents_processed <= old(result).documents_processed + i,
                old(result).documents_processed + n <= usize::MAX,
                result.media_processed == old(result).media_processed,
                result.files_skipped == old(result).files_skipped,
            decreases n - i,
        {
            let file_path = &document_files[i];
            let file = File::new(file_path.clone());
            let filename = match file.file_name() {
                Ok(f) => f,
                Err(e) => {
                    let error_msg = file_path.clone().concat(": ").concat(e.message().as_str());
                    result.add_failure(error_msg);
                    i = i + 1;
                    continue ;
                },
            };
            let document_input = match collector.collect_input(filename.as_str()) {
                Ok(input) => input,
                Err(e) => {
                    if matches!(e, CleanboxError::UserCancelled) {
                        break ;
                    }
                    let error_msg = file_path.clone().concat(": ").concat(e.message().as_str());
                    result.add_failure(error_msg);
                    i = i + 1;
                    continue ;
                },
            };
            match self.process_single_document(
                file_path.as_str(),
                &document_input,
                &document_naming,
                &document_organizer,
            ) {
                Ok(()) => {
                    result.documents_processed = result.documents_processed + 1;
                },
                Err(e) => {
                    let error_msg = file_path.clone().concat(": ").concat(e.message().as_str());
                    result.add_failure(error_msg);
                },
            }
            i = i + 1;
        }
        collector.tag_selector.save_dictionary(&self.file_manager, tags_file.as_str())
    }

    /// Files one labeled document: derives its name and target
    /// directory from the label, resolves a duplicate target under the
    /// configured policy, and moves the file. A file without an
    /// extension is refused first, then a label that does not validate;
    /// success depends on the filesystem and cannot be promised.
    pub fn process_single_document(
        &self,
        file_path: &str,
        document_input: &crate::document::DocumentInput,
        naming_strategy: &DocumentNamingStrategy,
        organizer: &DocumentOrganizer,
    ) -> (r: Result<(), CleanboxError>)
        ensures
            !has_extension_spec(file_path@) ==> (r matches Err(e) && e
                is InvalidFileExtension),
            has_extension_spec(file_path@) && !crate::document::valid_document_input(
                document_input,
            ) ==> (r matches Err(e) && e is InvalidUserInput),
            r is Ok ==> has_extension_spec(file_path@) && crate::document::valid_document_input(
                document_input,
            ),
    {
        let file = File::new(file_path.to_owned());
        let extension = match file.extension() {
            Ok(e) => e,
            Err(e) => {
                return Err(e);
            },
        };
        let new_name = match naming_strategy.generate_name_from_input(
            document_input,
            extension.as_str(),
        ) {
            Ok(n) => n,
            Err(e) => {
                return Err(e);
            },
        };
        let documents_base = self.life_config.documents_root();
        let target_dir = match organizer.determine_target_directory_from_input(
            document_input,
            documents_base.as_str(),
        ) {
            Ok(d) => d,
            Err(e) => {
                return Err(e);
            },
        };
        if let Err(e) = self.file_manager.create_directories(target_dir.as_str()) {
            return Err(e);
        }
        let mut target_path = path_join(target_dir.as_str(), new_name.as_str());
        if self.file_manager.file_exists(target_path.as_str()) {
            target_path = match resolve_duplicate_path(
                &self.file_manager,
                &self.life_config.handle_duplicates,
                self.life_config.hash_length,
                file_path,
                target_path.as_str(),
            ) {
                Ok(p) => p,
                Err(e) => {
                    return Err(e);
                },
            };
        }
        self.file_manager.move_file(file_path, target_path.as_str())
    }

    /// The whole unified run: bucket the inbox, process media
    /// automatically and documents interactively, count unknown files
    /// as skipped. The tally carries one message per counted failure.
    pub fn process_life_directory(&self) -> (r: Result<UnifiedProcessingResult, CleanboxError>)
        ensures
            r matches Ok(res) ==> unified_wf(&res),
    {
        let categorized = self.categorize_files();
        let categorized = match categorized {
            Ok(c) => c,
            Err(e) => {
                return Err(e);
            },
        };
        let mut result = UnifiedProcessingResult::new();
        if categorized.media_files.len() > 0 {
            if let Err(e) = self.process_media_files(&categorized.media_files, &mut result) {
                return Err(e);
            }
        }
        if categorized.document_files.len() > 0 {
            if let Err(e) = self.process_document_files(&categorized.document_files, &mut result) {
                return Err(e);
            }
        }
        result.files_skipped = categorized.unknown_files.len();
        Ok(result)
    }
}

} // verus!
