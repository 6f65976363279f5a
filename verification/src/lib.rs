//! Inbox-organizing library: classifies files by MIME category, derives
//! archive names and directories from capture metadata or user-supplied
//! document descriptions, resolves duplicate targets, and keeps a fuzzy
//! tag dictionary for interactive labeling.

pub mod config;
pub mod document;
pub mod error;
pub mod filesystem;
pub mod interactive;
pub mod media;
pub mod metadata;
pub mod naming;
pub mod organization;
pub mod paths;
pub mod processor;
pub mod pathstr;
pub mod tags;
pub mod text;

pub use config::{DuplicateHandling, LifeConfig, ProcessingConfig};
pub use document::{today_date_string, DocumentInput};
pub use error::CleanboxError;
pub use filesystem::{FileHasher, FileManager};
pub use interactive::{
    DatePrompt, DescriptionPrompt, DocumentInputCollector, FuzzyTagCompleter, ProgressIndicator,
    SmartTagSelector, UserPrompt,
};
pub use media::{File, FileMetadata, FileType};
pub use metadata::MetadataParser;
pub use naming::{
    CustomNamingStrategy, DocumentNamingStrategy, NamingStrategy, TimestampNamingStrategy,
};
pub use organization::{
    CustomOrganizer, DocumentOrganizer, FlatOrganizer, MonthlyOrganizer, OrganizationStrategy,
    YearlyOrganizer,
};
pub use paths::{BasePathResolver, LifeDirectoryResolver, LifePathResolver};
pub use processor::{
    CategorizedFiles, FileProcessor, ProcessingResult, UnifiedProcessingResult, UnifiedProcessor,
};
pub use tags::{
    validate_tag_format, SimilarTag, TagDictionary, TagResolution, TagResolutionFlow, TagValidator,
};
