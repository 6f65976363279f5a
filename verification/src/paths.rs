//! Base-path resolution: which archive root a file category is filed
//! under, for a plain media run and for a whole life directory.

use vstd::prelude::*;
use vstd::string::*;
use crate::config::{LifeConfig, ProcessingConfig};
use crate::media::FileType;
use crate::pathstr::{has_parent_spec, join_spec, parent_chars, parent_spec, path_join};
use crate::text::{chars_of, string_from_chars};

verus! {

/// Resolves the archive root for a category under a media-run
/// configuration.
pub trait BasePathResolver {
    /// The root the resolver picks.
    spec fn base_spec(&self, file_type: FileType, config: &ProcessingConfig) -> Seq<char>;

    /// Picks the archive root for a category.
    fn resolve_base_path(&self, file_type: &FileType, config: &ProcessingConfig) -> (r: String)
        ensures
            r@ == self.base_spec(*file_type, config),
    ;
}

/// Resolves the archive root for a category under a life-directory
/// configuration.
pub trait LifePathResolver {
    /// The root the resolver picks.
    spec fn life_base_spec(&self, file_type: FileType, config: &LifeConfig) -> Seq<char>;

    /// Picks the archive root for a category.
    fn resolve_base_path(&self, file_type: &FileType, config: &LifeConfig) -> (r: String)
        ensures
            r@ == self.life_base_spec(*file_type, config),
    ;
}

/// The documents root a media-run configuration implies: `documents`
/// beside the media root, or under it when the media root has no
/// parent.
pub open spec fn documents_sibling_spec(media_root: Seq<char>) -> Seq<char> {
    if has_parent_spec(media_root) {
        join_spec(parent_spec(media_root), "documents"@)
    } else {
        join_spec(media_root, "documents"@)
    }
}

/// The standard life-directory layout: media under the media root,
/// documents beside it, unknown files falling back to the media root.
pub struct LifeDirectoryResolver;

impl LifeDirectoryResolver {
    /// A fresh resolver; it has no configuration.
    pub fn new() -> Self {
        LifeDirectoryResolver
    }
}

impl BasePathResolver for LifeDirectoryResolver {
    open spec fn base_spec(&self, file_type: FileType, config: &ProcessingConfig) -> Seq<char> {
        match file_type {
            FileType::Image | FileType::Video => config.media_root@,
            FileType::Document => documents_sibling_spec(config.media_root@),
            FileType::Unknown => config.media_root@,
        }
    }

    fn resolve_base_path(&self, file_type: &FileType, config: &ProcessingConfig) -> (r: String) {
        match file_type {
            FileType::Image | FileType::Video => config.media_root.clone(),
            FileType::Document => {
                let chars = chars_of(config.media_root.as_str());
                match parent_chars(&chars) {
                    Some(parent) => path_join(string_from_chars(&parent).as_str(), "documents"),
                    None => path_join(config.media_root.as_str(), "documents"),
                }
            },
            FileType::Unknown => config.media_root.clone(),
        }
    }
}

impl LifePathResolver for LifeDirectoryResolver {
    open spec fn life_base_spec(&self, file_type: FileType, config: &LifeConfig) -> Seq<char> {
        match file_type {
            FileType::Image | FileType::Video => join_spec(config.life_path@, "media"@),
            FileType::Document => join_spec(config.life_path@, "documents"@),
            FileType::Unknown => join_spec(config.life_path@, "media"@),
        }
    }

    fn resolve_base_path(&self, file_type: &FileType, config: &LifeConfig) -> (r: String) {
        match file_type {
            FileType::Image | FileType::Video => config.media_root(),
            FileType::Document => config.documents_root(),
            FileType::Unknown => config.media_root(),
        }
    }
}

} // verus!
