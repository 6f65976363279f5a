//! File classification: the coarse category a MIME type falls in, the
//! routing behavior each category carries, and the per-file record that
//! couples a path with its parsed metadata.

use vstd::prelude::*;
use vstd::string::*;
use crate::error::CleanboxError;
use crate::pathstr::{
    extension_spec, file_name_chars, file_name_spec, has_extension_spec, has_parent_spec,
    parent_chars, parent_spec, rfind_char, stem_spec,
};
use crate::text::{chars_of, lower_seq, starts_with, starts_with_seq, string_from_chars, subvec};

verus! {

/// The coarse category of a file, derived from its MIME type alone.
#[derive(Debug, Clone, PartialEq, Eq, Structural)]
pub enum FileType {
    Image,
    Video,
    Document,
    Unknown,
}

/// The category a MIME string maps to: a case-insensitive prefix match,
/// with a fixed set of document prefixes.
pub open spec fn mime_category(mime: Seq<char>) -> FileType {
    let m = lower_seq(mime);
    if starts_with_seq(m, "image/"@) {
        FileType::Image
    } else if starts_with_seq(m, "video/"@) {
        FileType::Video
    } else if starts_with_seq(m, "application/pdf"@) || starts_with_seq(m, "application/msword"@)
        || starts_with_seq(m, "application/vnd.openxmlformats"@) || starts_with_seq(
        m,
        "text/"@,
    ) {
        FileType::Document
    } else {
        FileType::Unknown
    }
}

impl FileType {
    /// Classifies a MIME string, ignoring ASCII case.
    pub fn from_mime(mime: &str) -> (r: Self)
        ensures
            r == mime_category(mime@),
    {
        let chars = chars_of(mime);
        let m = crate::text::ascii_lower(&chars);
        if starts_with(&m, &chars_of("image/")) {
            FileType::Image
        } else if starts_with(&m, &chars_of("video/")) {
            FileType::Video
        } else if starts_with(&m, &chars_of("application/pdf")) || starts_with(
            &m,
            &chars_of("application/msword"),
        ) || starts_with(&m, &chars_of("application/vnd.openxmlformats")) || starts_with(
            &m,
            &chars_of("text/"),
        ) {
            FileType::Document
        } else {
            FileType::Unknown
        }
    }

    /// Every category but `Unknown` is supported by some pipeline.
    pub fn is_supported(&self) -> (r: bool)
        ensures
            r == (*self != FileType::Unknown),
    {
        match self {
            FileType::Image | FileType::Video | FileType::Document => true,
            FileType::Unknown => false,
        }
    }

    /// Only documents go through the interactive flow.
    pub fn needs_interactive_processing(&self) -> (r: bool)
        ensures
            r == (*self == FileType::Document),
    {
        match self {
            FileType::Document => true,
            _ => false,
        }
    }

    /// Images and videos are processed without user input.
    pub fn is_auto_processable(&self) -> (r: bool)
        ensures
            r == (*self == FileType::Image || *self == FileType::Video),
    {
        match self {
            FileType::Image | FileType::Video => true,
            _ => false,
        }
    }

    /// Unknown files are always left in place.
    pub fn should_skip(&self) -> (r: bool)
        ensures
            r == (*self == FileType::Unknown),
    {
        match self {
            FileType::Unknown => true,
            _ => false,
        }
    }

    /// The archive root a category files under: `media` for images and
    /// videos, `documents` for documents, none for unknown files.
    pub fn base_directory_name(&self) -> (r: Option<&'static str>)
        ensures
            (*self == FileType::Image || *self == FileType::Video) ==> (r matches Some(s)
                && s@ == "media"@),
            *self == FileType::Document ==> (r matches Some(s) && s@ == "documents"@),
            *self == FileType::Unknown ==> r is None,
    {
        match self {
            FileType::Image | FileType::Video => Some("media"),
            FileType::Document => Some("documents"),
            FileType::Unknown => None,
        }
    }
}

/// What metadata parsing yields for one file: its MIME type, the
/// category derived from it, and, where present, the capture datetime
/// (`YYYY-MM-DD_HH-MM-SS`) and a content hash.
#[derive(Debug)]
pub struct FileMetadata {
    pub datetime_original: Option<String>,
    pub file_type: FileType,
    pub mime_type: String,
    pub file_hash: Option<String>,
}

impl FileMetadata {
    /// Fresh metadata for a MIME type, with the category derived from
    /// it and no datetime or hash yet.
    pub fn new(mime_type: String) -> (r: Self)
        ensures
            r.file_type == mime_category(mime_type@),
            r.mime_type == mime_type,
            r.datetime_original is None,
            r.file_hash is None,
    {
        let file_type = FileType::from_mime(mime_type.as_str());
        FileMetadata { datetime_original: None, file_type, mime_type, file_hash: None }
    }

    /// The same metadata with the capture datetime attached.
    pub fn with_datetime(self, datetime: String) -> (r: Self)
        ensures
            r == (FileMetadata { datetime_original: Some(datetime), ..self }),
    {
        FileMetadata { datetime_original: Some(datetime), ..self }
    }

    /// The same metadata with the content hash attached.
    pub fn with_hash(self, hash: String) -> (r: Self)
        ensures
            r == (FileMetadata { file_hash: Some(hash), ..self }),
    {
        FileMetadata { file_hash: Some(hash), ..self }
    }

    /// A field-for-field copy.
    pub fn duplicate(&self) -> (r: Self)
        ensures
            r == *self,
    {
        FileMetadata {
            datetime_original: match &self.datetime_original {
                Some(d) => Some(d.clone()),
                None => None,
            },
            file_type: self.file_type.dup(),
            mime_type: self.mime_type.clone(),
            file_hash: match &self.file_hash {
                Some(h) => Some(h.clone()),
                None => None,
            },
        }
    }
}

impl FileType {
    /// A copy of the category.
    pub fn dup(&self) -> (r: Self)
        ensures
            r == *self,
    {
        match self {
            FileType::Image => FileType::Image,
            FileType::Video => FileType::Video,
            FileType::Document => FileType::Document,
            FileType::Unknown => FileType::Unknown,
        }
    }
}

/// One file under processing: its path, and its metadata once parsed.
#[derive(Debug)]
pub struct File {
    pub path: String,
    pub metadata: Option<FileMetadata>,
}

impl File {
    /// A record for the file at `path`, with no metadata yet.
    pub fn new(path: String) -> (r: Self)
        ensures
            r.path == path,
            r.metadata is None,
    {
        File { path, metadata: None }
    }

    /// The same record with metadata attached.
    pub fn with_metadata(self, metadata: FileMetadata) -> (r: Self)
        ensures
            r == (File { metadata: Some(metadata), ..self }),
    {
        File { metadata: Some(metadata), ..self }
    }

    /// The file-name portion of the path: everything after the last
    /// `/`. An empty name is an invalid path.
    pub fn file_name(&self) -> (r: Result<String, CleanboxError>)
        ensures
            r matches Ok(n) ==> n@ == file_name_spec(self.path@) && n@.len() > 0,
            r is Err ==> file_name_spec(self.path@).len() == 0,
            r matches Err(e) ==> e matches CleanboxError::InvalidPath(p) && p == self.path,
    {
        let chars = chars_of(self.path.as_str());
        let name = file_name_chars(&chars);
        if name.len() == 0 {
            Err(CleanboxError::InvalidPath(self.path.clone()))
        } else {
            Ok(string_from_chars(&name))
        }
    }

    /// The stem of the file name: the name less its extension. Fails on
    /// an empty file name.
    pub fn file_stem(&self) -> (r: Result<String, CleanboxError>)
        ensures
            r matches Ok(s) ==> s@ == stem_spec(self.path@) && file_name_spec(
                self.path@,
            ).len() > 0,
            r is Err ==> file_name_spec(self.path@).len() == 0,
            r matches Err(e) ==> e matches CleanboxError::InvalidFileStem(p) && p == self.path,
    {
        let chars = chars_of(self.path.as_str());
        let name = file_name_chars(&chars);
        if name.len() == 0 {
            return Err(CleanboxError::InvalidFileStem(self.path.clone()));
        }
        Ok(string_from_chars(&stem_of_name(&name)))
    }

    /// The extension of the file name: what follows its last `.`, a
    /// leading dot not counting. Fails when there is none.
    pub fn extension(&self) -> (r: Result<String, CleanboxError>)
        ensures
            r matches Ok(e) ==> has_extension_spec(self.path@) && e@ == extension_spec(
                self.path@,
            ),
            r is Err ==> !has_extension_spec(self.path@),
            r matches Err(e) ==> e matches CleanboxError::InvalidFileExtension(p) && p
                == self.path,
    {
        let chars = chars_of(self.path.as_str());
        let name = file_name_chars(&chars);
        match extension_of_name(&name) {
            Some(ext) => Ok(string_from_chars(&ext)),
            None => Err(CleanboxError::InvalidFileExtension(self.path.clone())),
        }
    }

    /// The parent directory of the path, when it has one.
    pub fn parent_dir(&self) -> (r: Option<String>)
        ensures
            r matches Some(p) ==> has_parent_spec(self.path@) && p@ == parent_spec(self.path@),
            r is None ==> !has_parent_spec(self.path@),
    {
        let chars = chars_of(self.path.as_str());
        match parent_chars(&chars) {
            Some(p) => Some(string_from_chars(&p)),
            None => None,
        }
    }

    /// True when metadata is present and its category is supported.
    pub fn is_supported_media(&self) -> (r: bool)
        ensures
            r == match self.metadata {
                Some(m) => m.file_type != FileType::Unknown,
                None => false,
            },
    {
        match &self.metadata {
            Some(m) => m.file_type.is_supported(),
            None => false,
        }
    }
}

/// Splits the extension off a file name: the part after the last `.`,
/// where a dot at the very start does not begin an extension.
pub fn extension_of_name(name: &Vec<char>) -> (r: Option<Vec<char>>)
    ensures
        r matches Some(e) ==> (exists|i: int| 1 <= i < name@.len() && name@[i] == '.') && e@
            == crate::pathstr::after_last(name@, '.'),
        r is None ==> !(exists|i: int| 1 <= i < name@.len() && name@[i] == '.'),
{
    let n = name.len();
    match rfind_char(name, '.') {
        Some(i) => {
            if i >= 1 {
                proof {
                    crate::pathstr::lemma_after_last_at(name@, '.', i as int);
                    assert(name@.subrange(i + 1, n as int) =~= name@.skip(i + 1));
                }
                Some(subvec(name, i + 1, n))
            } else {
                None
            }
        },
        None => None,
    }
}

/// Splits the stem off a file name: the name less its extension and the
/// dot, or the whole name when there is no extension.
pub fn stem_of_name(name: &Vec<char>) -> (r: Vec<char>)
    ensures
        (exists|i: int| 1 <= i < name@.len() && name@[i] == '.') ==> r@ == name@.take(
            name@.len() - crate::pathstr::after_last(name@, '.').len() - 1,
        ),
        !(exists|i: int| 1 <= i < name@.len() && name@[i] == '.') ==> r@ == name@,
{
    let n = name.len();
    match rfind_char(name, '.') {
        Some(i) => {
            if i >= 1 {
                proof {
                    crate::pathstr::lemma_after_last_at(name@, '.', i as int);
                    assert(name@.subrange(0, i as int) =~= name@.take(
                        name@.len() - crate::pathstr::after_last(name@, '.').len() - 1,
                    ));
                }
                subvec(name, 0, i)
            } else {
                subvec(name, 0, n)
            }
        },
        None => subvec(name, 0, n),
    }
}

} // verus!
