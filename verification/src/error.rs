//! The error kinds the pipeline reports, and the human-readable message
//! of each.

use vstd::prelude::*;
use vstd::string::*;
use crate::text::starts_with_seq;

verus! {

/// `std::io::Error`, declared so that the `Io` variant can carry the
/// untouched error of a failed filesystem call.
#[verifier::external_type_specification]
#[verifier::external_body]
pub struct ExIoError(std::io::Error);

/// Everything that can go wrong while classifying, naming, labeling or
/// moving a file.
#[derive(Debug)]
pub enum CleanboxError {
    Io(std::io::Error),
    Exif(String),
    InvalidPath(String),
    InvalidDateTime(String),
    InvalidFileExtension(String),
    InvalidFileStem(String),
    FileAlreadyExists(String),
    UnsupportedFileType(String),
    UserCancelled,
    InvalidUserInput(String),
    TagDictionaryCorrupted(String),
}

impl CleanboxError {
    /// The message shown to the user: a fixed kind prefix followed by
    /// the offending value.
    pub fn message(&self) -> (r: String)
        ensures
            match self {
                CleanboxError::Io(_) => starts_with_seq(r@, "IO error: "@),
                CleanboxError::Exif(m) => r@ == "EXIF error: "@ + m@,
                CleanboxError::InvalidPath(m) => r@ == "Invalid path: "@ + m@,
                CleanboxError::InvalidDateTime(m) => r@ == "Invalid datetime format: "@ + m@,
                CleanboxError::InvalidFileExtension(m) => r@ == "File has no extension: "@ + m@,
                CleanboxError::InvalidFileStem(m) => r@ == "Invalid file stem: "@ + m@,
                CleanboxError::FileAlreadyExists(m) => r@ == "File already exists: "@ + m@,
                CleanboxError::UnsupportedFileType(m) => r@ == "Unsupported file type: "@ + m@,
                CleanboxError::UserCancelled => r@ == "Operation cancelled by user"@,
                CleanboxError::InvalidUserInput(m) => r@ == "Invalid user input: "@ + m@,
                CleanboxError::TagDictionaryCorrupted(m) => r@ == "Tag dictionary corrupted: "@
                    + m@,
            },
    {
        match self {
            CleanboxError::Io(e) => {
                let r = "IO error: ".to_owned().concat(e.to_string().as_str());
                proof {
                    assert(r@.subrange(0, "IO error: "@.len() as int) =~= "IO error: "@);
                }
                r
            },
            CleanboxError::Exif(m) => "EXIF error: ".to_owned().concat(m.as_str()),
            CleanboxError::InvalidPath(m) => "Invalid path: ".to_owned().concat(m.as_str()),
            CleanboxError::InvalidDateTime(m) => "Invalid datetime format: ".to_owned().concat(
                m.as_str(),
            ),
            CleanboxError::InvalidFileExtension(m) => "File has no extension: ".to_owned().concat(
                m.as_str(),
            ),
            CleanboxError::InvalidFileStem(m) => "Invalid file stem: ".to_owned().concat(
                m.as_str(),
            ),
            CleanboxError::FileAlreadyExists(m) => "File already exists: ".to_owned().concat(
                m.as_str(),
            ),
            CleanboxError::UnsupportedFileType(m) => "Unsupported file type: ".to_owned().concat(
                m.as_str(),
            ),
            CleanboxError::UserCancelled => "Operation cancelled by user".to_owned(),
            CleanboxError::InvalidUserInput(m) => "Invalid user input: ".to_owned().concat(
                m.as_str(),
            ),
            CleanboxError::TagDictionaryCorrupted(m) => "Tag dictionary corrupted: ".to_owned()
                .concat(m.as_str()),
        }
    }
}

impl From<std::io::Error> for CleanboxError {
    /// Wraps a filesystem error without changing it.
    fn from(err: std::io::Error) -> (r: Self) {
        CleanboxError::Io(err)
    }
}

impl vstd::std_specs::convert::FromSpecImpl<std::io::Error> for CleanboxError {
    open spec fn obeys_from_spec() -> bool {
        true
    }

    open spec fn from_spec(err: std::io::Error) -> Self {
        CleanboxError::Io(err)
    }
}

} // verus!
