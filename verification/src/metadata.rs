//! Metadata parsing as the pipeline sees it: a capability trait a real
//! parser implements, plus the verified core that classifies a file
//! from its bytes and normalizes an embedded capture timestamp.

use vstd::prelude::*;
use vstd::string::*;
use crate::error::CleanboxError;
use crate::media::{mime_category, File, FileMetadata, FileType};
use crate::pathstr::{extension_spec, has_extension_spec};
use crate::tags::{trim_chars, trim_spec};
use crate::text::{
    chars_of, chars_eq, push_all, replace_char, replace_seq, split_char, split_on,
    string_from_chars,
};

verus! {

/// Parses file metadata. Implementations read the file, so no call
/// result is specified: callers must cope with every outcome.
pub trait MetadataParser {
    /// The parsed metadata of the file at a path.
    fn parse_metadata(&self, file_path: &str) -> Result<FileMetadata, CleanboxError>;

    /// The normalized capture datetime of the file at a path.
    fn extract_datetime(&self, file_path: &str) -> Result<String, CleanboxError>;

    /// Whether this parser handles a category at all.
    fn supports_file_type(&self, file_type: &FileType) -> bool;
}

/// The MIME type a byte signature identifies, when one does.
pub uninterp spec fn mime_of(data: Seq<u8>) -> Option<Seq<char>>;

/// Relies on `infer::get`: the MIME type matched against the file's
/// leading byte signature, a function of the bytes alone.
#[verifier::external_body]
pub fn mime_from_bytes(data: &[u8]) -> (r: Option<String>)
    ensures
        r matches Some(m) ==> mime_of(data@) == Some(m@),
        r is None ==> mime_of(data@) is None,
{
    match infer::get(data) {
        Some(kind) => Some(kind.mime_type().to_string()),
        None => None,
    }
}

/// The raw text of the capture-time field of embedded photo metadata,
/// when the bytes carry one.
pub uninterp spec fn exif_datetime_of(data: Seq<u8>) -> Option<Seq<char>>;

/// Relies on `rexif::parse_buffer_quiet` and its `DateTimeOriginal`
/// entry: the capture-time text embedded in the bytes, a function of
/// the bytes alone. The quiet variant keeps parse warnings off the
/// console.
#[verifier::external_body]
pub fn exif_datetime_from_bytes(data: &[u8]) -> (r: Option<String>)
    ensures
        r matches Some(d) ==> exif_datetime_of(data@) == Some(d@),
        r is None ==> exif_datetime_of(data@) is None,
{
    let (parsed, _warnings) = rexif::parse_buffer_quiet(data);
    let exif = match parsed {
        Ok(e) => e,
        Err(_) => {
            return None;
        },
    };
    for entry in &exif.entries {
        if matches!(entry.tag, rexif::ExifTag::DateTimeOriginal) {
            return Some(entry.value_more_readable.to_string());
        }
    }
    None
}

/// What normalizing a raw capture timestamp yields: the trimmed text
/// must split on one space into a date and a time, whose `:` separators
/// become `-` and which are joined with `_`.
pub open spec fn format_datetime_spec(raw: Seq<char>) -> Option<Seq<char>> {
    let parts = split_char(trim_spec(raw), ' ');
    if parts.len() == 2 {
        Some(
            replace_seq(parts[0], seq![':'], seq!['-']) + seq!['_'] + replace_seq(
                parts[1],
                seq![':'],
                seq!['-'],
            ),
        )
    } else {
        None
    }
}

/// Normalizes a raw `YYYY:MM:DD HH:MM:SS` capture timestamp into the
/// `YYYY-MM-DD_HH-MM-SS` form the archive uses. Fails exactly when the
/// trimmed text does not split on one space into two parts.
pub fn format_datetime(raw_datetime: &str) -> (r: Result<String, CleanboxError>)
    ensures
        r is Ok <==> format_datetime_spec(raw_datetime@) is Some,
        r matches Ok(d) ==> format_datetime_spec(raw_datetime@) == Some(d@),
        r matches Err(e) ==> e is InvalidDateTime,
{
    let chars = chars_of(raw_datetime);
    let trimmed = trim_chars(&chars);
    let parts = split_on(&trimmed, ' ');
    if parts.len() != 2 {
        return Err(
            CleanboxError::InvalidDateTime("Expected format 'YYYY:MM:DD HH:MM:SS'".to_owned()),
        );
    }
    proof {
        assert(parts@[0]@ == split_char(trim_spec(raw_datetime@), ' ')[0]);
        assert(parts@[1]@ == split_char(trim_spec(raw_datetime@), ' ')[1]);
    }
    let date = replace_char(&parts[0], ':', '-');
    let time = replace_char(&parts[1], ':', '-');
    let mut out: Vec<char> = Vec::new();
    push_all(&mut out, &date);
    out.push('_');
    push_all(&mut out, &time);
    proof {
        assert(out@ =~= format_datetime_spec(raw_datetime@).unwrap());
    }
    Ok(string_from_chars(&out))
}

/// The fallback MIME type used when no byte signature matches: a fixed
/// map over a handful of document extensions, anything else an opaque
/// byte stream.
pub open spec fn fallback_mime_spec(p: Seq<char>) -> Seq<char> {
    if has_extension_spec(p) && extension_spec(p) == "txt"@ {
        "text/plain"@
    } else if has_extension_spec(p) && extension_spec(p) == "pdf"@ {
        "application/pdf"@
    } else if has_extension_spec(p) && extension_spec(p) == "doc"@ {
        "application/msword"@
    } else if has_extension_spec(p) && extension_spec(p) == "docx"@ {
        "application/vnd.openxmlformats-officedocument.wordprocessingml.document"@
    } else {
        "application/octet-stream"@
    }
}

/// The fallback MIME type for a path, by its extension.
pub fn fallback_mime(path: &str) -> (r: String)
    ensures
        r@ == fallback_mime_spec(path@),
{
    let file = File::new(path.to_owned());
    let ext = match file.extension() {
        Ok(e) => e,
        Err(_) => {
            return "application/octet-stream".to_owned();
        },
    };
    let ec = chars_of(ext.as_str());
    if chars_eq(ec.as_slice(), chars_of("txt").as_slice()) {
        "text/plain".to_owned()
    } else if chars_eq(ec.as_slice(), chars_of("pdf").as_slice()) {
        "application/pdf".to_owned()
    } else if chars_eq(ec.as_slice(), chars_of("doc").as_slice()) {
        "application/msword".to_owned()
    } else if chars_eq(ec.as_slice(), chars_of("docx").as_slice()) {
        "application/vnd.openxmlformats-officedocument.wordprocessingml.document".to_owned()
    } else {
        "application/octet-stream".to_owned()
    }
}

/// The MIME type metadata parsing settles on: the byte signature when
/// one matches, else the extension fallback.
pub open spec fn detected_mime_spec(data: Seq<u8>, p: Seq<char>) -> Seq<char> {
    match mime_of(data) {
        Some(m) => m,
        None => fallback_mime_spec(p),
    }
}

/// Builds the metadata of a file from its bytes and its path: the MIME
/// type from the byte signature (or the extension fallback), the
/// category derived from it, and, for images and videos that carry one,
/// the normalized capture datetime.
pub fn metadata_from_bytes(data: &[u8], path: &str) -> (r: FileMetadata)
    ensures
        r.mime_type@ == detected_mime_spec(data@, path@),
        r.file_type == mime_category(detected_mime_spec(data@, path@)),
        r.file_hash is None,
        (r.file_type == FileType::Image || r.file_type == FileType::Video) ==> match exif_datetime_of(
            data@,
        ) {
            Some(raw) => match format_datetime_spec(raw) {
                Some(f) => r.datetime_original matches Some(d) && d@ == f,
                None => r.datetime_original is None,
            },
            None => r.datetime_original is None,
        },
        !(r.file_type == FileType::Image || r.file_type == FileType::Video)
            ==> r.datetime_original is None,
{
    let mime = match mime_from_bytes(data) {
        Some(m) => m,
        None => fallback_mime(path),
    };
    let metadata = FileMetadata::new(mime);
    if metadata.file_type.is_auto_processable() {
        match exif_datetime_from_bytes(data) {
            Some(raw) => match format_datetime(raw.as_str()) {
                Ok(dt) => metadata.with_datetime(dt),
                Err(_) => metadata,
            },
            None => metadata,
        }
    } else {
        metadata
    }
}

} // verus!
