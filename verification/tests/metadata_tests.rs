use cleanbox::filesystem::sha1_hex;
use cleanbox::media::FileType;
use cleanbox::metadata::{fallback_mime, format_datetime, metadata_from_bytes};

#[test]
fn test_format_datetime_unchanged() {
    let result = format_datetime("2023:07:15 14:30:25").unwrap();
    assert_eq!(result, "2023-07-15_14-30-25");
}

#[test]
fn test_format_datetime_rejects_malformed() {
    assert!(format_datetime("2023:07:15").is_err());
    assert!(format_datetime("").is_err());
    assert!(format_datetime("2023:07:15 14:30:25 extra").is_err());
}

#[test]
fn test_fallback_mime_by_extension() {
    assert_eq!(fallback_mime("notes.txt"), "text/plain");
    assert_eq!(fallback_mime("report.pdf"), "application/pdf");
    assert_eq!(fallback_mime("old.doc"), "application/msword");
    assert_eq!(
        fallback_mime("new.docx"),
        "application/vnd.openxmlformats-officedocument.wordprocessingml.document"
    );
    assert_eq!(fallback_mime("mystery.xyz"), "application/octet-stream");
    assert_eq!(fallback_mime("no_extension"), "application/octet-stream");
}

#[test]
fn test_metadata_from_bytes_pdf_signature() {
    let bytes = b"%PDF-1.4\nsome pdf content";
    let metadata = metadata_from_bytes(bytes, "/inbox/report.pdf");

    assert_eq!(metadata.file_type, FileType::Document);
    assert!(metadata.mime_type.contains("pdf"));
    assert!(metadata.datetime_original.is_none());
}

#[test]
fn test_metadata_from_bytes_jpeg_signature() {
    let bytes = [0xFF, 0xD8, 0xFF, 0xE0, 0x00, 0x10, 0x4A, 0x46, 0x49, 0x46, 0x00];
    let metadata = metadata_from_bytes(&bytes, "/inbox/photo.jpg");

    assert_eq!(metadata.file_type, FileType::Image);
    assert!(metadata.mime_type.starts_with("image/"));
}

#[test]
fn test_metadata_from_bytes_fallback_extension_detection() {
    let bytes = b"not a real docx but has docx extension";
    let metadata = metadata_from_bytes(bytes, "/inbox/letter.docx");

    assert_eq!(metadata.file_type, FileType::Document);
    assert_eq!(
        metadata.mime_type,
        "application/vnd.openxmlformats-officedocument.wordprocessingml.document"
    );
}

#[test]
fn test_metadata_from_bytes_unknown_extension() {
    let bytes = b"unknown file type";
    let metadata = metadata_from_bytes(bytes, "/inbox/thing.xyz");

    assert_eq!(metadata.file_type, FileType::Unknown);
    assert_eq!(metadata.mime_type, "application/octet-stream");
}

#[test]
fn test_sha1_hex_known_values() {
    let empty = sha1_hex(b"");
    assert_eq!(empty, "da39a3ee5e6b4b0d3255bfef95601890afd80709");

    let abc = sha1_hex(b"abc");
    assert_eq!(abc, "a9993e364706816aba3e25717850c26c9cd0d89d");

    assert_eq!(sha1_hex(b"abc").len(), 40);
}
