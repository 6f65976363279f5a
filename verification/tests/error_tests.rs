use cleanbox::error::CleanboxError;
use std::io;

#[test]
fn test_display_formatting() {
    let io_err = CleanboxError::Io(io::Error::new(io::ErrorKind::NotFound, "file not found"));
    assert!(io_err.message().contains("IO error:"));

    let exif_err = CleanboxError::Exif("parsing failed".to_string());
    assert_eq!(exif_err.message(), "EXIF error: parsing failed");

    let path_err = CleanboxError::InvalidPath("/invalid/path".to_string());
    assert_eq!(path_err.message(), "Invalid path: /invalid/path");

    let datetime_err = CleanboxError::InvalidDateTime("bad format".to_string());
    assert_eq!(datetime_err.message(), "Invalid datetime format: bad format");

    let ext_err = CleanboxError::InvalidFileExtension("file.txt".to_string());
    assert_eq!(ext_err.message(), "File has no extension: file.txt");

    let stem_err = CleanboxError::InvalidFileStem("file.txt".to_string());
    assert_eq!(stem_err.message(), "Invalid file stem: file.txt");

    let exists_err = CleanboxError::FileAlreadyExists("/path/file.txt".to_string());
    assert_eq!(exists_err.message(), "File already exists: /path/file.txt");

    let file_err = CleanboxError::UnsupportedFileType("text/plain".to_string());
    assert_eq!(file_err.message(), "Unsupported file type: text/plain");

    let cancel_err = CleanboxError::UserCancelled;
    assert_eq!(cancel_err.message(), "Operation cancelled by user");

    let input_err = CleanboxError::InvalidUserInput("bad date format".to_string());
    assert_eq!(input_err.message(), "Invalid user input: bad date format");

    let tag_err = CleanboxError::TagDictionaryCorrupted("malformed tags.txt".to_string());
    assert_eq!(tag_err.message(), "Tag dictionary corrupted: malformed tags.txt");
}

#[test]
fn test_from_io_error() {
    let io_err = io::Error::new(io::ErrorKind::PermissionDenied, "access denied");
    let cleanbox_err: CleanboxError = io_err.into();
    match cleanbox_err {
        CleanboxError::Io(_) => {}
        _ => panic!("Expected IO error variant"),
    }
}

#[test]
fn test_error_integration() {
    let io_error = io::Error::new(io::ErrorKind::NotFound, "test");
    let cleanbox_error: CleanboxError = io_error.into();

    match cleanbox_error {
        CleanboxError::Io(_) => {}
        _ => panic!("Wrong error type"),
    }

    let result: Result<i32, CleanboxError> =
        Err(CleanboxError::InvalidPath("test".to_string()));
    assert!(result.is_err());
}
