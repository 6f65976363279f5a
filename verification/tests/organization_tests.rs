use cleanbox::document::DocumentInput;
use cleanbox::error::CleanboxError;
use cleanbox::media::{File, FileMetadata};
use cleanbox::organization::{
    parse_datetime_parts, CustomOrganizer, DocumentOrganizer, FlatOrganizer, MonthlyOrganizer,
    OrganizationStrategy, YearlyOrganizer,
};

fn create_test_file_with_datetime(datetime: &str, file_type: &str) -> File {
    let metadata = FileMetadata::new(file_type.to_string()).with_datetime(datetime.to_string());
    File::new("/test/image.jpg".to_string()).with_metadata(metadata)
}

#[test]
fn test_monthly_organizer() {
    let organizer = MonthlyOrganizer::new();
    let file = create_test_file_with_datetime("2023-12-01_14-30-00", "image/jpeg");

    let result = organizer.determine_target_directory(&file, "/media").unwrap();
    assert_eq!(result, "/media/2023/12");
}

#[test]
fn test_monthly_organizer_different_date() {
    let organizer = MonthlyOrganizer::new();
    let file = create_test_file_with_datetime("2024-01-15_09-45-30", "video/mp4");

    let result = organizer.determine_target_directory(&file, "/storage").unwrap();
    assert_eq!(result, "/storage/2024/01");
}

#[test]
fn test_monthly_organizer_no_datetime() {
    let organizer = MonthlyOrganizer::new();
    let metadata = FileMetadata::new("image/jpeg".to_string());
    let file = File::new("/test/image.jpg".to_string()).with_metadata(metadata);

    let result = organizer.determine_target_directory(&file, "/media");
    assert!(result.is_err());
    assert!(matches!(result.unwrap_err(), CleanboxError::Exif(_)));
}

#[test]
fn test_monthly_organizer_invalid_datetime_format() {
    let organizer = MonthlyOrganizer::new();

    let file = create_test_file_with_datetime("", "image/jpeg");
    let result = organizer.determine_target_directory(&file, "/media");
    assert!(result.is_err());
    match result.unwrap_err() {
        CleanboxError::InvalidDateTime(_) => {}
        other => panic!("Expected InvalidDateTime, got: {:?}", other),
    }

    let file = create_test_file_with_datetime("2023_14-30-00", "image/jpeg");
    let result = organizer.determine_target_directory(&file, "/media");
    assert!(result.is_err());
    match result.unwrap_err() {
        CleanboxError::InvalidDateTime(_) => {}
        other => panic!("Expected InvalidDateTime, got: {:?}", other),
    }
}

#[test]
fn test_flat_organizer() {
    let organizer = FlatOrganizer::new();
    let file = create_test_file_with_datetime("2023-12-01_14-30-00", "image/jpeg");

    let result = organizer.determine_target_directory(&file, "/media").unwrap();
    assert_eq!(result, "/media");
}

#[test]
fn test_yearly_organizer() {
    let organizer = YearlyOrganizer::new();
    let file = create_test_file_with_datetime("2023-12-01_14-30-00", "image/jpeg");

    let result = organizer.determine_target_directory(&file, "/media").unwrap();
    assert_eq!(result, "/media/2023");
}

#[test]
fn test_custom_organizer_datetime_replacement() {
    let organizer = CustomOrganizer::new("{year}/{month}/{day}".to_string());
    let file = create_test_file_with_datetime("2023-12-01_14-30-00", "image/jpeg");

    let result = organizer.determine_target_directory(&file, "/media").unwrap();
    assert_eq!(result, "/media/2023/12/01");
}

#[test]
fn test_custom_organizer_media_type() {
    let organizer = CustomOrganizer::new("{media_type}/{year}".to_string());
    let file = create_test_file_with_datetime("2023-12-01_14-30-00", "image/jpeg");

    let result = organizer.determine_target_directory(&file, "/media").unwrap();
    assert_eq!(result, "/media/image/2023");
}

#[test]
fn test_custom_organizer_video_type() {
    let organizer = CustomOrganizer::new("{media_type}/{year}".to_string());
    let file = create_test_file_with_datetime("2023-12-01_14-30-00", "video/mp4");

    let result = organizer.determine_target_directory(&file, "/media").unwrap();
    assert_eq!(result, "/media/video/2023");
}

#[test]
fn test_parse_datetime_parts() {
    let result = parse_datetime_parts("2023-12-01_14-30-00").unwrap();
    assert_eq!(result, ("2023".to_string(), "12".to_string()));
}

#[test]
fn test_parse_datetime_parts_invalid_format() {
    let result = parse_datetime_parts("invalid");
    assert!(result.is_err());
    assert!(matches!(result.unwrap_err(), CleanboxError::InvalidDateTime(_)));
}

#[test]
fn test_parse_datetime_parts_missing_month() {
    let result = parse_datetime_parts("2023_14-30-00");
    assert!(result.is_err());
    assert!(matches!(result.unwrap_err(), CleanboxError::InvalidDateTime(_)));
}

#[test]
fn test_document_organizer_from_input() {
    let organizer = DocumentOrganizer::new();
    let document_input = DocumentInput::new(
        "2025-07-31".to_string(),
        "quarterly-report".to_string(),
        vec!["finance".to_string()],
    );

    let result = organizer
        .determine_target_directory_from_input(&document_input, "/documents")
        .unwrap();
    assert_eq!(result, "/documents/2025/07");
}

#[test]
fn test_document_organizer_from_input_different_date() {
    let organizer = DocumentOrganizer::new();
    let document_input = DocumentInput::new(
        "2023-12-01".to_string(),
        "meeting-notes".to_string(),
        vec!["meetings".to_string()],
    );

    let result = organizer
        .determine_target_directory_from_input(&document_input, "/life/documents")
        .unwrap();
    assert_eq!(result, "/life/documents/2023/12");
}

#[test]
fn test_document_organizer_invalid_date_format() {
    let organizer = DocumentOrganizer::new();
    let document_input = DocumentInput::new(
        "2025-7-31".to_string(),
        "test-doc".to_string(),
        vec!["test".to_string()],
    );

    let result = organizer
        .determine_target_directory_from_input(&document_input, "/documents")
        .unwrap();
    assert_eq!(result, "/documents/2025/7");
}

#[test]
fn test_document_organizer_fallback_with_file() {
    let organizer = DocumentOrganizer::new();
    let file = create_test_file_with_datetime("2023-12-01_14-30-00", "application/pdf");

    let result = organizer.determine_target_directory(&file, "/documents").unwrap();
    assert_eq!(result, "/documents/2023/12");
}

#[test]
fn test_document_organizer_fallback_no_datetime() {
    let organizer = DocumentOrganizer::new();
    let metadata = FileMetadata::new("application/pdf".to_string());
    let file = File::new("/test/document.pdf".to_string()).with_metadata(metadata);

    let result = organizer.determine_target_directory(&file, "/documents");
    assert!(result.is_err());
    assert!(result.unwrap_err().message().contains("datetime information"));
}
