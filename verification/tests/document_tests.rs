use chrono::TimeZone;
use cleanbox::document::{
    extract_date_from_filename, format_system_time_to_date, suggest_document_date,
    today_date_string, DocumentInput,
};
use cleanbox::error::CleanboxError;
use cleanbox::filesystem::FileManager;
use std::collections::HashMap;
use std::time::{Duration, SystemTime, UNIX_EPOCH};

struct MockFileManager {
    files: HashMap<String, Vec<u8>>,
    file_modified_times: HashMap<String, SystemTime>,
}

impl MockFileManager {
    fn new() -> Self {
        MockFileManager { files: HashMap::new(), file_modified_times: HashMap::new() }
    }

    fn add_file(&mut self, path: &str, content: Vec<u8>) {
        self.files.insert(path.to_string(), content);
    }

    fn add_file_with_modified_time(&mut self, path: &str, content: Vec<u8>, time: SystemTime) {
        self.files.insert(path.to_string(), content);
        self.file_modified_times.insert(path.to_string(), time);
    }
}

impl FileManager for MockFileManager {
    fn read_directory(&self, _path: &str) -> Result<Vec<String>, CleanboxError> {
        Ok(self.files.keys().cloned().collect())
    }

    fn create_directories(&self, _path: &str) -> Result<(), CleanboxError> {
        Ok(())
    }

    fn rename_file(&self, _from: &str, _to: &str) -> Result<(), CleanboxError> {
        Ok(())
    }

    fn move_file(&self, _from: &str, _to: &str) -> Result<(), CleanboxError> {
        Ok(())
    }

    fn file_exists(&self, path: &str) -> bool {
        self.files.contains_key(path)
    }

    fn is_file(&self, path: &str) -> bool {
        self.files.contains_key(path)
    }

    fn calculate_file_hash(&self, path: &str) -> Result<String, CleanboxError> {
        match self.files.get(path) {
            Some(content) => Ok(cleanbox::filesystem::sha1_hex(content)),
            None => Err(CleanboxError::InvalidPath(path.to_string())),
        }
    }

    fn get_file_modified_time(&self, path: &str) -> Result<SystemTime, CleanboxError> {
        match self.file_modified_times.get(path) {
            Some(t) => Ok(*t),
            None => {
                if self.files.contains_key(path) {
                    Ok(SystemTime::now())
                } else {
                    Err(CleanboxError::InvalidPath(path.to_string()))
                }
            }
        }
    }

    fn read_text_file(&self, path: &str) -> Result<String, CleanboxError> {
        match self.files.get(path) {
            Some(content) => Ok(String::from_utf8_lossy(content).to_string()),
            None => Err(CleanboxError::InvalidPath(path.to_string())),
        }
    }

    fn write_text_file(&self, _path: &str, _content: &str) -> Result<(), CleanboxError> {
        Ok(())
    }
}

#[test]
fn test_document_input_creation() {
    let input = DocumentInput::new(
        "2025-01-15".to_string(),
        "quarterly-report".to_string(),
        vec!["finance".to_string(), "quarterly".to_string()],
    );

    assert_eq!(input.date, "2025-01-15");
    assert_eq!(input.description, "quarterly-report");
    assert_eq!(input.tags, vec!["finance", "quarterly"]);
}

#[test]
fn test_valid_date_validation() {
    let input = DocumentInput::new(
        "2025-01-15".to_string(),
        "test".to_string(),
        vec!["tag".to_string()],
    );
    assert!(input.validate_date().is_ok());
}

#[test]
fn test_invalid_date_formats() {
    let test_cases = vec![
        ("2025-1-15", "Month must be 2 digits"),
        ("25-01-15", "Year must be 4 digits"),
        ("2025/01/15", "Must use hyphens"),
        ("2025-13-15", "Invalid month"),
        ("2025-01-32", "Invalid day"),
        ("1899-01-15", "Year too early"),
        ("2101-01-15", "Year too late"),
    ];

    for (invalid_date, _reason) in test_cases {
        let input = DocumentInput::new(
            invalid_date.to_string(),
            "test".to_string(),
            vec!["tag".to_string()],
        );
        assert!(input.validate_date().is_err(), "Should reject: {}", invalid_date);
    }
}

#[test]
fn test_valid_description_validation() {
    let valid_descriptions = vec![
        "quarterly-report",
        "test-document",
        "simple",
        "document-with-numbers-123",
        "a",
    ];

    for desc in valid_descriptions {
        let input = DocumentInput::new(
            "2025-01-15".to_string(),
            desc.to_string(),
            vec!["tag".to_string()],
        );
        assert!(input.validate_description().is_ok(), "Should accept: {}", desc);
    }
}

#[test]
fn test_invalid_description_formats() {
    let invalid_descriptions = vec![
        ("", "Empty description"),
        ("Capitalized", "Contains uppercase"),
        ("has spaces", "Contains spaces"),
        ("has_underscores", "Contains underscores"),
        ("-starts-with-hyphen", "Starts with hyphen"),
        ("ends-with-hyphen-", "Ends with hyphen"),
        ("double--hyphen", "Consecutive hyphens"),
        ("special@chars", "Special characters"),
    ];

    for (invalid_desc, _reason) in invalid_descriptions {
        let input = DocumentInput::new(
            "2025-01-15".to_string(),
            invalid_desc.to_string(),
            vec!["tag".to_string()],
        );
        assert!(
            input.validate_description().is_err(),
            "Should reject: {}",
            invalid_desc
        );
    }
}

#[test]
fn test_valid_tags_validation() {
    let input = DocumentInput::new(
        "2025-01-15".to_string(),
        "test".to_string(),
        vec![
            "finance".to_string(),
            "quarterly".to_string(),
            "report-2025".to_string(),
        ],
    );
    assert!(input.validate_tags().is_ok());
}

#[test]
fn test_invalid_tags() {
    let test_cases = vec![
        (vec![], "Empty tags list"),
        (vec!["".to_string()], "Empty tag"),
        (vec!["Capital".to_string()], "Uppercase in tag"),
        (vec!["has spaces".to_string()], "Spaces in tag"),
        (vec!["-starts-hyphen".to_string()], "Starts with hyphen"),
        (vec!["ends-hyphen-".to_string()], "Ends with hyphen"),
        (vec!["double--hyphen".to_string()], "Consecutive hyphens"),
    ];

    for (invalid_tags, _reason) in test_cases {
        let input =
            DocumentInput::new("2025-01-15".to_string(), "test".to_string(), invalid_tags);
        assert!(input.validate_tags().is_err());
    }
}

#[test]
fn test_complete_validation() {
    let valid_input = DocumentInput::new(
        "2025-01-15".to_string(),
        "quarterly-report".to_string(),
        vec!["finance".to_string(), "quarterly".to_string()],
    );
    assert!(valid_input.validate().is_ok());

    let invalid_input = DocumentInput::new(
        "invalid-date".to_string(),
        "Invalid Description".to_string(),
        vec!["Bad Tag".to_string()],
    );
    assert!(invalid_input.validate().is_err());
}

#[test]
fn test_filename_generation() {
    let input = DocumentInput::new(
        "2025-01-15".to_string(),
        "quarterly-report".to_string(),
        vec!["finance".to_string(), "reports".to_string()],
    );

    assert_eq!(
        input.to_filename_stem(),
        "2025-01-15_quarterly-report@@finance,reports"
    );
}

#[test]
fn test_today_date_string() {
    let today = today_date_string();
    assert_eq!(today.len(), 10);
    assert_eq!(today.chars().nth(4).unwrap(), '-');
    assert_eq!(today.chars().nth(7).unwrap(), '-');

    let input = DocumentInput::new(today, "test".to_string(), vec!["tag".to_string()]);
    assert!(input.validate_date().is_ok());
}

#[test]
fn test_extract_date_from_filename_yyyymmdd() {
    assert_eq!(
        extract_date_from_filename("20250731_quarterly_report.pdf"),
        Some("2025-07-31".to_string())
    );

    assert_eq!(
        extract_date_from_filename("20251225_christmas_plan.docx"),
        Some("2025-12-25".to_string())
    );

    assert_eq!(
        extract_date_from_filename("report_20250101_final.pdf"),
        Some("2025-01-01".to_string())
    );
}

#[test]
fn test_extract_date_from_filename_formatted() {
    assert_eq!(
        extract_date_from_filename("2025-07-31_quarterly_report.pdf"),
        Some("2025-07-31".to_string())
    );

    assert_eq!(
        extract_date_from_filename("2025_12_25_christmas_plan.docx"),
        Some("2025-12-25".to_string())
    );

    assert_eq!(
        extract_date_from_filename("invoice-2025-01-15.pdf"),
        Some("2025-01-15".to_string())
    );
}

#[test]
fn test_extract_date_from_filename_invalid() {
    assert_eq!(extract_date_from_filename("1899-01-01_old_document.pdf"), None);
    assert_eq!(extract_date_from_filename("2025-13-01_invalid_month.pdf"), None);
    assert_eq!(extract_date_from_filename("2025-01-32_invalid_day.pdf"), None);
    assert_eq!(extract_date_from_filename("some_document.pdf"), None);
    assert_eq!(extract_date_from_filename("202507_incomplete_date.pdf"), None);
}

#[test]
fn test_extract_date_from_filename_edge_cases() {
    assert_eq!(
        extract_date_from_filename("20250101_report_20251231.pdf"),
        Some("2025-01-01".to_string())
    );

    assert_eq!(
        extract_date_from_filename("20250731.backup.pdf"),
        Some("2025-07-31".to_string())
    );

    assert_eq!(
        extract_date_from_filename("/long/path/to/20250731_file.pdf"),
        Some("2025-07-31".to_string())
    );
}

#[test]
fn test_format_system_time_to_date() {
    let test_date = chrono::Utc.with_ymd_and_hms(2025, 7, 31, 12, 0, 0).unwrap();
    let test_time = test_date.into();

    let result = format_system_time_to_date(test_time);
    assert!(result.is_some());

    let date_str = result.unwrap();
    assert_eq!(date_str, "2025-07-31");
    assert_eq!(date_str.len(), 10);

    let now = SystemTime::now();
    let result = format_system_time_to_date(now);
    assert!(result.is_some());
}

#[test]
fn test_suggest_document_date_filename_priority() {
    let mut file_manager = MockFileManager::new();
    let old_time = UNIX_EPOCH + Duration::from_secs(1000000);

    file_manager.add_file_with_modified_time("20250731_report.pdf", vec![1, 2, 3], old_time);

    let result = suggest_document_date("20250731_report.pdf", &file_manager);
    assert_eq!(result, "2025-07-31");
}

#[test]
fn test_suggest_document_date_filesystem_fallback() {
    let mut file_manager = MockFileManager::new();
    let test_date = chrono::Utc.with_ymd_and_hms(2024, 6, 15, 12, 0, 0).unwrap();
    let known_time = test_date.into();

    file_manager.add_file_with_modified_time("report_without_date.pdf", vec![1, 2, 3], known_time);

    let result = suggest_document_date("report_without_date.pdf", &file_manager);
    assert_eq!(result, "2024-06-15");
    assert_eq!(result.len(), 10);
}

#[test]
fn test_suggest_document_date_today_fallback() {
    let file_manager = MockFileManager::new();

    let result = suggest_document_date("nonexistent_file.pdf", &file_manager);
    let today = today_date_string();
    assert_eq!(result, today);
}

#[test]
fn test_suggest_document_date_comprehensive_fallback() {
    let mut file_manager = MockFileManager::new();

    file_manager.add_file("20250101_test.pdf", vec![1, 2, 3]);
    let result = suggest_document_date("20250101_test.pdf", &file_manager);
    assert_eq!(result, "2025-01-01");

    let fs_time = UNIX_EPOCH + Duration::from_secs(1600000000);
    file_manager.add_file_with_modified_time("no_date_file.pdf", vec![4, 5, 6], fs_time);
    let result = suggest_document_date("no_date_file.pdf", &file_manager);
    assert_eq!(result.len(), 10);
    assert!(result.contains("-"));

    let result = suggest_document_date("completely_missing.pdf", &file_manager);
    let today = today_date_string();
    assert_eq!(result, today);
}
