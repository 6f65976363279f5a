use cleanbox::error::CleanboxError;
use cleanbox::filesystem::{sha1_hex, FileHasher, FileManager};
use std::collections::HashMap;
use std::time::{Duration, SystemTime, UNIX_EPOCH};

struct MockFileManager {
    files: HashMap<String, Vec<u8>>,
    file_modified_times: HashMap<String, SystemTime>,
}

impl MockFileManager {
    fn new() -> Self {
        MockFileManager { files: HashMap::new(), file_modified_times: HashMap::new() }
    }

    fn add_file(&mut self, path: &str, content: Vec<u8>) {
        self.files.insert(path.to_string(), content);
    }

    fn add_file_with_modified_time(&mut self, path: &str, content: Vec<u8>, time: SystemTime) {
        self.files.insert(path.to_string(), content);
        self.file_modified_times.insert(path.to_string(), time);
    }
}

impl FileManager for MockFileManager {
    fn read_directory(&self, path: &str) -> Result<Vec<String>, CleanboxError> {
        let prefix = format!("{}/", path);
        let mut entries: Vec<String> = self
            .files
            .keys()
            .filter(|p| p.starts_with(&prefix) && !p[prefix.len()..].contains('/'))
            .cloned()
            .collect();
        entries.sort();
        Ok(entries)
    }

    fn create_directories(&self, _path: &str) -> Result<(), CleanboxError> {
        Ok(())
    }

    fn rename_file(&self, _from: &str, _to: &str) -> Result<(), CleanboxError> {
        Ok(())
    }

    fn move_file(&self, _from: &str, _to: &str) -> Result<(), CleanboxError> {
        Ok(())
    }

    fn file_exists(&self, path: &str) -> bool {
        self.files.contains_key(path)
    }

    fn is_file(&self, path: &str) -> bool {
        self.files.contains_key(path)
    }

    fn calculate_file_hash(&self, path: &str) -> Result<String, CleanboxError> {
        match self.files.get(path) {
            Some(content) => Ok(sha1_hex(content)),
            None => Err(CleanboxError::InvalidPath(path.to_string())),
        }
    }

    fn get_file_modified_time(&self, path: &str) -> Result<SystemTime, CleanboxError> {
        match self.file_modified_times.get(path) {
            Some(t) => Ok(*t),
            None => {
                if self.files.contains_key(path) {
                    Ok(SystemTime::now())
                } else {
                    Err(CleanboxError::InvalidPath(path.to_string()))
                }
            }
        }
    }

    fn read_text_file(&self, path: &str) -> Result<String, CleanboxError> {
        match self.files.get(path) {
            Some(content) => Ok(String::from_utf8_lossy(content).to_string()),
            None => Err(CleanboxError::InvalidPath(path.to_string())),
        }
    }

    fn write_text_file(&self, _path: &str, _content: &str) -> Result<(), CleanboxError> {
        Ok(())
    }
}

#[test]
fn test_mock_file_manager_read_directory() {
    let mut manager = MockFileManager::new();
    manager.add_file("/test/file1.jpg", vec![1, 2, 3]);
    manager.add_file("/test/file2.jpg", vec![4, 5, 6]);
    manager.add_file("/other/file3.jpg", vec![7, 8, 9]);

    let files = manager.read_directory("/test").unwrap();
    assert_eq!(files.len(), 2);
    assert!(files.contains(&"/test/file1.jpg".to_string()));
    assert!(files.contains(&"/test/file2.jpg".to_string()));
}

#[test]
fn test_mock_file_manager_file_exists() {
    let mut manager = MockFileManager::new();
    manager.add_file("/test/file1.jpg", vec![1, 2, 3]);

    assert!(manager.file_exists("/test/file1.jpg"));
    assert!(!manager.file_exists("/test/nonexistent.jpg"));
}

#[test]
fn test_mock_file_manager_calculate_hash() {
    let mut manager = MockFileManager::new();
    let content = b"test content".to_vec();
    manager.add_file("/test/file1.txt", content);

    let hash1 = manager.calculate_file_hash("/test/file1.txt").unwrap();
    let hash2 = manager.calculate_file_hash("/test/file1.txt").unwrap();

    assert_eq!(hash1, hash2);
    assert!(!hash1.is_empty());
}

#[test]
fn test_mock_file_manager_calculate_hash_nonexistent() {
    let manager = MockFileManager::new();
    let result = manager.calculate_file_hash("/test/nonexistent.txt");
    assert!(result.is_err());
}

#[test]
fn test_file_hasher_generate_hash_suffix() {
    let hash = "abcdef123456789";
    assert_eq!(FileHasher::generate_hash_suffix(hash, 6), "abcdef");
    assert_eq!(FileHasher::generate_hash_suffix(hash, 3), "abc");
    assert_eq!(FileHasher::generate_hash_suffix(hash, 20), hash);
    assert_eq!(FileHasher::generate_hash_suffix(hash, 0), "");
}

#[test]
fn test_file_hasher_append_hash_to_filename() {
    let result = FileHasher::append_hash_to_filename("image.jpg", "abc123").unwrap();
    assert_eq!(result, "image_abc123.jpg");

    let result = FileHasher::append_hash_to_filename("my_photo.png", "def456").unwrap();
    assert_eq!(result, "my_photo_def456.png");
}

#[test]
fn test_file_hasher_append_hash_no_extension() {
    let result = FileHasher::append_hash_to_filename("filename", "abc123");
    assert!(result.is_err());
    assert!(matches!(
        result.unwrap_err(),
        CleanboxError::InvalidFileExtension(_)
    ));
}

#[test]
fn test_file_hasher_append_hash_no_stem() {
    let result = FileHasher::append_hash_to_filename("filename", "abc123");
    assert!(result.is_err());
    assert!(matches!(
        result.unwrap_err(),
        CleanboxError::InvalidFileExtension(_)
    ));

    let result = FileHasher::append_hash_to_filename(".gitignore", "abc123");
    assert!(result.is_err());
    assert!(matches!(
        result.unwrap_err(),
        CleanboxError::InvalidFileExtension(_)
    ));

    let result = FileHasher::append_hash_to_filename(".hidden.txt", "abc123");
    assert!(result.is_ok());
    assert_eq!(result.unwrap(), ".hidden_abc123.txt");
}

#[test]
fn test_mock_file_manager_get_file_modified_time() {
    let mut manager = MockFileManager::new();
    let test_time = UNIX_EPOCH + Duration::from_secs(1000000);

    manager.add_file_with_modified_time("/test/file1.txt", vec![1, 2, 3], test_time);

    let result = manager.get_file_modified_time("/test/file1.txt").unwrap();
    assert_eq!(result, test_time);

    manager.add_file("/test/file2.txt", vec![4, 5, 6]);
    let result = manager.get_file_modified_time("/test/file2.txt");
    assert!(result.is_ok());

    let result = manager.get_file_modified_time("/test/nonexistent.txt");
    assert!(result.is_err());
}

#[test]
fn test_mock_file_manager_add_file_with_modified_time() {
    let mut manager = MockFileManager::new();
    let test_time = UNIX_EPOCH + Duration::from_secs(2000000);
    let content = b"test content".to_vec();

    manager.add_file_with_modified_time("/test/file.txt", content, test_time);

    assert!(manager.file_exists("/test/file.txt"));

    let hash = manager.calculate_file_hash("/test/file.txt").unwrap();
    assert!(!hash.is_empty());

    let modified_time = manager.get_file_modified_time("/test/file.txt").unwrap();
    assert_eq!(modified_time, test_time);
}

#[test]
fn test_hash_suffix_distinct_contents() {
    let hash_a = sha1_hex(b"first file body");
    let hash_b = sha1_hex(b"second file body");
    assert_ne!(hash_a, hash_b);

    let name_a =
        FileHasher::append_hash_to_filename("target.jpg", &FileHasher::generate_hash_suffix(&hash_a, 6))
            .unwrap();
    let name_b =
        FileHasher::append_hash_to_filename("target.jpg", &FileHasher::generate_hash_suffix(&hash_b, 6))
            .unwrap();
    assert_ne!(name_a, name_b);
    assert!(name_a.starts_with("target_"));
    assert!(name_a.ends_with(".jpg"));
    assert_eq!(name_a.len(), "target_".len() + 6 + ".jpg".len());
    assert!(name_a["target_".len().."target_".len() + 6]
        .chars()
        .all(|c| c.is_ascii_hexdigit()));
}
