use cleanbox::error::CleanboxError;
use cleanbox::filesystem::FileManager;
use cleanbox::tags::{
    validate_tag_format, SimilarTag, TagDictionary, TagResolution, TagResolutionFlow, TagValidator,
};
use std::collections::HashMap;
use std::time::SystemTime;

struct MockFileManager {
    files: HashMap<String, Vec<u8>>,
}

impl MockFileManager {
    fn new() -> Self {
        MockFileManager { files: HashMap::new() }
    }

    fn add_text_file(&mut self, path: &str, content: &str) {
        self.files.insert(path.to_string(), content.as_bytes().to_vec());
    }
}

impl FileManager for MockFileManager {
    fn read_directory(&self, _path: &str) -> Result<Vec<String>, CleanboxError> {
        Ok(Vec::new())
    }

    fn create_directories(&self, _path: &str) -> Result<(), CleanboxError> {
        Ok(())
    }

    fn rename_file(&self, _from: &str, _to: &str) -> Result<(), CleanboxError> {
        Ok(())
    }

    fn move_file(&self, _from: &str, _to: &str) -> Result<(), CleanboxError> {
        Ok(())
    }

    fn file_exists(&self, path: &str) -> bool {
        self.files.contains_key(path)
    }

    fn is_file(&self, path: &str) -> bool {
        self.files.contains_key(path)
    }

    fn calculate_file_hash(&self, path: &str) -> Result<String, CleanboxError> {
        Err(CleanboxError::InvalidPath(path.to_string()))
    }

    fn get_file_modified_time(&self, path: &str) -> Result<SystemTime, CleanboxError> {
        Err(CleanboxError::InvalidPath(path.to_string()))
    }

    fn read_text_file(&self, path: &str) -> Result<String, CleanboxError> {
        match self.files.get(path) {
            Some(content) => Ok(String::from_utf8_lossy(content).to_string()),
            None => Err(CleanboxError::InvalidPath(path.to_string())),
        }
    }

    fn write_text_file(&self, _path: &str, _content: &str) -> Result<(), CleanboxError> {
        Ok(())
    }
}

fn test_dictionary() -> TagDictionary {
    TagDictionary::from_text(
        "finance\nquarterly\nreports\nmachine-learning\ndata-science\nproject-management\n",
    )
    .unwrap()
}

#[test]
fn test_tag_dictionary_creation() {
    let dict = TagDictionary::new();
    assert!(dict.is_empty());
    assert_eq!(dict.len(), 0);
}

#[test]
fn test_load_from_file() {
    let mut fm = MockFileManager::new();
    fm.add_text_file(
        "/life/documents/tags.txt",
        "finance\nquarterly\nreports\nmachine-learning\ndata-science\nproject-management\n",
    );
    let dict = TagDictionary::load_from_file(&fm, "/life/documents/tags.txt").unwrap();

    assert!(!dict.is_empty());
    assert_eq!(dict.len(), 6);
    assert!(dict.contains("finance"));
    assert!(dict.contains("machine-learning"));
    assert!(!dict.contains("nonexistent"));
}

#[test]
fn test_save_to_file() {
    let mut dict = TagDictionary::new();
    dict.add_tag("finance".to_string()).unwrap();
    dict.add_tag("reports".to_string()).unwrap();
    dict.add_tag("data-science".to_string()).unwrap();

    let text = dict.to_text();
    let loaded_dict = TagDictionary::from_text(&text).unwrap();
    assert_eq!(loaded_dict.len(), 3);
    assert!(loaded_dict.contains("finance"));
    assert!(loaded_dict.contains("reports"));
    assert!(loaded_dict.contains("data-science"));

    assert_eq!(text, "data-science\nfinance\nreports\n");

    let fm = MockFileManager::new();
    assert!(dict.save_to_file(&fm, "/life/documents/tags.txt").is_ok());
}

#[test]
fn test_add_tag() {
    let mut dict = TagDictionary::new();

    assert!(dict.add_tag("valid-tag".to_string()).is_ok());
    assert!(dict.contains("valid-tag"));

    assert!(dict.add_tag("Invalid-Tag".to_string()).is_err());
    assert!(!dict.contains("Invalid-Tag"));
}

#[test]
fn test_all_tags() {
    let mut dict = TagDictionary::new();
    dict.add_tag("zebra".to_string()).unwrap();
    dict.add_tag("apple".to_string()).unwrap();
    dict.add_tag("banana".to_string()).unwrap();

    let tags = dict.all_tags();
    assert_eq!(tags, vec!["apple", "banana", "zebra"]);
}

#[test]
fn test_find_similar() {
    let mut dict = TagDictionary::new();
    dict.add_tag("receipt".to_string()).unwrap();
    dict.add_tag("research".to_string()).unwrap();
    dict.add_tag("legacy".to_string()).unwrap();
    dict.add_tag("career".to_string()).unwrap();
    dict.add_tag("finance".to_string()).unwrap();
    dict.add_tag("machine-learning".to_string()).unwrap();
    dict.add_tag("data-science".to_string()).unwrap();

    let similar = dict.find_similar("re", 5);
    assert!(!similar.is_empty(), "Should find matches for 're'");

    let names: Vec<&str> = similar.iter().map(|s| s.tag.as_str()).collect();
    assert!(names.contains(&"receipt"), "Should find 'receipt'");
    assert!(names.contains(&"research"), "Should find 'research'");

    let first_result = &similar[0];
    assert!(
        first_result.tag.starts_with("re"),
        "First result should start with 're'"
    );

    let similar = dict.find_similar("", 5);
    assert!(similar.is_empty(), "Empty query should return no results");

    let similar = dict.find_similar("xzqj", 3);
    assert!(similar.is_empty(), "Should find no matches for 'xzqj'");

    let similar = dict.find_similar("a", 2);
    assert!(similar.len() <= 2, "Should respect the result limit");
}

#[test]
fn test_find_similar_ranks_prefix_match_first() {
    let dict = TagDictionary::from_text("receipt\nlegacy\ncareer\nfinance\n").unwrap();

    let similar = dict.find_similar("re", 3);
    assert!(!similar.is_empty());
    assert_eq!(similar[0].tag, "receipt");

    let names: Vec<&str> = similar.iter().map(|s| s.tag.as_str()).collect();
    assert!(!names.contains(&"legacy"));
    assert!(!names.contains(&"finance"));
}

#[test]
fn test_find_similar_exact_score() {
    let mut dict = TagDictionary::new();
    dict.add_tag("receipt".to_string()).unwrap();

    let similar = dict.find_similar("re", 1);
    assert_eq!(similar.len(), 1);
    let entry = &similar[0];
    assert_eq!(entry.tag, "receipt");
    assert_eq!(entry.distance, 5);
    assert_eq!(entry.similarity_den, 70);
    assert_eq!(entry.similarity_num, 62);
}

#[test]
fn test_validate_tag_format() {
    assert!(validate_tag_format("finance").is_ok());
    assert!(validate_tag_format("machine-learning").is_ok());
    assert!(validate_tag_format("data-science-2025").is_ok());
    assert!(validate_tag_format("simple").is_ok());
    assert!(validate_tag_format("a").is_ok());

    assert!(validate_tag_format("").is_err());
    assert!(validate_tag_format("Finance").is_err());
    assert!(validate_tag_format("has spaces").is_err());
    assert!(validate_tag_format("has_underscores").is_err());
    assert!(validate_tag_format("-starts-hyphen").is_err());
    assert!(validate_tag_format("ends-hyphen-").is_err());
    assert!(validate_tag_format("double--hyphen").is_err());
    assert!(validate_tag_format("special@chars").is_err());
    assert!(validate_tag_format("ünïcödé").is_err());
}

#[test]
fn test_tag_validator_trait() {
    let dict = test_dictionary();

    let valid_tags = vec!["finance".to_string(), "reports".to_string()];
    assert!(dict.validate_tags(&valid_tags).is_ok());

    let invalid_tags = vec!["Valid".to_string(), "invalid tag".to_string()];
    assert!(dict.validate_tags(&invalid_tags).is_err());

    let suggestions = dict.suggest_similar("finanse");
    assert!(suggestions.len() <= 5);
}

#[test]
fn test_tag_resolution_flow() {
    let dict = test_dictionary();
    let flow = TagResolutionFlow::new(dict);

    match flow.resolve_tag("finance") {
        TagResolution::ExactMatch(tag) => assert_eq!(tag, "finance"),
        other => panic!("Unexpected resolution for exact match: {:?}", other),
    }

    match flow.resolve_tag("finanse") {
        TagResolution::SimilarFound { input, similar, .. } => {
            assert_eq!(input, "finanse");
            assert!(!similar.is_empty());
        }
        TagResolution::NoMatch { input, can_create } => {
            assert_eq!(input, "finanse");
            assert!(can_create);
        }
        TagResolution::ExactMatch(_) => panic!("Should not be exact match for typo"),
    }

    match flow.resolve_tag("new-valid-tag") {
        TagResolution::NoMatch { input, can_create } => {
            assert_eq!(input, "new-valid-tag");
            assert!(can_create);
        }
        TagResolution::SimilarFound { input, can_create, .. } => {
            assert_eq!(input, "new-valid-tag");
            assert!(can_create);
        }
        TagResolution::ExactMatch(_) => panic!("Should not be exact match for new tag"),
    }

    match flow.resolve_tag("Invalid-Tag") {
        TagResolution::NoMatch { input, can_create } => {
            assert_eq!(input, "Invalid-Tag");
            assert!(!can_create);
        }
        TagResolution::SimilarFound { input, can_create, .. } => {
            assert_eq!(input, "Invalid-Tag");
            assert!(!can_create);
        }
        TagResolution::ExactMatch(_) => panic!("Should not be exact match for invalid tag"),
    }
}

#[test]
fn test_tag_resolution_flow_add_new_tag() {
    let mut flow = TagResolutionFlow::new(TagDictionary::new());
    assert!(flow.add_new_tag("brand-new").is_ok());
    assert!(flow.dictionary().contains("brand-new"));
    assert!(flow.add_new_tag("Not Valid").is_err());
}

#[test]
fn test_corrupted_tags_file() {
    let fm = MockFileManager::new();
    let result = TagDictionary::load_from_file(&fm, "/nowhere/tags.txt");
    assert!(result.is_err());
    assert!(matches!(
        result.unwrap_err(),
        CleanboxError::TagDictionaryCorrupted(_)
    ));
}

#[test]
fn test_invalid_line_rejects_whole_file() {
    let result = TagDictionary::from_text("finance\nNot A Tag\nreports\n");
    assert!(result.is_err());
    assert!(matches!(result.unwrap_err(), CleanboxError::InvalidUserInput(_)));
}

#[test]
fn test_similar_tag_structure() {
    let similar = SimilarTag {
        tag: "finance".to_string(),
        distance: 2,
        similarity_num: 56,
        similarity_den: 70,
    };

    assert_eq!(similar.tag, "finance");
    assert_eq!(similar.distance, 2);
    assert_eq!(similar.similarity_num, 56);
    assert_eq!(similar.similarity_den, 70);
}
