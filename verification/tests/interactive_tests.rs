use cleanbox::error::CleanboxError;
use cleanbox::filesystem::FileManager;
use cleanbox::interactive::{
    DatePrompt, DescriptionPrompt, DocumentInputCollector, FuzzyTagCompleter, ProgressIndicator,
    SmartTagSelector, UserPrompt,
};
use cleanbox::tags::TagDictionary;
use std::cell::RefCell;
use std::collections::HashMap;
use std::rc::Rc;
use std::time::SystemTime;

struct MockFileManager {
    files: HashMap<String, Vec<u8>>,
}

impl MockFileManager {
    fn new() -> Self {
        MockFileManager { files: HashMap::new() }
    }
}

impl FileManager for MockFileManager {
    fn read_directory(&self, _path: &str) -> Result<Vec<String>, CleanboxError> {
        Ok(Vec::new())
    }

    fn create_directories(&self, _path: &str) -> Result<(), CleanboxError> {
        Ok(())
    }

    fn rename_file(&self, _from: &str, _to: &str) -> Result<(), CleanboxError> {
        Ok(())
    }

    fn move_file(&self, _from: &str, _to: &str) -> Result<(), CleanboxError> {
        Ok(())
    }

    fn file_exists(&self, path: &str) -> bool {
        self.files.contains_key(path)
    }

    fn is_file(&self, path: &str) -> bool {
        self.files.contains_key(path)
    }

    fn calculate_file_hash(&self, path: &str) -> Result<String, CleanboxError> {
        Err(CleanboxError::InvalidPath(path.to_string()))
    }

    fn get_file_modified_time(&self, path: &str) -> Result<SystemTime, CleanboxError> {
        Err(CleanboxError::InvalidPath(path.to_string()))
    }

    fn read_text_file(&self, path: &str) -> Result<String, CleanboxError> {
        Err(CleanboxError::InvalidPath(path.to_string()))
    }

    fn write_text_file(&self, _path: &str, _content: &str) -> Result<(), CleanboxError> {
        Ok(())
    }
}

#[derive(Clone)]
struct MockPrompt {
    string_responses: Vec<String>,
    confirmation_responses: Vec<bool>,
    selection_responses: Vec<usize>,
    string_index: Rc<RefCell<usize>>,
    confirmation_index: Rc<RefCell<usize>>,
    selection_index: Rc<RefCell<usize>>,
}

impl MockPrompt {
    fn new() -> Self {
        MockPrompt {
            string_responses: Vec::new(),
            confirmation_responses: Vec::new(),
            selection_responses: Vec::new(),
            string_index: Rc::new(RefCell::new(0)),
            confirmation_index: Rc::new(RefCell::new(0)),
            selection_index: Rc::new(RefCell::new(0)),
        }
    }

    fn with_strings(mut self, responses: Vec<String>) -> Self {
        self.string_responses = responses;
        self
    }

    fn with_confirmations(mut self, responses: Vec<bool>) -> Self {
        self.confirmation_responses = responses;
        self
    }

    fn with_selections(mut self, responses: Vec<usize>) -> Self {
        self.selection_responses = responses;
        self
    }
}

impl UserPrompt for MockPrompt {
    fn prompt_string(&self, _message: &str, default: Option<&str>) -> Result<String, CleanboxError> {
        let mut index = self.string_index.borrow_mut();
        if *index < self.string_responses.len() {
            let response = self.string_responses[*index].clone();
            *index += 1;
            if response.is_empty() && default.is_some() {
                Ok(default.unwrap().to_string())
            } else {
                Ok(response)
            }
        } else {
            Err(CleanboxError::InvalidUserInput("No more scripted responses".to_string()))
        }
    }

    fn prompt_confirmation(&self, _message: &str, default: bool) -> Result<bool, CleanboxError> {
        let mut index = self.confirmation_index.borrow_mut();
        if *index < self.confirmation_responses.len() {
            let response = self.confirmation_responses[*index];
            *index += 1;
            Ok(response)
        } else {
            Ok(default)
        }
    }

    fn prompt_selection(&self, _message: &str, options: &Vec<String>) -> Result<usize, CleanboxError> {
        let mut index = self.selection_index.borrow_mut();
        if *index < self.selection_responses.len() {
            let response = self.selection_responses[*index];
            *index += 1;
            if response < options.len() {
                Ok(response)
            } else {
                Err(CleanboxError::InvalidUserInput("Invalid selection".to_string()))
            }
        } else {
            Err(CleanboxError::InvalidUserInput("No more scripted responses".to_string()))
        }
    }
}

#[test]
fn test_date_prompt_with_default() {
    let mock = MockPrompt::new().with_strings(vec!["".to_string()]);
    let file_manager = MockFileManager::new();
    let date_prompt = DatePrompt::new(mock, file_manager);

    let result = date_prompt.prompt_date().unwrap();
    assert_eq!(result.len(), 10);
    assert!(result.contains("-"));
}

#[test]
fn test_date_prompt_with_custom_date() {
    let mock = MockPrompt::new().with_strings(vec!["2025-06-15".to_string()]);
    let file_manager = MockFileManager::new();
    let date_prompt = DatePrompt::new(mock, file_manager);

    let result = date_prompt.prompt_date().unwrap();
    assert_eq!(result, "2025-06-15");
}

#[test]
fn test_date_prompt_retries_invalid_answer() {
    let mock = MockPrompt::new()
        .with_strings(vec!["not-a-date".to_string(), "2025-06-15".to_string()]);
    let file_manager = MockFileManager::new();
    let date_prompt = DatePrompt::new(mock, file_manager);

    let result = date_prompt.prompt_date().unwrap();
    assert_eq!(result, "2025-06-15");
}

#[test]
fn test_description_prompt() {
    let mock = MockPrompt::new().with_strings(vec!["quarterly-report".to_string()]);
    let description_prompt = DescriptionPrompt::new(mock);

    let result = description_prompt.prompt_description().unwrap();
    assert_eq!(result, "quarterly-report");
}

#[test]
fn test_progress_indicator() {
    let mut progress = ProgressIndicator::new(10, "Test Task".to_string());

    assert_eq!(progress.current, 0);
    assert_eq!(progress.total, 10);

    progress.update(5);
    assert_eq!(progress.current, 5);

    progress.increment();
    assert_eq!(progress.current, 6);

    progress.finish();
    assert_eq!(progress.current, 10);
}

#[test]
fn test_smart_tag_selector_exact_and_new() {
    let mut dict = TagDictionary::new();
    dict.add_tag("finance".to_string()).unwrap();

    let mock = MockPrompt::new()
        .with_strings(vec!["finance, general".to_string()])
        .with_confirmations(vec![true, false]);
    let mut selector = SmartTagSelector::new(mock, dict);

    let tags = selector.prompt_tags().unwrap();
    assert_eq!(tags, vec!["finance".to_string(), "general".to_string()]);
    assert!(selector.flow.dictionary().contains("general"));
}

#[test]
fn test_smart_tag_selector_similar_selection() {
    let mut dict = TagDictionary::new();
    dict.add_tag("receipt".to_string()).unwrap();

    let mock = MockPrompt::new()
        .with_strings(vec!["receip".to_string()])
        .with_selections(vec![0])
        .with_confirmations(vec![false]);
    let mut selector = SmartTagSelector::new(mock, dict);

    let tags = selector.prompt_tags().unwrap();
    assert_eq!(tags, vec!["receipt".to_string()]);
}

#[test]
fn test_document_input_collector_components() {
    let mut dict = TagDictionary::new();
    dict.add_tag("finance".to_string()).unwrap();

    let date_mock = MockPrompt::new().with_strings(vec!["2025-07-31".to_string()]);
    let file_manager = MockFileManager::new();
    let date_prompt = DatePrompt::new(date_mock, file_manager);
    let date_result = date_prompt.prompt_date().unwrap();
    assert_eq!(date_result, "2025-07-31");

    let desc_mock = MockPrompt::new().with_strings(vec!["quarterly-report".to_string()]);
    let desc_prompt = DescriptionPrompt::new(desc_mock);
    let desc_result = desc_prompt.prompt_description().unwrap();
    assert_eq!(desc_result, "quarterly-report");
}

#[test]
fn test_document_input_collector_full() {
    let dict = TagDictionary::new();
    let mock = MockPrompt::new()
        .with_strings(vec![
            "2025-01-01".to_string(),
            "meeting-notes".to_string(),
            "general".to_string(),
        ])
        .with_confirmations(vec![true, false]);
    let file_manager = MockFileManager::new();
    let mut collector = DocumentInputCollector::new(mock, dict, file_manager);

    let input = collector.collect_input("scan.pdf").unwrap();
    assert_eq!(input.date, "2025-01-01");
    assert_eq!(input.description, "meeting-notes");
    assert_eq!(input.tags, vec!["general".to_string()]);
    assert!(input.validate().is_ok());
}

#[test]
fn test_fuzzy_tag_completer_extract_current_word() {
    let mut dict = TagDictionary::new();
    dict.add_tag("finance".to_string()).unwrap();
    dict.add_tag("personal".to_string()).unwrap();

    let completer = FuzzyTagCompleter::new(&dict);

    let (start, word) = completer.extract_current_word("finance", 3);
    assert_eq!(start, 0);
    assert_eq!(word, "finance");

    let (start, word) = completer.extract_current_word("finance, personal", 3);
    assert_eq!(start, 0);
    assert_eq!(word, "finance");

    let (start, word) = completer.extract_current_word("finance, personal", 12);
    assert_eq!(start, 9);
    assert_eq!(word, "personal");

    let (start, word) = completer.extract_current_word("finance,  personal", 13);
    assert_eq!(start, 10);
    assert_eq!(word, "personal");

    let (start, word) = completer.extract_current_word("finance, ", 9);
    assert_eq!(start, 8);
    assert_eq!(word, "");

    let (start, word) = completer.extract_current_word("finance", 7);
    assert_eq!(start, 0);
    assert_eq!(word, "finance");
}

#[test]
fn test_fuzzy_tag_completer_candidates() {
    let mut dict = TagDictionary::new();
    dict.add_tag("finance".to_string()).unwrap();
    dict.add_tag("financial".to_string()).unwrap();
    dict.add_tag("personal".to_string()).unwrap();

    let completer = FuzzyTagCompleter::new(&dict);

    let (start, candidates) = completer.complete_candidates("fin", 3);
    assert_eq!(start, 0);
    assert!(!candidates.is_empty());
    assert!(candidates.contains(&"finance".to_string()));
    assert!(candidates.contains(&"financial".to_string()));

    let (start, candidates) = completer.complete_candidates("personal, fin", 13);
    assert_eq!(start, 10);
    assert!(candidates.contains(&"finance".to_string()));

    let (start, candidates) = completer.complete_candidates("", 0);
    assert_eq!(start, 0);
    assert!(candidates.is_empty());
}
