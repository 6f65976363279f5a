use cleanbox::config::{DuplicateHandling, LifeConfig, ProcessingConfig};

#[test]
fn test_processing_config_new() {
    let inbox = "/inbox".to_string();
    let media = "/media".to_string();
    let config = ProcessingConfig::new(inbox.clone(), media.clone());

    assert_eq!(config.inbox_path, inbox);
    assert_eq!(config.media_root, media);
    assert_eq!(config.hash_length, 6);
    assert!(matches!(
        config.handle_duplicates,
        DuplicateHandling::AppendHash
    ));
    assert!(config.skip_unsupported_files);
    assert!(!config.create_backup);
}

#[test]
fn test_processing_config_with_hash_length() {
    let config = ProcessingConfig::new("/inbox".to_string(), "/media".to_string())
        .with_hash_length(8);

    assert_eq!(config.hash_length, 8);
}

#[test]
fn test_processing_config_with_duplicate_handling() {
    let config = ProcessingConfig::new("/inbox".to_string(), "/media".to_string())
        .with_duplicate_handling(DuplicateHandling::Skip);

    assert!(matches!(config.handle_duplicates, DuplicateHandling::Skip));
}

#[test]
fn test_processing_config_with_backup() {
    let config =
        ProcessingConfig::new("/inbox".to_string(), "/media".to_string()).with_backup(true);

    assert!(config.create_backup);
}

#[test]
fn test_processing_config_skip_unsupported() {
    let config =
        ProcessingConfig::new("/inbox".to_string(), "/media".to_string()).skip_unsupported(false);

    assert!(!config.skip_unsupported_files);
}

#[test]
fn test_processing_config_chaining() {
    let config = ProcessingConfig::new("/inbox".to_string(), "/media".to_string())
        .with_hash_length(10)
        .with_duplicate_handling(DuplicateHandling::Overwrite)
        .with_backup(true)
        .skip_unsupported(false);

    assert_eq!(config.hash_length, 10);
    assert!(matches!(
        config.handle_duplicates,
        DuplicateHandling::Overwrite
    ));
    assert!(config.create_backup);
    assert!(!config.skip_unsupported_files);
}

#[test]
fn test_duplicate_handling_variants() {
    let skip = DuplicateHandling::Skip;
    let append = DuplicateHandling::AppendHash;
    let overwrite = DuplicateHandling::Overwrite;
    let error = DuplicateHandling::Error;

    match skip {
        DuplicateHandling::Skip => {}
        _ => panic!("Wrong variant"),
    }

    match append {
        DuplicateHandling::AppendHash => {}
        _ => panic!("Wrong variant"),
    }

    match overwrite {
        DuplicateHandling::Overwrite => {}
        _ => panic!("Wrong variant"),
    }

    match error {
        DuplicateHandling::Error => {}
        _ => panic!("Wrong variant"),
    }
}

#[test]
fn test_life_config_new() {
    let life_path = "/home/user/life".to_string();
    let config = LifeConfig::new(life_path.clone());

    assert_eq!(config.life_path, life_path);
    assert_eq!(config.hash_length, 6);
    assert!(matches!(
        config.handle_duplicates,
        DuplicateHandling::AppendHash
    ));
    assert!(config.skip_unsupported_files);
    assert!(!config.create_backup);
}

#[test]
fn test_life_config_derived_paths() {
    let life_path = "/home/user/life".to_string();
    let config = LifeConfig::new(life_path);

    assert_eq!(config.inbox_path(), "/home/user/life/inbox");
    assert_eq!(config.media_root(), "/home/user/life/media");
    assert_eq!(config.documents_root(), "/home/user/life/documents");
    assert_eq!(config.tags_file(), "/home/user/life/documents/tags.txt");
}

#[test]
fn test_life_config_builder_methods() {
    let config = LifeConfig::new("/life".to_string())
        .with_hash_length(8)
        .with_duplicate_handling(DuplicateHandling::Skip)
        .with_backup(true)
        .skip_unsupported(false);

    assert_eq!(config.hash_length, 8);
    assert!(matches!(config.handle_duplicates, DuplicateHandling::Skip));
    assert!(config.create_backup);
    assert!(!config.skip_unsupported_files);
}

#[test]
fn test_life_config_to_processing_config() {
    let life_config = LifeConfig::new("/home/user/life".to_string())
        .with_hash_length(10)
        .with_duplicate_handling(DuplicateHandling::Overwrite);

    let processing_config = life_config.to_processing_config();

    assert_eq!(processing_config.inbox_path, "/home/user/life/inbox");
    assert_eq!(processing_config.media_root, "/home/user/life/media");
    assert_eq!(processing_config.hash_length, 10);
    assert!(matches!(
        processing_config.handle_duplicates,
        DuplicateHandling::Overwrite
    ));
}

#[test]
fn test_life_config_integration() {
    let life_config = LifeConfig::new("/home/user/life".to_string())
        .with_hash_length(8)
        .with_duplicate_handling(DuplicateHandling::Skip);

    assert_eq!(life_config.life_path, "/home/user/life");
    assert_eq!(life_config.inbox_path(), "/home/user/life/inbox");
    assert_eq!(life_config.media_root(), "/home/user/life/media");
    assert_eq!(life_config.documents_root(), "/home/user/life/documents");
    assert_eq!(life_config.tags_file(), "/home/user/life/documents/tags.txt");
    assert_eq!(life_config.hash_length, 8);
    assert!(matches!(life_config.handle_duplicates, DuplicateHandling::Skip));
}
