use cleanbox::config::{LifeConfig, ProcessingConfig};
use cleanbox::media::FileType;
use cleanbox::paths::{BasePathResolver, LifeDirectoryResolver, LifePathResolver};

#[test]
fn test_life_directory_resolver_media_files() {
    let config = ProcessingConfig::new("/inbox".to_string(), "/life/media".to_string());
    let resolver = LifeDirectoryResolver::new();

    assert_eq!(
        BasePathResolver::resolve_base_path(&resolver, &FileType::Image, &config),
        "/life/media"
    );
    assert_eq!(
        BasePathResolver::resolve_base_path(&resolver, &FileType::Video, &config),
        "/life/media"
    );
}

#[test]
fn test_life_directory_resolver_document_files() {
    let config = ProcessingConfig::new("/inbox".to_string(), "/life/media".to_string());
    let resolver = LifeDirectoryResolver::new();

    assert_eq!(
        BasePathResolver::resolve_base_path(&resolver, &FileType::Document, &config),
        "/life/documents"
    );
}

#[test]
fn test_life_directory_resolver_unknown_files() {
    let config = ProcessingConfig::new("/inbox".to_string(), "/life/media".to_string());
    let resolver = LifeDirectoryResolver::new();

    assert_eq!(
        BasePathResolver::resolve_base_path(&resolver, &FileType::Unknown, &config),
        "/life/media"
    );
}

#[test]
fn test_life_directory_resolver_default() {
    let resolver = LifeDirectoryResolver::new();
    let config = ProcessingConfig::new("/inbox".to_string(), "/test/media".to_string());

    assert_eq!(
        BasePathResolver::resolve_base_path(&resolver, &FileType::Image, &config),
        "/test/media"
    );
}

#[test]
fn test_life_path_resolver_media_files() {
    let resolver = LifeDirectoryResolver::new();
    let config = LifeConfig::new("/home/user/life".to_string());

    assert_eq!(
        LifePathResolver::resolve_base_path(&resolver, &FileType::Image, &config),
        "/home/user/life/media"
    );
    assert_eq!(
        LifePathResolver::resolve_base_path(&resolver, &FileType::Video, &config),
        "/home/user/life/media"
    );
}

#[test]
fn test_life_path_resolver_document_files() {
    let resolver = LifeDirectoryResolver::new();
    let config = LifeConfig::new("/home/user/life".to_string());

    assert_eq!(
        LifePathResolver::resolve_base_path(&resolver, &FileType::Document, &config),
        "/home/user/life/documents"
    );
}

#[test]
fn test_life_path_resolver_unknown_files() {
    let resolver = LifeDirectoryResolver::new();
    let config = LifeConfig::new("/home/user/life".to_string());

    assert_eq!(
        LifePathResolver::resolve_base_path(&resolver, &FileType::Unknown, &config),
        "/home/user/life/media"
    );
}
