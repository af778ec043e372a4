use tiny_crawler::loader::is_seed_text;
use tiny_crawler::{Loader, SpiderConfig};

#[test]
fn test_load_urls_empty_file() {
    let loader = Loader::new(SpiderConfig::default(), 30, "input/urls.txt");
    assert_eq!(loader.max_concurrent_sites(), 30);
    let urls = Loader::urls_from_text("");

    assert_eq!(urls.len(), 0);
}

#[test]
fn test_load_urls_with_comments_and_empty_lines() {
    let text = "https://example.com\n# Comment line\n\nhttps://test.com\n";
    let loader = Loader::new(SpiderConfig::default(), 30, "input/urls.txt");
    assert_eq!(loader.url_file_path(), "input/urls.txt");
    let urls = Loader::urls_from_text(text);

    assert_eq!(urls.len(), 2);
    assert_eq!(urls[0], "https://example.com");
    assert_eq!(urls[1], "https://test.com");
}

#[test]
fn url_lines_are_trimmed_and_crlf_is_accepted() {
    let urls = Loader::urls_from_text("  https://a.com  \r\n\t# note\r\n   \r\nhttps://b.com");
    assert_eq!(urls, vec!["https://a.com".to_string(), "https://b.com".to_string()]);
}

#[test]
fn loader_defaults() {
    let loader = Loader::default();
    assert_eq!(loader.max_concurrent_sites(), 5);
    assert_eq!(loader.url_file_path(), "input/urls.txt");
    assert_eq!(loader.config().max_depth, 10);
}

#[test]
fn seed_text_rule() {
    assert!(is_seed_text("https://a.com"));
    assert!(!is_seed_text(""));
    assert!(!is_seed_text("#https://a.com"));
}
