use tiny_crawler::utils::{host_has_skipped_prefix, host_in_domain, strip_www_exec};
use tiny_crawler::utils::pick_trap_pattern;
use tiny_crawler::error::SpiderError;
use tiny_crawler::utils::{
    detect_massive_links_pattern, domain_to_filename, extract_base_domain, is_priority_url,
    is_same_domain, matches_trap_pattern, normalize_url, resolve_url, should_skip_subdomain,
    should_skip_url,
};

#[test]
fn test_extract_base_domain_with_subdomain() {
    let url = "https://camps.example.com";
    let result = extract_base_domain(url).unwrap();
    assert_eq!(result, "camps.example.com");
}

#[test]
fn test_extract_base_domain_without_subdomain() {
    let url = "https://example.com/camps";
    let result = extract_base_domain(url).unwrap();
    assert_eq!(result, "example.com");
}

#[test]
fn test_extract_base_domain_with_www() {
    let url = "https://www.example.com";
    let result = extract_base_domain(url).unwrap();
    assert_eq!(result, "example.com");
}

#[test]
fn test_is_same_domain_true() {
    let url = "https://camps.example.com/faq";
    let base_domain = "camps.example.com";
    let result = is_same_domain(url, base_domain).unwrap();
    assert!(result);
}

#[test]
fn test_is_same_domain_false() {
    let url = "https://other.example.com/faq";
    let base_domain = "camps.example.com";
    let result = is_same_domain(url, base_domain).unwrap();
    assert!(!result);
}

#[test]
fn test_is_same_domain_subdomain() {
    let url = "https://camps.example.com/faq";
    let base_domain = "example.com";
    let result = is_same_domain(url, base_domain).unwrap();
    assert!(result);
}

#[test]
fn test_is_same_domain_www() {
    let url = "https://www.example.com/faq";
    let base_domain = "example.com";
    let result = is_same_domain(url, base_domain).unwrap();
    assert!(result);
}

#[test]
fn test_resolve_url() {
    let base_url = "https://domain.com/faq";
    let relative_url = "/q1";
    let result = resolve_url(base_url, relative_url).unwrap();
    assert_eq!(result, "https://domain.com/q1");
}

#[test]
fn test_should_skip_url() {
    let url = "https://example.com/docs/1";
    let skip_patterns = vec!["/docs/".to_string()];
    assert!(should_skip_url(url, &skip_patterns));
}

#[test]
fn test_should_skip_subdomain() {
    let url = "https://docs.example.com";
    let skip_patterns = vec!["docs.".to_string()];
    assert!(should_skip_subdomain(url, &skip_patterns).unwrap());
}

#[test]
fn test_should_not_skip_normal_subdomain() {
    let url = "https://blog.example.com";
    let skip_patterns = vec!["docs.".to_string(), "api.".to_string()];
    assert!(!should_skip_subdomain(url, &skip_patterns).unwrap());
}

#[test]
fn test_should_skip_with_www_prefix() {
    let url = "https://www.docs.example.com";
    let skip_patterns = vec!["docs.".to_string()];
    assert!(should_skip_subdomain(url, &skip_patterns).unwrap());
}

#[test]
fn test_is_priority_url() {
    let url = "https://example.com/contact";
    let priority_paths = vec!["/contact".to_string()];
    assert!(is_priority_url(url, &priority_paths));
}

#[test]
fn test_detect_massive_links_pattern() {
    let urls = vec![
        "domain.com/a/pattern/1".to_string(),
        "domain.com/a/pattern/2".to_string(),
        "domain.com/a/pattern/3".to_string(),
        "domain.com/a/pattern/4".to_string(),
        "domain.com/a/pattern/5".to_string(),
        "domain.com/other/url".to_string(),
    ];

    let pattern = detect_massive_links_pattern(&urls, 5);
    assert!(pattern.is_some());
    assert_eq!(pattern.unwrap(), "domain.com/a/pattern/*");
}

#[test]
fn test_domain_to_filename() {
    let domain = "example.com";
    let filename = domain_to_filename(domain);
    assert_eq!(filename, "output/crawler/example_com.json");
}

#[test]
fn base_domain_strips_only_one_www() {
    assert_eq!(extract_base_domain("https://www.www.example.com").unwrap(), "www.example.com");
    assert_eq!(extract_base_domain("https://wwwexample.com").unwrap(), "wwwexample.com");
}

#[test]
fn base_domain_errors() {
    assert!(matches!(extract_base_domain("not a url"), Err(SpiderError::UrlParse(_))));
    assert!(matches!(extract_base_domain("mailto:someone@example.com"), Err(SpiderError::InvalidUrl(_))));
}

#[test]
fn same_domain_needs_a_dot_boundary() {
    assert!(!is_same_domain("https://notexample.com/", "example.com").unwrap());
    assert!(is_same_domain("https://a.b.example.com/", "example.com").unwrap());
    assert!(!is_same_domain("https://example.com/", "camps.example.com").unwrap());
    assert!(matches!(is_same_domain("::", "example.com"), Err(SpiderError::UrlParse(_))));
}

#[test]
fn normalize_and_resolve() {
    assert_eq!(normalize_url("https://example.com").unwrap(), "https://example.com/");
    assert_eq!(normalize_url("HTTPS://Example.COM/a/../b").unwrap(), "https://example.com/b");
    assert!(matches!(normalize_url("example"), Err(SpiderError::UrlParse(_))));
    assert_eq!(resolve_url("https://domain.com/a/b", "c").unwrap(), "https://domain.com/a/c");
    assert_eq!(resolve_url("https://domain.com/a/b", "https://other.org/x").unwrap(), "https://other.org/x");
    assert!(matches!(resolve_url("relative/only", "/q1"), Err(SpiderError::UrlParse(_))));
}

#[test]
fn skip_and_priority_are_substring_tests() {
    let patterns = vec!["/docs/".to_string(), "/api/".to_string()];
    assert!(!should_skip_url("https://example.com/doc/1", &patterns));
    assert!(should_skip_url("https://example.com/x/api/", &patterns));
    assert!(!should_skip_url("https://example.com/docs/1", &[]));
    let paths = vec!["/about".to_string()];
    assert!(is_priority_url("https://example.com/team/about-us", &paths));
    assert!(!is_priority_url("https://example.com/contact", &paths));
}

#[test]
fn subdomain_skip_is_a_prefix_test() {
    let patterns = vec!["docs.".to_string()];
    assert!(!should_skip_subdomain("https://mydocs.example.com", &patterns).unwrap());
    assert!(!should_skip_subdomain("https://example.com/docs.html", &patterns).unwrap());
    assert!(matches!(should_skip_subdomain("garbage", &patterns), Err(SpiderError::UrlParse(_))));
}

#[test]
fn trap_detection_needs_enough_urls() {
    let urls = vec![
        "domain.com/a/pattern/1".to_string(),
        "domain.com/a/pattern/2".to_string(),
        "domain.com/a/pattern/3".to_string(),
    ];
    assert_eq!(detect_massive_links_pattern(&urls, 4), None);
    assert_eq!(detect_massive_links_pattern(&urls, 3).unwrap(), "domain.com/a/pattern/*");
}

#[test]
fn trap_detection_counts_each_key() {
    let urls = vec![
        "x.com/p/1/a".to_string(),
        "x.com/p/22/a".to_string(),
        "x.com/q/3".to_string(),
        "x.com/q/4".to_string(),
        "x.com/q/5".to_string(),
        "no-digits".to_string(),
    ];
    assert_eq!(detect_massive_links_pattern(&urls, 3).unwrap(), "x.com/q/*");
    assert_eq!(detect_massive_links_pattern(&urls, 4), None);
    let plain = vec!["a".to_string(), "b".to_string()];
    assert_eq!(detect_massive_links_pattern(&plain, 0), None);
}

#[test]
fn trap_detection_is_repeatable() {
    let urls = vec![
        "s.com/1".to_string(),
        "s.com/2".to_string(),
        "t.com/1".to_string(),
        "t.com/2".to_string(),
    ];
    let first = detect_massive_links_pattern(&urls, 2);
    let second = detect_massive_links_pattern(&urls, 2);
    assert_eq!(first.is_some(), second.is_some());
    assert!(first.is_some());
}

#[test]
fn trap_pattern_matching() {
    assert!(matches_trap_pattern("domain.com/a/pattern/77", "domain.com/a/pattern/*"));
    assert!(!matches_trap_pattern("domain.com/b/pattern/77", "domain.com/a/pattern/*"));
    assert!(matches_trap_pattern("x.com/p/9/a", "x.com/p/*/a"));
    assert!(!matches_trap_pattern("x.com/p/9/b", "x.com/p/*/a"));
    assert!(!matches_trap_pattern("x.com/p/9/a", "x.com/*/*/a"));
    assert!(!matches_trap_pattern("x.com/p/9/a", "x.com/p/9/a"));
}

#[test]
fn report_file_names() {
    assert_eq!(domain_to_filename("localhost:8080"), "output/crawler/localhost_8080.json");
    assert_eq!(domain_to_filename("a.b.c"), "output/crawler/a_b_c.json");
}

#[test]
fn host_level_checks() {
    assert!(host_in_domain("www.example.com", "example.com"));
    assert!(host_in_domain("a.example.com", "example.com"));
    assert!(!host_in_domain("badexample.com", "example.com"));
    assert!(!host_in_domain("example.com", "a.example.com"));
    let patterns = vec!["docs.".to_string()];
    assert!(host_has_skipped_prefix("www.docs.example.com", &patterns));
    assert!(!host_has_skipped_prefix("www.example.com", &patterns));
    assert_eq!(strip_www_exec("www.www.x"), "www.x");
    assert_eq!(strip_www_exec("ww.x"), "ww.x");
}

#[test]
fn pick_among_keys() {
    let keys = vec![Some("a*".to_string()), None, Some("b*".to_string()), Some("a*".to_string())];
    assert_eq!(pick_trap_pattern(&keys, 2).as_deref(), Some("a*"));
    assert_eq!(pick_trap_pattern(&keys, 3), None);
    assert_eq!(pick_trap_pattern(&keys, 5), None);
    let none: Vec<Option<String>> = vec![None, None];
    assert_eq!(pick_trap_pattern(&none, 0), None);
}
