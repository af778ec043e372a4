use tiny_crawler::defaults;
use tiny_crawler::SpiderConfig;

#[test]
fn default_configuration() {
    let c = SpiderConfig::default();
    assert_eq!(c.max_depth, 10);
    assert_eq!(c.max_loops, 50);
    assert_eq!(c.max_concurrent, 30);
    assert_eq!(c.pattern_threshold, 500);
    assert_eq!(c.min_request_delay_ms, 100);
    assert_eq!(c.max_request_delay_ms, 2000);
    assert_eq!(c.skip_patterns.len(), 17);
    assert_eq!(c.skip_patterns[0], "/blogs/");
    assert_eq!(c.skip_subdomain_patterns.len(), 12);
    assert_eq!(c.priority_paths, vec!["/contact", "/about", "/faq", "/help", "/support"]);
    assert_eq!(c.user_agents.len(), 6);
    assert_eq!(defaults::MAX_CONCURRENT_SITES, 5);
}

#[test]
fn new_keeps_defaults() {
    let c = SpiderConfig::new(2, 3, 4);
    assert_eq!((c.max_depth, c.max_loops, c.max_concurrent), (2, 3, 4));
    assert_eq!(c.pattern_threshold, 500);
    assert_eq!(c.skip_patterns.len(), 17);
}

#[test]
fn builder_sets_fields() {
    let c = SpiderConfig::builder()
        .max_depth(1)
        .max_loops(2)
        .max_concurrent(3)
        .pattern_threshold(4)
        .min_request_delay_ms(5)
        .max_request_delay_ms(6)
        .build();
    assert_eq!(c.max_depth, 1);
    assert_eq!(c.max_loops, 2);
    assert_eq!(c.max_concurrent, 3);
    assert_eq!(c.pattern_threshold, 4);
    assert_eq!(c.min_request_delay_ms, 5);
    assert_eq!(c.max_request_delay_ms, 6);
}

#[test]
fn builder_lists_add_and_replace() {
    let c = SpiderConfig::builder()
        .add_skip_patterns(&["/x/"])
        .skip_subdomain_patterns(&["a.", "b."])
        .add_skip_subdomain_patterns(&["c."])
        .priority_paths(&["/p"])
        .add_priority_paths(&["/q"])
        .user_agents(&["ua"])
        .add_user_agents(&["ub"])
        .build();
    assert_eq!(c.skip_patterns.len(), 18);
    assert_eq!(c.skip_patterns[17], "/x/");
    assert_eq!(c.skip_subdomain_patterns, vec!["a.", "b.", "c."]);
    assert_eq!(c.priority_paths, vec!["/p", "/q"]);
    assert_eq!(c.user_agents, vec!["ua", "ub"]);
    let d = SpiderConfig::builder().skip_patterns(&[]).build();
    assert!(d.skip_patterns.is_empty());
}
