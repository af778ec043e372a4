use tiny_crawler::crawler::{CrawlState, FetchOutcome, SkipReason, UrlEntry};
use tiny_crawler::SpiderConfig;

fn page(links: &[&str]) -> String {
    let mut html = String::from("<html><body>");
    for l in links {
        html.push_str(&format!("<a href=\"{}\">link</a>", l));
    }
    html.push_str("</body></html>");
    html
}

fn fetched(url: &str, html: &str) -> FetchOutcome {
    FetchOutcome::Fetched { final_url: url.to_string(), html: Some(html.to_string()) }
}

#[test]
fn end_to_end_single_loop() {
    let config = SpiderConfig::builder().max_depth(1).max_loops(1).build();
    let mut state = CrawlState::start("https://example.com").unwrap();
    assert_eq!(state.base_domain, "example.com");
    let round = state.next_round(&config).unwrap();
    assert_eq!(round.batch_len, 1);
    assert_eq!(round.dispatch.len(), 1);
    assert_eq!(round.dispatch[0].url, "https://example.com/");
    let html = page(&["/a", "https://example.com/b", "https://other.org/c"]);
    let links = state.apply_outcome(
        &round.dispatch[0],
        fetched("https://example.com/", &html),
        &config.priority_paths,
    );
    assert_eq!(links, 3);
    assert!(state.next_round(&config).is_none());
    let result = state.finish();
    assert_eq!(result.urls, vec!["https://example.com/".to_string()]);
    assert_eq!(
        result.remaining_queue,
        vec!["https://example.com/a".to_string(), "https://example.com/b".to_string()]
    );
    assert!(!result.remaining_queue.iter().any(|u| u.contains("other.org")));
    assert_eq!(result.stats.loops, 1);
    assert_eq!(result.stats.processed_urls, 1);
}

#[test]
fn end_to_end_second_loop_hits_depth_limit() {
    let config = SpiderConfig::builder().max_depth(1).max_loops(3).build();
    let mut state = CrawlState::start("https://example.com").unwrap();
    let round = state.next_round(&config).unwrap();
    let html = page(&["/a", "https://example.com/b", "https://other.org/c"]);
    state.apply_outcome(&round.dispatch[0], fetched("https://example.com/", &html), &config.priority_paths);
    let round = state.next_round(&config).unwrap();
    assert_eq!(round.batch_len, 2);
    assert!(round.dispatch.is_empty());
    assert!(state.next_round(&config).is_none());
    let result = state.finish();
    assert_eq!(result.urls, vec!["https://example.com/".to_string()]);
    assert!(result.remaining_queue.is_empty());
    assert_eq!(result.skipped_urls.len(), 1);
    assert_eq!(result.skipped_urls[0].0, "max_depth_exceeded");
    assert_eq!(result.skipped_urls[0].1.len(), 2);
    assert_eq!(result.stats.loops, 3);
    assert_eq!(result.stats.skipped_urls, 2);
}

#[test]
fn links_are_filtered_resolved_and_deduplicated() {
    let config = SpiderConfig::builder().max_loops(5).build();
    let mut state = CrawlState::start("https://www.example.com/start").unwrap();
    let round = state.next_round(&config).unwrap();
    let html = page(&[
        "",
        "#top",
        "javascript:void(0)",
        "mailto:a@example.com",
        "contact",
        "/contact",
        "https://blog.example.com/x",
        "https://example.org/y",
        "https://www.example.com/start",
    ]);
    state.apply_outcome(&round.dispatch[0], fetched("https://www.example.com/start", &html), &config.priority_paths);
    let queued: Vec<(String, usize, usize)> =
        state.queue.iter().map(|e| (e.url.clone(), e.depth, e.priority)).collect();
    assert_eq!(
        queued,
        vec![
            ("https://www.example.com/contact".to_string(), 1, 50),
            ("https://blog.example.com/x".to_string(), 1, 10),
        ]
    );
}

#[test]
fn batches_follow_priority() {
    let config = SpiderConfig::builder().max_concurrent(2).max_loops(5).build();
    let mut state = CrawlState::start("https://example.com").unwrap();
    state.queue.clear();
    for (u, p) in [("https://example.com/1", 10), ("https://example.com/2", 50), ("https://example.com/3", 10), ("https://example.com/4", 50)] {
        state.queue.push(UrlEntry { url: u.to_string(), depth: 1, priority: p });
    }
    let batch = state.select_batch(config.max_concurrent);
    let urls: Vec<&str> = batch.iter().map(|e| e.url.as_str()).collect();
    assert_eq!(urls, vec!["https://example.com/2", "https://example.com/4"]);
    let rest: Vec<&str> = state.queue.iter().map(|e| e.url.as_str()).collect();
    assert_eq!(rest, vec!["https://example.com/1", "https://example.com/3"]);
}

#[test]
fn screening_order_and_reasons() {
    let config = SpiderConfig::builder()
        .max_depth(3)
        .skip_patterns(&["/private/"])
        .skip_subdomain_patterns(&["api."])
        .build();
    let mut state = CrawlState::start("https://example.com").unwrap();
    state.patterns.push("https://example.com/p/*".to_string());
    let entries = vec![
        UrlEntry { url: "https://example.com/deep".to_string(), depth: 3, priority: 10 },
        UrlEntry { url: "https://example.com/p/7".to_string(), depth: 1, priority: 10 },
        UrlEntry { url: "https://example.com/private/x".to_string(), depth: 1, priority: 10 },
        UrlEntry { url: "https://api.example.com/".to_string(), depth: 1, priority: 10 },
        UrlEntry { url: "https://example.com/ok".to_string(), depth: 1, priority: 10 },
        UrlEntry { url: "https://example.com/ok".to_string(), depth: 2, priority: 10 },
    ];
    let dispatch = state.screen_batch(entries, &config);
    assert_eq!(dispatch.len(), 1);
    assert_eq!(dispatch[0].url, "https://example.com/ok");
    assert_eq!(dispatch[0].depth, 1);
    let reasons: Vec<SkipReason> = state.skipped.iter().map(|s| s.0).collect();
    assert_eq!(
        reasons,
        vec![
            SkipReason::MaxDepthExceeded,
            SkipReason::MassiveLinkPattern,
            SkipReason::SkipPattern,
            SkipReason::SubdomainPattern
        ]
    );
    assert_eq!(state.visited, vec!["https://example.com/ok".to_string()]);
}

#[test]
fn trap_pattern_recorded_once() {
    let mut state = CrawlState::start("https://example.com").unwrap();
    let batch: Vec<UrlEntry> = (1..=3)
        .map(|i| UrlEntry { url: format!("https://example.com/item/{}", i), depth: 1, priority: 10 })
        .collect();
    let found = state.record_trap_pattern(&batch, 3);
    assert_eq!(found.as_deref(), Some("https://example.com/item/*"));
    state.record_trap_pattern(&batch, 3);
    assert_eq!(state.patterns, vec!["https://example.com/item/*".to_string()]);
    assert_eq!(state.record_trap_pattern(&batch, 4), None);
}

#[test]
fn failures_redirects_and_report() {
    let config = SpiderConfig::builder().max_loops(5).build();
    let mut state = CrawlState::start("https://example.com").unwrap();
    let round = state.next_round(&config).unwrap();
    let html = page(&["/z", "/b"]);
    state.apply_outcome(&round.dispatch[0], fetched("https://example.com/home", &html), &config.priority_paths);
    assert_eq!(state.redirects, vec![("https://example.com/".to_string(), "https://example.com/home".to_string())]);
    let round = state.next_round(&config).unwrap();
    assert_eq!(round.dispatch.len(), 2);
    let links = state.apply_outcome(&round.dispatch[0], FetchOutcome::Failed, &config.priority_paths);
    assert_eq!(links, 0);
    let links = state.apply_outcome(
        &round.dispatch[1],
        FetchOutcome::Fetched { final_url: round.dispatch[1].url.clone(), html: None },
        &config.priority_paths,
    );
    assert_eq!(links, 0);
    let result = state.finish();
    assert_eq!(
        result.urls,
        vec![
            "https://example.com/".to_string(),
            "https://example.com/b".to_string(),
            "https://example.com/z".to_string()
        ]
    );
    assert_eq!(result.unreachable_urls, vec!["https://example.com/z".to_string()]);
    assert!(result.urls.contains(&result.unreachable_urls[0]));
    assert_eq!(result.stats.visited_urls, 3);
    assert_eq!(result.stats.found_urls, 3);
    assert_eq!(result.stats.redirects, 1);
    assert_eq!(result.stats.unreachable_urls, 1);
    assert!(result.urls.windows(2).all(|w| w[0] < w[1]));
}

#[test]
fn start_rejects_bad_seeds() {
    assert!(CrawlState::start("nothing").is_err());
    assert!(CrawlState::start("data:text/plain,hi").is_err());
}

#[test]
fn loop_budget_is_respected() {
    let config = SpiderConfig::builder().max_loops(0).build();
    let mut state = CrawlState::start("https://example.com").unwrap();
    assert!(state.next_round(&config).is_none());
    assert_eq!(state.loops, 0);
    assert_eq!(state.queue.len(), 1);
    let result = state.finish();
    assert_eq!(result.remaining_queue, vec!["https://example.com/".to_string()]);
    assert!(result.urls.is_empty());
}

#[test]
fn skip_reason_names() {
    assert_eq!(SkipReason::MaxDepthExceeded.name(), "max_depth_exceeded");
    assert_eq!(SkipReason::MassiveLinkPattern.name(), "massive_link_pattern");
    assert_eq!(SkipReason::SkipPattern.name(), "skip_pattern");
    assert_eq!(SkipReason::SubdomainPattern.name(), "subdomain_pattern");
}

#[test]
fn targets_are_queued_once() {
    let mut state = CrawlState::start("https://example.com").unwrap();
    let paths = vec!["/help".to_string()];
    state.enqueue_target("https://example.com/help/me".to_string(), 2, &paths);
    state.enqueue_target("https://example.com/help/me".to_string(), 4, &paths);
    state.enqueue_target("https://example.com/other".to_string(), 2, &paths);
    state.enqueue_target("https://example.com/".to_string(), 2, &paths);
    let queued: Vec<(String, usize, usize)> =
        state.queue.iter().map(|e| (e.url.clone(), e.depth, e.priority)).collect();
    assert_eq!(
        queued,
        vec![
            ("https://example.com/".to_string(), 0, 100),
            ("https://example.com/help/me".to_string(), 3, 50),
            ("https://example.com/other".to_string(), 3, 10),
        ]
    );
    state.visited.push("https://example.com/seen".to_string());
    state.enqueue_target("https://example.com/seen".to_string(), 0, &paths);
    assert_eq!(state.queue.len(), 3);
}
