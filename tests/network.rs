use tiny_crawler::network::referer_from;
use tiny_crawler::utils::UrlParts;
use tiny_crawler::network::{
    debug_dir_for, debug_file_for, get_html_stats, get_random_user_agent, has_anti_bot_protection,
    is_html_content_type, is_html_lowered, random_delay_ms, referer_for, requires_javascript,
    should_save_debug_html,
};
use tiny_crawler::SpiderConfig;

#[test]
fn content_type_gate() {
    assert!(is_html_content_type("text/html; charset=utf-8"));
    assert!(is_html_content_type("TEXT/HTML"));
    assert!(is_html_content_type("Application/XHTML+XML"));
    assert!(!is_html_content_type("application/json"));
    assert!(!is_html_content_type(""));
    assert!(is_html_lowered("text/html"));
    assert!(!is_html_lowered("TEXT/HTML"));
}

#[test]
fn referer_is_the_origin() {
    assert_eq!(referer_for("https://www.example.com/a/b?c=d").unwrap(), "https://www.example.com/");
    assert_eq!(referer_for("mailto:x@y.z").unwrap(), "mailto://example.com/");
    assert!(referer_for("no url").is_err());
}

#[test]
fn javascript_heuristics() {
    assert!(requires_javascript("<script>document.write('x')</script>"));
    assert!(requires_javascript("window.location = '/x'"));
    assert!(!requires_javascript(&"function(".repeat(10)));
    assert!(requires_javascript(&"function(".repeat(11)));
    assert!(requires_javascript("<noscript>enable js</noscript><a href=1><a href=2>"));
    assert!(!requires_javascript("<noscript>x</noscript><a href=1><a href=2><a href=3>"));
    assert!(!requires_javascript("<p>plain</p>"));
}

#[test]
fn anti_bot_heuristics() {
    assert!(has_anti_bot_protection("please solve the CAPTCHA"));
    assert!(has_anti_bot_protection("are you a robot?"));
    assert!(has_anti_bot_protection("Automated access denied"));
    assert!(!has_anti_bot_protection("welcome home"));
}

#[test]
fn html_stats_counts() {
    let stats = get_html_stats("<div><a href=1>x</a><div><script></script>");
    assert_eq!(stats.bytes, 42);
    assert_eq!(stats.divs, 2);
    assert_eq!(stats.links, 1);
    assert_eq!(stats.scripts, 1);
}

#[test]
fn debug_dump_rule() {
    assert!(should_save_debug_html(0, 10));
    assert!(should_save_debug_html(2, 1001));
    assert!(!should_save_debug_html(2, 1000));
    assert!(!should_save_debug_html(3, 5000));
}

#[test]
fn debug_paths() {
    assert_eq!(debug_dir_for("https://www.example.com/a"), "debug/example.com");
    assert_eq!(debug_dir_for("not a url"), "debug/unknown_domain");
    assert_eq!(
        debug_file_for("https://www.example.com/a/b.html"),
        "debug/example.com/debug_https_www_example_com_a_b_html.html"
    );
}

#[test]
fn random_choices_stay_in_range() {
    let config = SpiderConfig::builder()
        .user_agents(&["agent-a", "agent-b"])
        .min_request_delay_ms(5)
        .max_request_delay_ms(7)
        .build();
    for _ in 0..50 {
        let ua = get_random_user_agent(&config);
        assert!(ua == "agent-a" || ua == "agent-b");
        let d = random_delay_ms(&config);
        assert!((5..=7).contains(&d));
    }
}

#[test]
fn referer_from_parts() {
    let parts = UrlParts {
        serialization: "http://h.org/x".to_string(),
        scheme: "http".to_string(),
        host: Some("h.org".to_string()),
    };
    assert_eq!(referer_from(&parts), "http://h.org/");
    let hostless = UrlParts { serialization: "data:x".to_string(), scheme: "data".to_string(), host: None };
    assert_eq!(referer_from(&hostless), "data://example.com/");
}
