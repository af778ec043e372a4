//! Configuration of a crawl, and a builder for it.
use vstd::prelude::*;
use crate::defaults;
use crate::text::views;

verus! {

/// Configuration for the spider.
#[derive(Debug, Clone)]
pub struct SpiderConfig {
    /// Maximum depth for recursive crawling.
    pub max_depth: usize,
    /// Maximum number of loop iterations.
    pub max_loops: usize,
    /// Maximum number of concurrent requests, and the size of a batch.
    pub max_concurrent: usize,
    /// Threshold for detecting massive link patterns.
    pub pattern_threshold: usize,
    /// Path patterns to skip.
    pub skip_patterns: Vec<String>,
    /// Subdomain patterns to skip.
    pub skip_subdomain_patterns: Vec<String>,
    /// High value paths to prioritize.
    pub priority_paths: Vec<String>,
    /// Minimum delay between requests in milliseconds.
    pub min_request_delay_ms: u64,
    /// Maximum delay between requests in milliseconds.
    pub max_request_delay_ms: u64,
    /// User agents to rotate through for requests.
    pub user_agents: Vec<String>,
}

/// The views of the string lists of a configuration.
pub open spec fn str_views(v: Seq<&str>) -> Seq<Seq<char>> {
    v.map_values(|s: &str| s@)
}

/// The configuration holds the default lists of patterns, paths and agents.
pub open spec fn has_default_lists(c: SpiderConfig) -> bool {
    &&& views(c.skip_patterns@) == defaults::skip_patterns_spec()
    &&& views(c.skip_subdomain_patterns@) == defaults::skip_subdomain_patterns_spec()
    &&& views(c.priority_paths@) == defaults::priority_paths_spec()
    &&& views(c.user_agents@) == defaults::user_agents_spec()
}

/// The default configuration, with the given bounds.
pub open spec fn is_default_with(c: SpiderConfig, max_depth: usize, max_loops: usize, max_concurrent: usize) -> bool {
    &&& c.max_depth == max_depth
    &&& c.max_loops == max_loops
    &&& c.max_concurrent == max_concurrent
    &&& c.pattern_threshold == defaults::PATTERN_THRESHOLD
    &&& c.min_request_delay_ms == defaults::MIN_REQUEST_DELAY_MS
    &&& c.max_request_delay_ms == defaults::MAX_REQUEST_DELAY_MS
    &&& has_default_lists(c)
}

impl Default for SpiderConfig {
    fn default() -> (r: Self)
        ensures
            is_default_with(r, defaults::MAX_DEPTH, defaults::MAX_LOOPS, defaults::MAX_CONCURRENT),
    {
        SpiderConfig::new(defaults::MAX_DEPTH, defaults::MAX_LOOPS, defaults::MAX_CONCURRENT)
    }
}

/// Copies of the string slices, in order.
fn owned_strings(items: &[&str]) -> (r: Vec<String>)
    ensures
        views(r@) == str_views(items@),
{
    let mut r: Vec<String> = Vec::new();
    let mut i: usize = 0;
    while i < items.len()
        invariant
            i <= items.len(),
            views(r@) == str_views(items@).take(i as int),
        decreases items.len() - i,
    {
        let item = String::from_str(items[i]);
        assert(item@ == str_views(items@)[i as int]);
        let ghost before = r@;
        r.push(item);
        assert(views(r@) =~= views(before).push(item@));
        assert(str_views(items@).take(i + 1) =~= str_views(items@).take(i as int).push(item@));
        assert(views(r@) =~= str_views(items@).take(i + 1));
        i = i + 1;
    }
    assert(str_views(items@).take(i as int) =~= str_views(items@));
    r
}

/// Appends copies of the string slices.
fn extend_strings(v: &mut Vec<String>, items: &[&str])
    ensures
        views(final(v)@) == views(old(v)@) + str_views(items@),
{
    let mut i: usize = 0;
    while i < items.len()
        invariant
            i <= items.len(),
            views(v@) == views(old(v)@) + str_views(items@).take(i as int),
        decreases items.len() - i,
    {
        let item = String::from_str(items[i]);
        assert(item@ == str_views(items@)[i as int]);
        let ghost before = v@;
        v.push(item);
        assert(views(v@) =~= views(before).push(item@));
        assert(str_views(items@).take(i + 1) =~= str_views(items@).take(i as int).push(item@));
        assert(views(v@) =~= views(old(v)@) + str_views(items@).take(i + 1));
        i = i + 1;
    }
    assert(str_views(items@).take(i as int) =~= str_views(items@));
}

impl SpiderConfig {
    /// Create a configuration with the given bounds and defaults otherwise.
    pub fn new(max_depth: usize, max_loops: usize, max_concurrent: usize) -> (r: Self)
        ensures
            is_default_with(r, max_depth, max_loops, max_concurrent),
    {
        SpiderConfig {
            max_depth,
            max_loops,
            max_concurrent,
            pattern_threshold: defaults::PATTERN_THRESHOLD,
            skip_patterns: defaults::skip_patterns(),
            skip_subdomain_patterns: defaults::skip_subdomain_patterns(),
            priority_paths: defaults::priority_paths(),
            min_request_delay_ms: defaults::MIN_REQUEST_DELAY_MS,
            max_request_delay_ms: defaults::MAX_REQUEST_DELAY_MS,
            user_agents: defaults::user_agents(),
        }
    }

    /// Create a builder, which starts from the default configuration.
    pub fn builder() -> (r: SpiderConfigBuilder)
        ensures
            is_default_with(r@, defaults::MAX_DEPTH, defaults::MAX_LOOPS, defaults::MAX_CONCURRENT),
    {
        SpiderConfigBuilder::default()
    }
}

/// Builder for a configuration, field by field.
pub struct SpiderConfigBuilder {
    config: SpiderConfig,
}

impl View for SpiderConfigBuilder {
    type V = SpiderConfig;

    closed spec fn view(&self) -> SpiderConfig {
        self.config
    }
}

impl Default for SpiderConfigBuilder {
    fn default() -> (r: Self)
        ensures
            is_default_with(r@, defaults::MAX_DEPTH, defaults::MAX_LOOPS, defaults::MAX_CONCURRENT),
    {
        SpiderConfigBuilder { config: SpiderConfig::default() }
    }
}

impl SpiderConfigBuilder {
    /// Set the maximum crawl depth.
    pub fn max_depth(self, max_depth: usize) -> (r: Self)
        ensures
            r@ == (SpiderConfig { max_depth, ..self@ }),
    {
        let mut b = self;
        b.config.max_depth = max_depth;
        b
    }

    /// Set the maximum number of loops.
    pub fn max_loops(self, max_loops: usize) -> (r: Self)
        ensures
            r@ == (SpiderConfig { max_loops, ..self@ }),
    {
        let mut b = self;
        b.config.max_loops = max_loops;
        b
    }

    /// Set the maximum number of concurrent requests.
    pub fn max_concurrent(self, max_concurrent: usize) -> (r: Self)
        ensures
            r@ == (SpiderConfig { max_concurrent, ..self@ }),
    {
        let mut b = self;
        b.config.max_concurrent = max_concurrent;
        b
    }

    /// Set the threshold for detecting massive link patterns.
    pub fn pattern_threshold(self, threshold: usize) -> (r: Self)
        ensures
            r@ == (SpiderConfig { pattern_threshold: threshold, ..self@ }),
    {
        let mut b = self;
        b.config.pattern_threshold = threshold;
        b
    }

    /// Set the minimum request delay in milliseconds.
    pub fn min_request_delay_ms(self, delay: u64) -> (r: Self)
        ensures
            r@ == (SpiderConfig { min_request_delay_ms: delay, ..self@ }),
    {
        let mut b = self;
        b.config.min_request_delay_ms = delay;
        b
    }

    /// Set the maximum request delay in milliseconds.
    pub fn max_request_delay_ms(self, delay: u64) -> (r: Self)
        ensures
            r@ == (SpiderConfig { max_request_delay_ms: delay, ..self@ }),
    {
        let mut b = self;
        b.config.max_request_delay_ms = delay;
        b
    }

    /// Add skip patterns after the present ones.
    pub fn add_skip_patterns(self, patterns: &[&str]) -> (r: Self)
        ensures
            views(r@.skip_patterns@) == views(self@.skip_patterns@) + str_views(patterns@),
            r@ == (SpiderConfig { skip_patterns: r@.skip_patterns, ..self@ }),
    {
        let mut b = self;
        extend_strings(&mut b.config.skip_patterns, patterns);
        b
    }

    /// Replace all skip patterns.
    pub fn skip_patterns(self, patterns: &[&str]) -> (r: Self)
        ensures
            views(r@.skip_patterns@) == str_views(patterns@),
            r@ == (SpiderConfig { skip_patterns: r@.skip_patterns, ..self@ }),
    {
        let mut b = self;
        b.config.skip_patterns = owned_strings(patterns);
        b
    }

    /// Add subdomain skip patterns after the present ones.
    pub fn add_skip_subdomain_patterns(self, patterns: &[&str]) -> (r: Self)
        ensures
            views(r@.skip_subdomain_patterns@) == views(self@.skip_subdomain_patterns@)
                + str_views(patterns@),
            r@ == (SpiderConfig { skip_subdomain_patterns: r@.skip_subdomain_patterns, ..self@ }),
    {
        let mut b = self;
        extend_strings(&mut b.config.skip_subdomain_patterns, patterns);
        b
    }

    /// Replace all subdomain skip patterns.
    pub fn skip_subdomain_patterns(self, patterns: &[&str]) -> (r: Self)
        ensures
            views(r@.skip_subdomain_patterns@) == str_views(patterns@),
            r@ == (SpiderConfig { skip_subdomain_patterns: r@.skip_subdomain_patterns, ..self@ }),
    {
        let mut b = self;
        b.config.skip_subdomain_patterns = owned_strings(patterns);
        b
    }

    /// Add priority paths after the present ones.
    pub fn add_priority_paths(self, paths: &[&str]) -> (r: Self)
        ensures
            views(r@.priority_paths@) == views(self@.priority_paths@) + str_views(paths@),
            r@ == (SpiderConfig { priority_paths: r@.priority_paths, ..self@ }),
    {
        let mut b = self;
        extend_strings(&mut b.config.priority_paths, paths);
        b
    }

    /// Replace all priority paths.
    pub fn priority_paths(self, paths: &[&str]) -> (r: Self)
        ensures
            views(r@.priority_paths@) == str_views(paths@),
            r@ == (SpiderConfig { priority_paths: r@.priority_paths, ..self@ }),
    {
        let mut b = self;
        b.config.priority_paths = owned_strings(paths);
        b
    }

    /// Add user agents after the present ones.
    pub fn add_user_agents(self, agents: &[&str]) -> (r: Self)
        ensures
            views(r@.user_agents@) == views(self@.user_agents@) + str_views(agents@),
            r@ == (SpiderConfig { user_agents: r@.user_agents, ..self@ }),
    {
        let mut b = self;
        extend_strings(&mut b.config.user_agents, agents);
        b
    }

    /// Replace all user agents.
    pub fn user_agents(self, agents: &[&str]) -> (r: Self)
        ensures
            views(r@.user_agents@) == str_views(agents@),
            r@ == (SpiderConfig { user_agents: r@.user_agents, ..self@ }),
    {
        let mut b = self;
        b.config.user_agents = owned_strings(agents);
        b
    }

    /// Build the final configuration.
    pub fn build(self) -> (r: SpiderConfig)
        ensures
            r == self@,
    {
        self.config
    }
}

} // verus!
