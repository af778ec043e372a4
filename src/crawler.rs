//! The crawl: the frontier of pending URLs, the visited ledger, the
//! accumulators of a crawl's report, and the decisions of each loop
//! iteration. Fetching is done by the caller, which hands the outcome of
//! each fetch back to `CrawlState::apply_outcome`.
use vstd::prelude::*;
use vstd::multiset::Multiset;
use vstd::seq_lib::group_to_multiset_ensures;
use crate::config::SpiderConfig;
use crate::error::SpiderError;
use crate::report::{group_views, push_group, report_of, skipped_groups, CrawlResult, CrawlStats};
use crate::text::{
    chars_of, has_prefix, holds_string, is_prefix, lemma_lex_sorted_distinct, sorted_distinct, views,
};
use crate::utils::{
    any_contained, any_host_prefix, detect_massive_links_pattern, extract_base_domain, host_error,
    host_of, in_domain, is_priority_url, is_same_domain, matches_trap, matches_trap_pattern,
    normalize_url, opt_view, resolve_url, should_skip_subdomain, should_skip_url, strip_www,
    trap_keys, trap_outcome, url_join, url_parse,
};

verus! {

broadcast use {vstd::seq_lib::group_seq_properties, group_to_multiset_ensures};

/// Priority of the start URL, above that of any discovered link.
pub const START_PRIORITY: usize = 100;

/// Priority of a discovered link that matches a priority path.
pub const PRIORITY_LINK: usize = 50;

/// Priority of any other discovered link.
pub const PLAIN_LINK: usize = 10;

/// A URL in the frontier, with its depth in the crawl and its priority.
#[derive(Debug)]
pub struct UrlEntry {
    pub url: String,
    pub depth: usize,
    pub priority: usize,
}

/// Why a URL was left out before it was fetched.
#[derive(Debug, Clone, Copy, PartialEq, Eq, Structural)]
pub enum SkipReason {
    MaxDepthExceeded,
    MassiveLinkPattern,
    SkipPattern,
    SubdomainPattern,
}

/// The state of one crawl.
pub struct CrawlState {
    /// The start URL, normalized.
    pub base_url: String,
    /// The domain of the start URL, without `www.`.
    pub base_domain: String,
    /// The frontier: URLs discovered and not yet selected.
    pub queue: Vec<UrlEntry>,
    /// The visited ledger, in the order the URLs were dispatched; it is also
    /// the list of found URLs.
    pub visited: Vec<String>,
    /// URLs left out before dispatch, with the reason, in order.
    pub skipped: Vec<(SkipReason, String)>,
    /// Trap patterns detected so far, each once.
    pub patterns: Vec<String>,
    /// Requested URL and the URL it was redirected to.
    pub redirects: Vec<(String, String)>,
    /// URLs whose fetch failed.
    pub unreachable: Vec<String>,
    /// Loop iterations started.
    pub loops: usize,
    /// Entries selected into batches.
    pub processed: usize,
}

/// The URLs of the entries.
pub open spec fn entry_urls(q: Seq<UrlEntry>) -> Seq<Seq<char>> {
    q.map_values(|e: UrlEntry| e.url@)
}

/// The entries sorted by priority, highest first.
pub open spec fn priority_sorted(q: Seq<UrlEntry>) -> bool {
    forall|i: int, j: int| 0 <= i < j < q.len() ==> q[i].priority >= q[j].priority
}

/// `batch` and `rest` are a split of `queue` in which `batch` holds the
/// `k` entries of highest priority (all of them if there are fewer), highest
/// first.
pub open spec fn batch_selected(
    queue: Seq<UrlEntry>,
    batch: Seq<UrlEntry>,
    rest: Seq<UrlEntry>,
    k: usize,
) -> bool {
    &&& batch.len() == if queue.len() < k {
        queue.len()
    } else {
        k as nat
    }
    &&& (batch + rest).to_multiset() == queue.to_multiset()
    &&& priority_sorted(batch)
    &&& forall|i: int, j: int|
        0 <= i < batch.len() && 0 <= j < rest.len() ==> batch[i].priority >= rest[j].priority
}

/// The skipped URLs as plain values.
pub open spec fn skipped_views(s: Seq<(SkipReason, String)>) -> Seq<(SkipReason, Seq<char>)> {
    s.map_values(|p: (SkipReason, String)| (p.0, p.1@))
}

/// `patterns` with `r` added where it is a pattern not held yet.
pub open spec fn with_pattern(patterns: Seq<Seq<char>>, r: Option<Seq<char>>) -> Seq<Seq<char>> {
    match r {
        Some(p) => if patterns.contains(p) {
            patterns
        } else {
            patterns.push(p)
        },
        None => patterns,
    }
}

/// The URL fits one of the trap patterns.
pub open spec fn matches_any_trap(url: Seq<char>, patterns: Seq<Seq<char>>) -> bool {
    exists|i: int| 0 <= i < patterns.len() && matches_trap(url, #[trigger] patterns[i])
}

/// Why an entry of a batch is left out before dispatch, checked in this
/// order; nothing where it is dispatched. A URL whose host cannot be read is
/// not left out for its subdomain.
pub open spec fn skip_reason(e: UrlEntry, patterns: Seq<Seq<char>>, config: SpiderConfig) -> Option<
    SkipReason,
> {
    if e.depth >= config.max_depth {
        Some(SkipReason::MaxDepthExceeded)
    } else if matches_any_trap(e.url@, patterns) {
        Some(SkipReason::MassiveLinkPattern)
    } else if any_contained(e.url@, views(config.skip_patterns@)) {
        Some(SkipReason::SkipPattern)
    } else if host_of(e.url@) is Some && any_host_prefix(
        host_of(e.url@)->Some_0,
        views(config.skip_subdomain_patterns@),
    ) {
        Some(SkipReason::SubdomainPattern)
    } else {
        None
    }
}

/// The ledger, the skipped list and the dispatched entries after screening
/// a batch in order: an entry with a skip reason is recorded as skipped; any
/// other entry whose URL is not yet visited is marked visited and
/// dispatched; an entry whose URL was visited already is dropped.
pub open spec fn screened(
    batch: Seq<UrlEntry>,
    patterns: Seq<Seq<char>>,
    config: SpiderConfig,
    visited: Seq<Seq<char>>,
    skipped: Seq<(SkipReason, Seq<char>)>,
) -> (Seq<Seq<char>>, Seq<(SkipReason, Seq<char>)>, Seq<UrlEntry>)
    decreases batch.len(),
{
    if batch.len() == 0 {
        (visited, skipped, Seq::empty())
    } else {
        let before = screened(batch.drop_last(), patterns, config, visited, skipped);
        let e = batch.last();
        match skip_reason(e, patterns, config) {
            Some(reason) => (before.0, before.1.push((reason, e.url@)), before.2),
            None => if before.0.contains(e.url@) {
                before
            } else {
                (before.0.push(e.url@), before.1, before.2.push(e))
            },
        }
    }
}

/// Screening marks exactly the dispatched URLs visited: the ledger after
/// screening is the ledger before followed by the dispatched URLs, and it
/// still holds each URL once. So a dispatched URL was not visited before,
/// no URL is dispatched twice, and none is fetched twice in a crawl.
pub proof fn lemma_dispatch_fresh(
    batch: Seq<UrlEntry>,
    patterns: Seq<Seq<char>>,
    config: SpiderConfig,
    visited: Seq<Seq<char>>,
    skipped: Seq<(SkipReason, Seq<char>)>,
)
    requires
        visited.no_duplicates(),
    ensures
        ({
            let after = screened(batch, patterns, config, visited, skipped);
            &&& after.0 == visited + entry_urls(after.2)
            &&& after.0.no_duplicates()
        }),
    decreases batch.len(),
{
    let after = screened(batch, patterns, config, visited, skipped);
    if batch.len() == 0 {
        assert(visited + entry_urls(after.2) =~= visited);
    } else {
        lemma_dispatch_fresh(batch.drop_last(), patterns, config, visited, skipped);
        let before = screened(batch.drop_last(), patterns, config, visited, skipped);
        let e = batch.last();
        if skip_reason(e, patterns, config) is None && !before.0.contains(e.url@) {
            assert(entry_urls(before.2.push(e)) =~= entry_urls(before.2).push(e.url@));
            assert(visited + entry_urls(after.2) =~= (visited + entry_urls(before.2)).push(e.url@));
        }
    }
}

/// The values of the `href` attributes of the anchor elements of an HTML
/// document, in document order, as `scraper` reads them with
/// `Html::parse_document` and the selector `a[href]`.
pub uninterp spec fn anchor_hrefs(html: Seq<char>) -> Seq<Seq<char>>;

/// Relies on `scraper::Html::parse_document`, `scraper::Selector::parse` of
/// `a[href]` (which always parses), `Html::select` and `Element::attr`: the
/// `href` values of the anchors, in document order.
#[verifier::external_body]
fn extract_hrefs(html: &str) -> (r: Vec<String>)
    ensures
        views(r@) == anchor_hrefs(html@),
{
    let document = scraper::Html::parse_document(html);
    let selector = scraper::Selector::parse("a[href]").unwrap();
    let mut hrefs: Vec<String> = Vec::new();
    for element in document.select(&selector) {
        if let Some(href) = element.value().attr("href") {
            hrefs.push(href.to_string());
        }
    }
    hrefs
}

/// An entry as plain values: URL, depth and priority.
pub open spec fn entry_view(e: UrlEntry) -> (Seq<char>, usize, usize) {
    (e.url@, e.depth, e.priority)
}

/// The entries as plain values.
pub open spec fn entry_views(q: Seq<UrlEntry>) -> Seq<(Seq<char>, usize, usize)> {
    q.map_values(|e: UrlEntry| entry_view(e))
}

/// The URLs of entries given as plain values.
pub open spec fn view_urls(q: Seq<(Seq<char>, usize, usize)>) -> Seq<Seq<char>> {
    q.map_values(|t: (Seq<char>, usize, usize)| t.0)
}

/// A link that is never followed: empty, an anchor, `javascript:` or
/// `mailto:`.
pub open spec fn ignored_href(href: Seq<char>) -> bool {
    ||| href.len() == 0
    ||| is_prefix(seq!['#'], href)
    ||| is_prefix("javascript:"@, href)
    ||| is_prefix("mailto:"@, href)
}

/// The URL that a link of page `page` leads to, where it is followed: the
/// link resolved against the page, provided it resolves and lies in the base
/// domain.
pub open spec fn link_target(page: Seq<char>, href: Seq<char>, base_domain: Seq<char>) -> Option<
    Seq<char>,
> {
    if ignored_href(href) {
        None
    } else {
        match url_join(page, href) {
            Some(abs) => if host_of(abs) is Some && in_domain(host_of(abs)->Some_0, base_domain) {
                Some(abs)
            } else {
                None
            },
            None => None,
        }
    }
}

/// The priority of a discovered link.
pub open spec fn link_priority(url: Seq<char>, priority_paths: Seq<Seq<char>>) -> usize {
    if any_contained(url, priority_paths) {
        PRIORITY_LINK
    } else {
        PLAIN_LINK
    }
}

/// The frontier after the links of a page at `depth` are taken in order:
/// each followed link whose URL is neither visited nor queued is queued one
/// level deeper with its priority.
pub open spec fn queued_after_links(
    queue: Seq<(Seq<char>, usize, usize)>,
    visited: Seq<Seq<char>>,
    page: Seq<char>,
    depth: usize,
    hrefs: Seq<Seq<char>>,
    base_domain: Seq<char>,
    priority_paths: Seq<Seq<char>>,
) -> Seq<(Seq<char>, usize, usize)>
    decreases hrefs.len(),
{
    if hrefs.len() == 0 {
        queue
    } else {
        let q = queued_after_links(
            queue,
            visited,
            page,
            depth,
            hrefs.drop_last(),
            base_domain,
            priority_paths,
        );
        match link_target(page, hrefs.last(), base_domain) {
            Some(abs) => if visited.contains(abs) || view_urls(q).contains(abs) {
                q
            } else {
                q.push((abs, (depth + 1) as usize, link_priority(abs, priority_paths)))
            },
            None => q,
        }
    }
}

/// The requested URLs of the redirects.
pub open spec fn redirect_keys(rs: Seq<(String, String)>) -> Seq<Seq<char>> {
    rs.map_values(|p: (String, String)| p.0@)
}

/// The redirects as plain values.
pub open spec fn redirect_views(rs: Seq<(String, String)>) -> Seq<(Seq<char>, Seq<char>)> {
    rs.map_values(|p: (String, String)| (p.0@, p.1@))
}

/// What fetching a dispatched URL gave.
pub enum FetchOutcome {
    /// The request failed, or the status was not a success.
    Failed,
    /// The response: the URL it came from after redirects, and its body where
    /// it is HTML (nothing for another content type or an unreadable body).
    Fetched { final_url: String, html: Option<String> },
}

/// Whether a link is never followed.
fn is_ignored_href(href: &str) -> (r: bool)
    ensures
        r == ignored_href(href@),
{
    let h = chars_of(href);
    if h.len() == 0 {
        return true;
    }
    let anchor = chars_of("#");
    let script = chars_of("javascript:");
    let mail = chars_of("mailto:");
    proof {
        reveal_strlit("#");
        assert(anchor@ =~= seq!['#']);
    }
    has_prefix(&h, &anchor) || has_prefix(&h, &script) || has_prefix(&h, &mail)
}

/// Whether the frontier holds an entry for the URL.
fn queue_holds(q: &Vec<UrlEntry>, u: &String) -> (r: bool)
    ensures
        r == view_urls(entry_views(q@)).contains(u@),
{
    let mut i: usize = 0;
    while i < q.len()
        invariant
            i <= q.len(),
            forall|j: int| 0 <= j < i ==> q@[j].url@ != u@,
        decreases q.len() - i,
    {
        if q[i].url == *u {
            assert(view_urls(entry_views(q@))[i as int] == u@);
            return true;
        }
        i = i + 1;
    }
    assert forall|j: int| 0 <= j < view_urls(entry_views(q@)).len() implies view_urls(
        entry_views(q@),
    )[j] != u@ by {
        assert(q@[j].url@ != u@);
    }
    false
}

/// What one loop iteration selected and dispatched.
pub struct Round {
    /// The entries selected from the frontier, highest priority first.
    pub batch: Ghost<Seq<UrlEntry>>,
    /// How many entries were selected.
    pub batch_len: usize,
    /// The trap pattern detected in the batch, if any.
    pub pattern: Option<String>,
    /// The entries to fetch, each with a URL visited for the first time.
    pub dispatch: Vec<UrlEntry>,
}

/// Why `e` is left out before dispatch, if it is.
fn skip_reason_of(e: &UrlEntry, patterns: &Vec<String>, config: &SpiderConfig) -> (r: Option<
    SkipReason,
>)
    ensures
        r == skip_reason(*e, views(patterns@), *config),
{
    if e.depth >= config.max_depth {
        return Some(SkipReason::MaxDepthExceeded);
    }
    let mut i: usize = 0;
    while i < patterns.len()
        invariant
            i <= patterns.len(),
            e.depth < config.max_depth,
            forall|j: int| 0 <= j < i ==> !matches_trap(e.url@, #[trigger] views(patterns@)[j]),
        decreases patterns.len() - i,
    {
        if matches_trap_pattern(e.url.as_str(), patterns[i].as_str()) {
            assert(matches_trap(e.url@, views(patterns@)[i as int]));
            assert(matches_any_trap(e.url@, views(patterns@)));
            return Some(SkipReason::MassiveLinkPattern);
        }
        i = i + 1;
    }
    if should_skip_url(e.url.as_str(), config.skip_patterns.as_slice()) {
        return Some(SkipReason::SkipPattern);
    }
    match should_skip_subdomain(e.url.as_str(), config.skip_subdomain_patterns.as_slice()) {
        Ok(true) => Some(SkipReason::SubdomainPattern),
        _ => None,
    }
}

impl CrawlState {
    /// The invariant of a crawl: each URL is visited at most once, every
    /// unreachable URL was visited, and each trap pattern is held once.
    pub open spec fn wf(&self) -> bool {
        &&& views(self.visited@).no_duplicates()
        &&& forall|i: int|
            0 <= i < self.unreachable@.len() ==> views(self.visited@).contains(
                #[trigger] self.unreachable@[i]@,
            )
        &&& views(self.patterns@).no_duplicates()
        &&& redirect_keys(self.redirects@).no_duplicates()
    }

    /// Begin a crawl at `start_url`: its domain without `www.` is the base
    /// domain, and its normalized form is queued at depth 0 with the start
    /// priority.
    pub fn start(start_url: &str) -> (r: Result<CrawlState, SpiderError>)
        ensures
            match r {
                Ok(s) => {
                    &&& host_of(start_url@) is Some
                    &&& s.base_domain@ == strip_www(host_of(start_url@)->Some_0)
                    &&& s.base_url@ == url_parse(start_url@)->Some_0.0
                    &&& s.queue@.len() == 1
                    &&& s.queue@[0].url@ == s.base_url@
                    &&& s.queue@[0].depth == 0
                    &&& s.queue@[0].priority == START_PRIORITY
                    &&& s.visited@.len() == 0
                    &&& s.skipped@.len() == 0
                    &&& s.patterns@.len() == 0
                    &&& s.redirects@.len() == 0
                    &&& s.unreachable@.len() == 0
                    &&& s.loops == 0
                    &&& s.processed == 0
                    &&& s.wf()
                },
                Err(e) => host_of(start_url@) is None && host_error(start_url@, e),
            },
    {
        let base_domain = extract_base_domain(start_url)?;
        let base_url = match normalize_url(start_url) {
            Ok(u) => u,
            Err(e) => {
                return Err(e);
            },
        };
        let first = UrlEntry { url: base_url.clone(), depth: 0, priority: START_PRIORITY };
        let mut queue: Vec<UrlEntry> = Vec::new();
        queue.push(first);
        let s = CrawlState {
            base_url,
            base_domain,
            queue,
            visited: Vec::new(),
            skipped: Vec::new(),
            patterns: Vec::new(),
            redirects: Vec::new(),
            unreachable: Vec::new(),
            loops: 0,
            processed: 0,
        };
        assert(views(s.visited@) =~= Seq::<Seq<char>>::empty());
        assert(views(s.patterns@) =~= Seq::<Seq<char>>::empty());
        assert(redirect_keys(s.redirects@) =~= Seq::<Seq<char>>::empty());
        Ok(s)
    }

    /// Take the whole frontier, order it by priority (highest first, keeping
    /// the order of entries of equal priority) and return the first
    /// `max_concurrent` entries; the others go back to the frontier.
    pub fn select_batch(&mut self, max_concurrent: usize) -> (batch: Vec<UrlEntry>)
        ensures
            batch_selected(old(self).queue@, batch@, final(self).queue@, max_concurrent),
            final(self).visited == old(self).visited,
            final(self).skipped == old(self).skipped,
            final(self).patterns == old(self).patterns,
            final(self).redirects == old(self).redirects,
            final(self).unreachable == old(self).unreachable,
            final(self).base_url == old(self).base_url,
            final(self).base_domain == old(self).base_domain,
            final(self).loops == old(self).loops,
            final(self).processed == old(self).processed,
    {
        let mut pending: Vec<UrlEntry> = Vec::new();
        std::mem::swap(&mut pending, &mut self.queue);
        let ghost all = pending@;
        assert(all == old(self).queue@);
        let mut sorted: Vec<UrlEntry> = Vec::new();
        while pending.len() > 0
            invariant
                priority_sorted(sorted@),
                sorted@.to_multiset().add(pending@.to_multiset()) == all.to_multiset(),
            decreases pending.len(),
        {
            let ghost before = pending@;
            let e = pending.pop().unwrap();
            assert(pending@.push(e) =~= before);
            let mut j: usize = 0;
            while j < sorted.len() && sorted[j].priority > e.priority
                invariant
                    j <= sorted.len(),
                    forall|a: int| 0 <= a < j ==> sorted@[a].priority > e.priority,
                decreases sorted.len() - j,
            {
                j = j + 1;
            }
            let ghost s0 = sorted@;
            sorted.insert(j, e);
            assert(priority_sorted(sorted@)) by {
                assert forall|a: int, b: int| 0 <= a < b < sorted@.len() implies sorted@[a].priority
                    >= sorted@[b].priority by {
                    if b < j {
                    } else if b == j {
                    } else if a < j {
                        assert(sorted@[b] == s0[b - 1]);
                    } else if a == j {
                        assert(sorted@[b] == s0[b - 1]);
                        if j < s0.len() {
                            assert(s0[j as int].priority <= e.priority);
                        }
                    } else {
                        assert(sorted@[a] == s0[a - 1]);
                        assert(sorted@[b] == s0[b - 1]);
                    }
                }
            }
            assert(sorted@.to_multiset() == s0.to_multiset().insert(e));
            assert(before.to_multiset() == pending@.to_multiset().insert(e));
            assert(sorted@.to_multiset().add(pending@.to_multiset()) =~= all.to_multiset());
        }
        assert(pending@.to_multiset() =~= Multiset::<UrlEntry>::empty());
        assert(sorted@.to_multiset() =~= all.to_multiset());
        assert(sorted@.len() == all.len()) by {
            assert(sorted@.to_multiset().len() == all.to_multiset().len());
        }
        let take = if max_concurrent < sorted.len() {
            max_concurrent
        } else {
            sorted.len()
        };
        let ghost whole = sorted@;
        let rest = sorted.split_off(take);
        assert(sorted@ + rest@ =~= whole);
        assert forall|i: int, j: int|
            0 <= i < sorted@.len() && 0 <= j < rest@.len() implies sorted@[i].priority
            >= rest@[j].priority by {
            assert(sorted@[i] == whole[i]);
            assert(rest@[j] == whole[take + j]);
        }
        assert forall|i: int, j: int| 0 <= i < j < sorted@.len() implies sorted@[i].priority
            >= sorted@[j].priority by {
            assert(sorted@[i] == whole[i]);
            assert(sorted@[j] == whole[j]);
        }
        self.queue = rest;
        sorted
    }

    /// Run trap detection over the batch's URLs and add the pattern found,
    /// if any and not held yet; returns the pattern found.
    pub fn record_trap_pattern(&mut self, batch: &Vec<UrlEntry>, threshold: usize) -> (r: Option<
        String,
    >)
        requires
            old(self).wf(),
        ensures
            trap_outcome(trap_keys(entry_urls(batch@)), threshold as nat, opt_view(r)),
            views(final(self).patterns@) == with_pattern(views(old(self).patterns@), opt_view(r)),
            final(self).wf(),
            final(self).queue == old(self).queue,
            final(self).visited == old(self).visited,
            final(self).skipped == old(self).skipped,
            final(self).redirects == old(self).redirects,
            final(self).unreachable == old(self).unreachable,
            final(self).base_url == old(self).base_url,
            final(self).base_domain == old(self).base_domain,
            final(self).loops == old(self).loops,
            final(self).processed == old(self).processed,
    {
        let mut urls: Vec<String> = Vec::new();
        let mut i: usize = 0;
        while i < batch.len()
            invariant
                i <= batch.len(),
                views(urls@) == entry_urls(batch@).take(i as int),
            decreases batch.len() - i,
        {
            let u = batch[i].url.clone();
            let ghost before = urls@;
            urls.push(u);
            assert(views(urls@) =~= views(before).push(u@));
            assert(entry_urls(batch@).take(i + 1) =~= entry_urls(batch@).take(i as int).push(u@));
            i = i + 1;
        }
        assert(entry_urls(batch@).take(i as int) =~= entry_urls(batch@));
        let r = detect_massive_links_pattern(urls.as_slice(), threshold);
        match &r {
            Some(p) => {
                if !holds_string(&self.patterns, p) {
                    let ghost before = self.patterns@;
                    self.patterns.push(p.clone());
                    assert(views(self.patterns@) =~= views(before).push(p@));
                }
            },
            None => {},
        }
        r
    }

    /// Screen a batch in order: record each entry that has a skip reason as
    /// skipped, mark each other entry visited (if it was not) and return
    /// those newly visited, to be fetched.
    pub fn screen_batch(&mut self, batch: Vec<UrlEntry>, config: &SpiderConfig) -> (dispatch: Vec<
        UrlEntry,
    >)
        requires
            old(self).wf(),
        ensures
            ({
                let after = screened(
                    batch@,
                    views(old(self).patterns@),
                    *config,
                    views(old(self).visited@),
                    skipped_views(old(self).skipped@),
                );
                &&& views(final(self).visited@) == after.0
                &&& skipped_views(final(self).skipped@) == after.1
                &&& dispatch@ == after.2
            }),
            final(self).wf(),
            final(self).queue == old(self).queue,
            final(self).patterns == old(self).patterns,
            final(self).redirects == old(self).redirects,
            final(self).unreachable == old(self).unreachable,
            final(self).base_url == old(self).base_url,
            final(self).base_domain == old(self).base_domain,
            final(self).loops == old(self).loops,
            final(self).processed == old(self).processed,
    {
        let ghost all = batch@;
        let ghost pats = views(self.patterns@);
        let ghost v0 = views(self.visited@);
        let ghost s0 = skipped_views(self.skipped@);
        let mut rest = batch;
        let mut dispatch: Vec<UrlEntry> = Vec::new();
        let mut i: usize = 0;
        assert(all.len() == rest.len());
        while rest.len() > 0
            invariant
                i + rest@.len() == all.len(),
                all.len() <= usize::MAX,
                rest@ == all.skip(i as int),
                pats == views(self.patterns@),
                self.wf(),
                views(old(self).visited@).len() <= views(self.visited@).len(),
                forall|j: int|
                    0 <= j < views(old(self).visited@).len() ==> views(self.visited@)[j] == views(
                        old(self).visited@,
                    )[j],
                old(self).unreachable == self.unreachable,
                old(self).patterns == self.patterns,
                old(self).queue == self.queue,
                old(self).redirects == self.redirects,
                old(self).base_url == self.base_url,
                old(self).base_domain == self.base_domain,
                old(self).loops == self.loops,
                old(self).processed == self.processed,
                v0 == views(old(self).visited@),
                s0 == skipped_views(old(self).skipped@),
                ({
                    let after = screened(all.take(i as int), pats, *config, v0, s0);
                    &&& views(self.visited@) == after.0
                    &&& skipped_views(self.skipped@) == after.1
                    &&& dispatch@ == after.2
                }),
            decreases rest.len(),
        {
            let e = rest.remove(0);
            assert(e == all[i as int]);
            assert(rest@ =~= all.skip(i + 1));
            assert(all.take(i + 1).drop_last() =~= all.take(i as int));
            assert(all.take(i + 1).last() == e);
            let reason = skip_reason_of(&e, &self.patterns, config);
            let ghost vb = self.visited@;
            match reason {
                Some(why) => {
                    let ghost sb = self.skipped@;
                    self.skipped.push((why, e.url));
                    assert(skipped_views(self.skipped@) =~= skipped_views(sb).push((why, e.url@)));
                },
                None => {
                    if !holds_string(&self.visited, &e.url) {
                        self.visited.push(e.url.clone());
                        assert(views(self.visited@) =~= views(vb).push(e.url@));
                        assert forall|j: int|
                            0 <= j < self.unreachable@.len() implies views(self.visited@).contains(
                            #[trigger] self.unreachable@[j]@,
                        ) by {
                            let k = choose|k: int|
                                0 <= k < views(vb).len() && views(vb)[k] == self.unreachable@[j]@;
                            assert(views(self.visited@)[k] == views(vb)[k]);
                        }
                        dispatch.push(e);
                    }
                },
            }
            i = i + 1;
        }
        assert(all.take(i as int) =~= all);
        dispatch
    }

    /// One loop iteration up to the fetches: nothing where the loop budget
    /// is spent (the state is left as it is) or the frontier is empty (the
    /// iteration is counted); else select the batch, record the trap pattern
    /// detected in it, and screen it.
    pub fn next_round(&mut self, config: &SpiderConfig) -> (r: Option<Round>)
        requires
            old(self).wf(),
        ensures
            final(self).wf(),
            old(self).loops >= config.max_loops ==> r is None && *final(self) == *old(self),
            old(self).loops < config.max_loops ==> final(self).loops == old(self).loops + 1,
            old(self).loops < config.max_loops && old(self).queue@.len() == 0 ==> r is None
                && final(self).queue == old(self).queue && final(self).visited == old(self).visited
                && final(self).skipped == old(self).skipped && final(self).patterns == old(
                self,
            ).patterns && final(self).processed == old(self).processed,
            old(self).loops < config.max_loops && old(self).queue@.len() > 0 ==> r is Some,
            r is Some ==> ({
                let round = r->Some_0;
                let batch = round.batch@;
                let after = screened(
                    batch,
                    views(final(self).patterns@),
                    *config,
                    views(old(self).visited@),
                    skipped_views(old(self).skipped@),
                );
                &&& batch_selected(old(self).queue@, batch, final(self).queue@, config.max_concurrent)
                &&& round.batch_len == batch.len()
                &&& trap_outcome(
                    trap_keys(entry_urls(batch)),
                    config.pattern_threshold as nat,
                    opt_view(round.pattern),
                )
                &&& views(final(self).patterns@) == with_pattern(views(old(self).patterns@), opt_view(round.pattern))
                &&& views(final(self).visited@) == after.0
                &&& skipped_views(final(self).skipped@) == after.1
                &&& round.dispatch@ == after.2
                &&& final(self).processed == if old(self).processed + batch.len() <= usize::MAX {
                    (old(self).processed + batch.len()) as usize
                } else {
                    usize::MAX
                }
            }),
            final(self).redirects == old(self).redirects,
            final(self).unreachable == old(self).unreachable,
            final(self).base_url == old(self).base_url,
            final(self).base_domain == old(self).base_domain,
    {
        if self.loops >= config.max_loops {
            return None;
        }
        self.loops = self.loops + 1;
        if self.queue.len() == 0 {
            return None;
        }
        let batch = self.select_batch(config.max_concurrent);
        let ghost selected = batch@;
        let batch_len = batch.len();
        let pattern = self.record_trap_pattern(&batch, config.pattern_threshold);
        let dispatch = self.screen_batch(batch, config);
        self.processed = if self.processed <= usize::MAX - batch_len {
            self.processed + batch_len
        } else {
            usize::MAX
        };
        Some(Round { batch: Ghost(selected), batch_len, pattern, dispatch })
    }

    /// Queue a discovered URL one level below `depth`, with the link
    /// priority, unless it is visited or queued already.
    pub fn enqueue_target(&mut self, target: String, depth: usize, priority_paths: &[String])
        requires
            depth < usize::MAX,
        ensures
            entry_views(final(self).queue@) == if views(old(self).visited@).contains(target@)
                || view_urls(entry_views(old(self).queue@)).contains(target@) {
                entry_views(old(self).queue@)
            } else {
                entry_views(old(self).queue@).push(
                    (target@, (depth + 1) as usize, link_priority(target@, views(priority_paths@))),
                )
            },
            final(self).visited == old(self).visited,
            final(self).skipped == old(self).skipped,
            final(self).patterns == old(self).patterns,
            final(self).redirects == old(self).redirects,
            final(self).unreachable == old(self).unreachable,
            final(self).base_url == old(self).base_url,
            final(self).base_domain == old(self).base_domain,
            final(self).loops == old(self).loops,
            final(self).processed == old(self).processed,
    {
        if !holds_string(&self.visited, &target) && !queue_holds(&self.queue, &target) {
            let priority = if is_priority_url(target.as_str(), priority_paths) {
                PRIORITY_LINK
            } else {
                PLAIN_LINK
            };
            let ghost qb = self.queue@;
            let ghost tv = target@;
            self.queue.push(UrlEntry { url: target, depth: depth + 1, priority });
            assert(entry_views(self.queue@) =~= entry_views(qb).push(
                (tv, (depth + 1) as usize, priority),
            ));
        }
    }

    /// Take the links of a page at `depth`, in order: skip those never
    /// followed, resolve the others against the page (dropping those that do
    /// not resolve or leave the base domain), and queue each URL that is
    /// neither visited nor queued one level deeper, with the link priority.
    pub fn enqueue_links(
        &mut self,
        page_url: &str,
        depth: usize,
        hrefs: &Vec<String>,
        priority_paths: &[String],
    )
        requires
            depth < usize::MAX,
        ensures
            entry_views(final(self).queue@) == queued_after_links(
                entry_views(old(self).queue@),
                views(old(self).visited@),
                page_url@,
                depth,
                views(hrefs@),
                old(self).base_domain@,
                views(priority_paths@),
            ),
            final(self).visited == old(self).visited,
            final(self).skipped == old(self).skipped,
            final(self).patterns == old(self).patterns,
            final(self).redirects == old(self).redirects,
            final(self).unreachable == old(self).unreachable,
            final(self).base_url == old(self).base_url,
            final(self).base_domain == old(self).base_domain,
            final(self).loops == old(self).loops,
            final(self).processed == old(self).processed,
    {
        let ghost q0 = entry_views(self.queue@);
        let ghost hs = views(hrefs@);
        let mut i: usize = 0;
        while i < hrefs.len()
            invariant
                i <= hrefs.len(),
                depth < usize::MAX,
                hs == views(hrefs@),
                q0 == entry_views(old(self).queue@),
                entry_views(self.queue@) == queued_after_links(
                    q0,
                    views(self.visited@),
                    page_url@,
                    depth,
                    hs.take(i as int),
                    self.base_domain@,
                    views(priority_paths@),
                ),
                self.visited == old(self).visited,
                self.skipped == old(self).skipped,
                self.patterns == old(self).patterns,
                self.redirects == old(self).redirects,
                self.unreachable == old(self).unreachable,
                self.base_url == old(self).base_url,
                self.base_domain == old(self).base_domain,
                self.loops == old(self).loops,
                self.processed == old(self).processed,
            decreases hrefs.len() - i,
        {
            let href = &hrefs[i];
            assert(hs.take(i + 1).drop_last() =~= hs.take(i as int));
            assert(hs.take(i + 1).last() == href@);
            if !is_ignored_href(href.as_str()) {
                match resolve_url(page_url, href.as_str()) {
                    Ok(abs) => {
                        match is_same_domain(abs.as_str(), self.base_domain.as_str()) {
                            Ok(true) => {
                                self.enqueue_target(abs, depth, priority_paths);
                            },
                            _ => {},
                        }
                    },
                    Err(_) => {},
                }
            }
            i = i + 1;
        }
        assert(hs.take(i as int) =~= hs);
    }

    /// Record the outcome of fetching a dispatched entry: a failed fetch
    /// makes the URL unreachable; a response from another URL is recorded
    /// as a redirect; the links of an HTML body are taken with
    /// `enqueue_links`, resolved against the URL the response came from.
    /// Returns the number of links on the page.
    pub fn apply_outcome(
        &mut self,
        entry: &UrlEntry,
        outcome: FetchOutcome,
        priority_paths: &[String],
    ) -> (links: usize)
        requires
            old(self).wf(),
            views(old(self).visited@).contains(entry.url@),
            entry.depth < usize::MAX,
        ensures
            final(self).wf(),
            final(self).visited == old(self).visited,
            final(self).skipped == old(self).skipped,
            final(self).patterns == old(self).patterns,
            final(self).base_url == old(self).base_url,
            final(self).base_domain == old(self).base_domain,
            final(self).loops == old(self).loops,
            final(self).processed == old(self).processed,
            match outcome {
                FetchOutcome::Failed => {
                    &&& views(final(self).unreachable@) == views(old(self).unreachable@).push(
                        entry.url@,
                    )
                    &&& final(self).redirects == old(self).redirects
                    &&& final(self).queue == old(self).queue
                    &&& links == 0
                },
                FetchOutcome::Fetched { final_url, html } => {
                    &&& final(self).unreachable == old(self).unreachable
                    &&& if final_url@ == entry.url@ {
                        final(self).redirects == old(self).redirects
                    } else if redirect_keys(old(self).redirects@).contains(entry.url@) {
                        exists|j: int|
                            0 <= j < old(self).redirects@.len() && redirect_keys(
                                old(self).redirects@,
                            )[j] == entry.url@ && redirect_views(final(self).redirects@)
                                == redirect_views(old(self).redirects@).update(
                                j,
                                (entry.url@, final_url@),
                            )
                    } else {
                        redirect_views(final(self).redirects@) == redirect_views(
                            old(self).redirects@,
                        ).push((entry.url@, final_url@))
                    }
                    &&& match html {
                        Some(h) => {
                            &&& links == anchor_hrefs(h@).len()
                            &&& entry_views(final(self).queue@) == queued_after_links(
                                entry_views(old(self).queue@),
                                views(old(self).visited@),
                                final_url@,
                                entry.depth,
                                anchor_hrefs(h@),
                                old(self).base_domain@,
                                views(priority_paths@),
                            )
                        },
                        None => final(self).queue == old(self).queue && links == 0,
                    }
                },
            },
    {
        match outcome {
            FetchOutcome::Failed => {
                let ghost ub = self.unreachable@;
                self.unreachable.push(entry.url.clone());
                assert(views(self.unreachable@) =~= views(ub).push(entry.url@));
                assert forall|i: int|
                    0 <= i < self.unreachable@.len() implies views(self.visited@).contains(
                    #[trigger] self.unreachable@[i]@,
                ) by {
                    if i < ub.len() {
                        assert(self.unreachable@[i] == ub[i]);
                    }
                }
                0
            },
            FetchOutcome::Fetched { final_url, html } => {
                if !(final_url == entry.url) {
                    self.record_redirect(&entry.url, &final_url);
                }
                match html {
                    Some(h) => {
                        let hrefs = extract_hrefs(h.as_str());
                        self.enqueue_links(final_url.as_str(), entry.depth, &hrefs, priority_paths);
                        hrefs.len()
                    },
                    None => 0,
                }
            },
        }
    }

    /// Record that `from` was redirected to `to`, replacing an earlier record
    /// for `from`.
    fn record_redirect(&mut self, from: &String, to: &String)
        requires
            old(self).wf(),
        ensures
            final(self).wf(),
            if redirect_keys(old(self).redirects@).contains(from@) {
                exists|j: int|
                    0 <= j < old(self).redirects@.len() && redirect_keys(old(self).redirects@)[j]
                        == from@ && redirect_views(final(self).redirects@) == redirect_views(
                        old(self).redirects@,
                    ).update(j, (from@, to@))
            } else {
                redirect_views(final(self).redirects@) == redirect_views(old(self).redirects@).push(
                    (from@, to@),
                )
            },
            final(self).queue == old(self).queue,
            final(self).visited == old(self).visited,
            final(self).skipped == old(self).skipped,
            final(self).patterns == old(self).patterns,
            final(self).unreachable == old(self).unreachable,
            final(self).base_url == old(self).base_url,
            final(self).base_domain == old(self).base_domain,
            final(self).loops == old(self).loops,
            final(self).processed == old(self).processed,
    {
        let ghost rb = self.redirects@;
        let mut j: usize = 0;
        while j < self.redirects.len() && !(self.redirects[j].0 == *from)
            invariant
                j <= self.redirects.len(),
                self.redirects@ == rb,
                forall|a: int| 0 <= a < j ==> rb[a].0@ != from@,
            decreases self.redirects.len() - j,
        {
            j = j + 1;
        }
        if j < self.redirects.len() {
            assert(redirect_keys(rb)[j as int] == from@);
            self.redirects.set(j, (from.clone(), to.clone()));
            assert(redirect_views(self.redirects@) =~= redirect_views(rb).update(
                j as int,
                (from@, to@),
            ));
            assert(redirect_keys(self.redirects@) =~= redirect_keys(rb));
        } else {
            assert forall|a: int| 0 <= a < redirect_keys(rb).len() implies redirect_keys(rb)[a]
                != from@ by {
                assert(rb[a].0@ != from@);
            }
            self.redirects.push((from.clone(), to.clone()));
            assert(redirect_views(self.redirects@) =~= redirect_views(rb).push((from@, to@)));
            assert(redirect_keys(self.redirects@) =~= redirect_keys(rb).push(from@));
        }
    }

    /// Whether the URL was visited.
    pub fn is_visited(&self, url: &String) -> (r: bool)
        ensures
            r == views(self.visited@).contains(url@),
    {
        holds_string(&self.visited, url)
    }

    /// The report of the crawl: the found URLs, each once and sorted, the
    /// skipped URLs grouped by reason, the patterns, redirects and
    /// unreachable URLs, what is still queued, and the counters.
    pub fn finish(self) -> (r: CrawlResult)
        requires
            self.wf(),
        ensures
            report_of(self, r),
            r.urls@.len() == self.visited@.len(),
    {
        let urls = sorted_distinct(&self.visited);
        proof {
            lemma_lex_sorted_distinct(views(urls@));
            views(urls@).unique_seq_to_set();
            views(self.visited@).unique_seq_to_set();
        }
        let mut groups: Vec<(String, Vec<String>)> = Vec::new();
        assert(group_views(groups@) =~= Seq::<(Seq<char>, Seq<Seq<char>>)>::empty());
        push_group(&mut groups, &self.skipped, SkipReason::MaxDepthExceeded);
        push_group(&mut groups, &self.skipped, SkipReason::MassiveLinkPattern);
        push_group(&mut groups, &self.skipped, SkipReason::SkipPattern);
        push_group(&mut groups, &self.skipped, SkipReason::SubdomainPattern);
        assert(group_views(groups@) =~= skipped_groups(skipped_views(self.skipped@)));
        let mut remaining: Vec<String> = Vec::new();
        let mut i: usize = 0;
        while i < self.queue.len()
            invariant
                i <= self.queue.len(),
                views(remaining@) == entry_urls(self.queue@).take(i as int),
            decreases self.queue.len() - i,
        {
            let ghost rb = remaining@;
            let u = self.queue[i].url.clone();
            remaining.push(u);
            assert(views(remaining@) =~= views(rb).push(u@));
            assert(entry_urls(self.queue@).take(i + 1) =~= entry_urls(self.queue@).take(
                i as int,
            ).push(u@));
            i = i + 1;
        }
        assert(entry_urls(self.queue@).take(i as int) =~= entry_urls(self.queue@));
        let stats = CrawlStats {
            loops: self.loops,
            processed_urls: self.processed,
            visited_urls: self.visited.len(),
            found_urls: urls.len(),
            skipped_urls: self.skipped.len(),
            redirects: self.redirects.len(),
            unreachable_urls: self.unreachable.len(),
            patterns_detected: self.patterns.len(),
        };
        CrawlResult {
            base_url: self.base_url,
            base_domain: self.base_domain,
            urls,
            skipped_urls: groups,
            massive_link_patterns: self.patterns,
            redirects: self.redirects,
            unreachable_urls: self.unreachable,
            remaining_queue: remaining,
            stats,
        }
    }
}

} // verus!
