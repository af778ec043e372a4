//! The report of a crawl: the found URLs, the skipped URLs grouped by
//! reason, the redirects, patterns and counters, and the laws every report
//! obeys.
use vstd::prelude::*;
use crate::crawler::{entry_urls, skipped_views, CrawlState, SkipReason};
use crate::text::{lemma_lex_sorted_distinct, lex_lt, lex_sorted, views};

verus! {

broadcast use vstd::seq_lib::group_seq_properties;

/// The name of a skip reason in a report.
pub open spec fn reason_name(r: SkipReason) -> Seq<char> {
    match r {
        SkipReason::MaxDepthExceeded => "max_depth_exceeded"@,
        SkipReason::MassiveLinkPattern => "massive_link_pattern"@,
        SkipReason::SkipPattern => "skip_pattern"@,
        SkipReason::SubdomainPattern => "subdomain_pattern"@,
    }
}

impl SkipReason {
    /// The name of the reason in a report.
    pub fn name(&self) -> (r: String)
        ensures
            r@ == reason_name(*self),
    {
        match self {
            SkipReason::MaxDepthExceeded => String::from_str("max_depth_exceeded"),
            SkipReason::MassiveLinkPattern => String::from_str("massive_link_pattern"),
            SkipReason::SkipPattern => String::from_str("skip_pattern"),
            SkipReason::SubdomainPattern => String::from_str("subdomain_pattern"),
        }
    }
}

/// The URLs skipped for reason `r`, in order.
pub open spec fn group_of(s: Seq<(SkipReason, Seq<char>)>, r: SkipReason) -> Seq<Seq<char>>
    decreases s.len(),
{
    if s.len() == 0 {
        Seq::empty()
    } else if s.last().0 == r {
        group_of(s.drop_last(), r).push(s.last().1)
    } else {
        group_of(s.drop_last(), r)
    }
}

/// The group of reason `r`, where it is not empty.
pub open spec fn group_entry(s: Seq<(SkipReason, Seq<char>)>, r: SkipReason) -> Seq<
    (Seq<char>, Seq<Seq<char>>),
> {
    if group_of(s, r).len() > 0 {
        seq![(reason_name(r), group_of(s, r))]
    } else {
        Seq::empty()
    }
}

/// The skipped URLs grouped by reason, one group for each reason that
/// occurs, in the order the reasons are checked.
pub open spec fn skipped_groups(s: Seq<(SkipReason, Seq<char>)>) -> Seq<
    (Seq<char>, Seq<Seq<char>>),
> {
    group_entry(s, SkipReason::MaxDepthExceeded) + group_entry(s, SkipReason::MassiveLinkPattern)
        + group_entry(s, SkipReason::SkipPattern) + group_entry(s, SkipReason::SubdomainPattern)
}

/// Groups of URLs as plain values.
pub open spec fn group_views(g: Seq<(String, Vec<String>)>) -> Seq<(Seq<char>, Seq<Seq<char>>)> {
    g.map_values(|p: (String, Vec<String>)| (p.0@, views(p.1@)))
}

/// Named counters of a crawl.
#[derive(Debug, Clone, Copy)]
pub struct CrawlStats {
    pub loops: usize,
    pub processed_urls: usize,
    pub visited_urls: usize,
    pub found_urls: usize,
    pub skipped_urls: usize,
    pub redirects: usize,
    pub unreachable_urls: usize,
    pub patterns_detected: usize,
}

/// The result of a crawl.
#[derive(Debug)]
pub struct CrawlResult {
    /// The start URL, normalized.
    pub base_url: String,
    /// The base domain.
    pub base_domain: String,
    /// The found URLs, each once, in ascending order.
    pub urls: Vec<String>,
    /// The skipped URLs, grouped by the name of the reason.
    pub skipped_urls: Vec<(String, Vec<String>)>,
    /// The trap patterns detected.
    pub massive_link_patterns: Vec<String>,
    /// Requested URL and the URL it was redirected to.
    pub redirects: Vec<(String, String)>,
    /// The URLs whose fetch failed.
    pub unreachable_urls: Vec<String>,
    /// The URLs still queued at the end.
    pub remaining_queue: Vec<String>,
    /// Counters of the crawl.
    pub stats: CrawlStats,
}

/// `r` is the report of the crawl in state `s`.
pub open spec fn report_of(s: CrawlState, r: CrawlResult) -> bool {
    &&& r.base_url == s.base_url
    &&& r.base_domain == s.base_domain
    &&& lex_sorted(views(r.urls@))
    &&& views(r.urls@).to_set() == views(s.visited@).to_set()
    &&& group_views(r.skipped_urls@) == skipped_groups(skipped_views(s.skipped@))
    &&& r.massive_link_patterns == s.patterns
    &&& r.redirects == s.redirects
    &&& r.unreachable_urls == s.unreachable
    &&& views(r.remaining_queue@) == entry_urls(s.queue@)
    &&& r.stats.loops == s.loops
    &&& r.stats.processed_urls == s.processed
    &&& r.stats.visited_urls == s.visited@.len()
    &&& r.stats.found_urls == r.urls@.len()
    &&& r.stats.skipped_urls == s.skipped@.len()
    &&& r.stats.redirects == s.redirects@.len()
    &&& r.stats.unreachable_urls == s.unreachable@.len()
    &&& r.stats.patterns_detected == s.patterns@.len()
}

/// The URLs skipped for `reason`, in order.
pub(crate) fn collect_group(skipped: &Vec<(SkipReason, String)>, reason: SkipReason) -> (r: Vec<String>)
    ensures
        views(r@) == group_of(skipped_views(skipped@), reason),
{
    let ghost all = skipped_views(skipped@);
    let mut r: Vec<String> = Vec::new();
    let mut i: usize = 0;
    while i < skipped.len()
        invariant
            i <= skipped.len(),
            all == skipped_views(skipped@),
            views(r@) == group_of(all.take(i as int), reason),
        decreases skipped.len() - i,
    {
        assert(all.take(i + 1).drop_last() =~= all.take(i as int));
        assert(all.take(i + 1).last() == (skipped@[i as int].0, skipped@[i as int].1@));
        if skipped[i].0 == reason {
            let ghost rb = r@;
            let u = skipped[i].1.clone();
            r.push(u);
            assert(views(r@) =~= views(rb).push(u@));
        }
        i = i + 1;
    }
    assert(all.take(i as int) =~= all);
    r
}

/// Add the group of `reason` where it is not empty.
pub(crate) fn push_group(
    groups: &mut Vec<(String, Vec<String>)>,
    skipped: &Vec<(SkipReason, String)>,
    reason: SkipReason,
)
    ensures
        group_views(final(groups)@) == group_views(old(groups)@) + group_entry(
            skipped_views(skipped@),
            reason,
        ),
{
    let g = collect_group(skipped, reason);
    let ghost gb = groups@;
    if g.len() > 0 {
        let name = reason.name();
        groups.push((name, g));
        assert(group_views(groups@) =~= group_views(gb) + group_entry(
            skipped_views(skipped@),
            reason,
        ));
    } else {
        assert(group_views(groups@) =~= group_views(gb) + group_entry(
            skipped_views(skipped@),
            reason,
        ));
    }
}

/// Each crawl report lists each found URL once, in ascending order; the
/// visited ledger holds as many URLs as the report finds; and every
/// unreachable URL is among the found ones, so that the found and the
/// unreachable URLs are disjoint in a crawl where no fetch failed.
pub proof fn lemma_report_laws(s: CrawlState, r: CrawlResult)
    requires
        s.wf(),
        report_of(s, r),
    ensures
        views(r.urls@).no_duplicates(),
        forall|i: int, j: int|
            0 <= i < j < r.urls@.len() ==> lex_lt(#[trigger] r.urls@[i]@, #[trigger] r.urls@[j]@),
        r.stats.visited_urls >= r.stats.found_urls,
        forall|i: int|
            0 <= i < r.unreachable_urls@.len() ==> views(r.urls@).contains(
                #[trigger] r.unreachable_urls@[i]@,
            ),
        r.unreachable_urls@.len() == 0 ==> forall|i: int, j: int|
            0 <= i < r.urls@.len() && 0 <= j < r.unreachable_urls@.len() ==> r.urls@[i]@
                != r.unreachable_urls@[j]@,
{
    lemma_lex_sorted_distinct(views(r.urls@));
    assert forall|i: int, j: int| 0 <= i < j < r.urls@.len() implies lex_lt(
        #[trigger] r.urls@[i]@,
        #[trigger] r.urls@[j]@,
    ) by {
        assert(views(r.urls@)[i] == r.urls@[i]@);
        assert(views(r.urls@)[j] == r.urls@[j]@);
    }
    views(r.urls@).unique_seq_to_set();
    views(s.visited@).unique_seq_to_set();
    assert forall|i: int| 0 <= i < r.unreachable_urls@.len() implies views(r.urls@).contains(
        #[trigger] r.unreachable_urls@[i]@,
    ) by {
        assert(views(s.visited@).contains(s.unreachable@[i]@));
        assert(views(s.visited@).to_set().contains(s.unreachable@[i]@));
    }
}

} // verus!
