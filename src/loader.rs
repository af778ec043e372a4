//! Batch crawling: the list of seed URLs and the settings shared by the
//! crawls of a batch.
use vstd::prelude::*;
use crate::config::{is_default_with, SpiderConfig};
use crate::defaults;
use crate::text::{chars_of, string_of, views};

verus! {

broadcast use vstd::seq_lib::group_seq_properties;

/// What `str::trim` makes of a text.
pub uninterp spec fn trimmed(s: Seq<char>) -> Seq<char>;

/// Relies on `str::trim`: the text without leading and trailing white space;
/// the result depends on the characters alone.
#[verifier::external_body]
fn trim_text(s: &str) -> (r: String)
    ensures
        r@ == trimmed(s@),
{
    s.trim().to_string()
}

/// The text cut at each newline: a text without newline is one line, and a
/// final newline leaves an empty last line.
pub open spec fn split_lines(s: Seq<char>) -> Seq<Seq<char>>
    decreases s.len(),
{
    if s.len() == 0 {
        seq![Seq::empty()]
    } else {
        let prev = split_lines(s.drop_last());
        if s.last() == '\n' {
            prev.push(Seq::empty())
        } else {
            prev.update(prev.len() - 1, prev.last().push(s.last()))
        }
    }
}

/// A line that names a seed: not blank, and not a comment (`#` after
/// leading white space).
pub open spec fn seed_line(line: Seq<char>) -> bool {
    trimmed(line).len() > 0 && trimmed(line)[0] != '#'
}

/// The seeds named by the lines, trimmed, in order.
pub open spec fn seeds_of(lines: Seq<Seq<char>>) -> Seq<Seq<char>>
    decreases lines.len(),
{
    if lines.len() == 0 {
        Seq::empty()
    } else if seed_line(lines.last()) {
        seeds_of(lines.drop_last()).push(trimmed(lines.last()))
    } else {
        seeds_of(lines.drop_last())
    }
}

/// Whether a trimmed line names a seed: it is not empty and does not start
/// with `#`.
pub fn is_seed_text(trimmed_line: &str) -> (r: bool)
    ensures
        r == (trimmed_line@.len() > 0 && trimmed_line@[0] != '#'),
{
    let tc = chars_of(trimmed_line);
    tc.len() > 0 && tc[0] != '#'
}

/// Add the seed of `line`, where it names one.
fn take_line(seeds: &mut Vec<String>, line: &Vec<char>)
    ensures
        views(final(seeds)@) == if seed_line(line@) {
            views(old(seeds)@).push(trimmed(line@))
        } else {
            views(old(seeds)@)
        },
{
    let text = string_of(line, 0, line.len());
    assert(line@.subrange(0, line@.len() as int) =~= line@);
    let t = trim_text(text.as_str());
    if is_seed_text(t.as_str()) {
        let ghost before = seeds@;
        seeds.push(t);
        assert(views(seeds@) =~= views(before).push(trimmed(line@)));
    }
}

/// Loader for crawling the sites of a list of URLs in parallel.
pub struct Loader {
    config: SpiderConfig,
    max_concurrent_sites: usize,
    url_file_path: String,
}

impl Default for Loader {
    fn default() -> (r: Self)
        ensures
            is_default_with(
                r.spec_config(),
                defaults::MAX_DEPTH,
                defaults::MAX_LOOPS,
                defaults::MAX_CONCURRENT,
            ),
            r.spec_max_concurrent_sites() == defaults::MAX_CONCURRENT_SITES,
            r.spec_url_file_path() == "input/urls.txt"@,
    {
        Loader {
            config: SpiderConfig::default(),
            max_concurrent_sites: defaults::MAX_CONCURRENT_SITES,
            url_file_path: String::from_str("input/urls.txt"),
        }
    }
}

impl Loader {
    /// The configuration of each crawl.
    pub closed spec fn spec_config(&self) -> SpiderConfig {
        self.config
    }

    /// How many sites are crawled at once.
    pub closed spec fn spec_max_concurrent_sites(&self) -> usize {
        self.max_concurrent_sites
    }

    /// The file that lists the seed URLs.
    pub closed spec fn spec_url_file_path(&self) -> Seq<char> {
        self.url_file_path@
    }

    /// Create a loader with custom configuration.
    pub fn new(config: SpiderConfig, max_concurrent_sites: usize, url_file_path: &str) -> (r: Self)
        ensures
            r.spec_config() == config,
            r.spec_max_concurrent_sites() == max_concurrent_sites,
            r.spec_url_file_path() == url_file_path@,
    {
        Loader { config, max_concurrent_sites, url_file_path: String::from_str(url_file_path) }
    }

    /// The configuration of each crawl.
    pub fn config(&self) -> (r: &SpiderConfig)
        ensures
            *r == self.spec_config(),
    {
        &self.config
    }

    /// How many sites are crawled at once.
    pub fn max_concurrent_sites(&self) -> (r: usize)
        ensures
            r == self.spec_max_concurrent_sites(),
    {
        self.max_concurrent_sites
    }

    /// The file that lists the seed URLs.
    pub fn url_file_path(&self) -> (r: &str)
        ensures
            r@ == self.spec_url_file_path(),
    {
        self.url_file_path.as_str()
    }

    /// The seed URLs listed in the text of a URL file: each line trimmed,
    /// without blank lines and lines that start with `#`, in order.
    pub fn urls_from_text(text: &str) -> (r: Vec<String>)
        ensures
            views(r@) == seeds_of(split_lines(text@)),
    {
        let v = chars_of(text);
        let mut seeds: Vec<String> = Vec::new();
        let mut cur: Vec<char> = Vec::new();
        let mut i: usize = 0;
        while i < v.len()
            invariant
                i <= v.len(),
                v@ == text@,
                split_lines(v@.take(i as int)).len() >= 1,
                cur@ == split_lines(v@.take(i as int)).last(),
                views(seeds@) == seeds_of(split_lines(v@.take(i as int)).drop_last()),
            decreases v.len() - i,
        {
            let ghost lines = split_lines(v@.take(i as int));
            assert(v@.take(i + 1).drop_last() =~= v@.take(i as int));
            assert(v@.take(i + 1).last() == v@[i as int]);
            if v[i] == '\n' {
                take_line(&mut seeds, &cur);
                assert(lines.push(Seq::empty()).drop_last() =~= lines);
                assert(lines =~= lines.drop_last().push(lines.last()));
                cur = Vec::new();
                assert(cur@ =~= Seq::<char>::empty());
            } else {
                let ghost next = lines.update(lines.len() - 1, lines.last().push(v@[i as int]));
                assert(next.drop_last() =~= lines.drop_last());
                cur.push(v[i]);
            }
            i = i + 1;
        }
        let ghost lines = split_lines(v@.take(i as int));
        assert(v@.take(i as int) =~= v@);
        assert(lines =~= lines.drop_last().push(lines.last()));
        take_line(&mut seeds, &cur);
        seeds
    }
}

} // verus!
