//! The URL classifier: domain extraction and matching, reference
//! resolution, skip and priority patterns, crawler-trap detection and the
//! name of a crawl's report file.
use vstd::prelude::*;
use crate::error::SpiderError;
use crate::text::{
    chars_of, contains, has_infix, has_prefix, has_suffix, is_prefix, is_suffix, replace_all,
    replaced, string_of, views,
};

verus! {

broadcast use vstd::seq_lib::group_seq_properties;

/// What `url::Url::parse` makes of a text, as plain values: nothing where it
/// refuses the text; else the URL's serialization, its scheme and its host.
pub uninterp spec fn url_parse(s: Seq<char>) -> Option<(Seq<char>, Seq<char>, Option<Seq<char>>)>;

/// What `url::Url::join` makes of `reference` against the URL that
/// `url::Url::parse` reads from `base`: nothing where either refuses.
pub uninterp spec fn url_join(base: Seq<char>, reference: Seq<char>) -> Option<Seq<char>>;

/// The text before and after the first run of digits of `s`, as the captures
/// 1 and 3 of the regular expression `(.*?)(\d+)(.*)`; nothing where it does
/// not match.
pub uninterp spec fn digit_run_split(s: Seq<char>) -> Option<(Seq<char>, Seq<char>)>;

/// The parts of a parsed URL that the crawler reads.
pub struct UrlParts {
    pub serialization: String,
    pub scheme: String,
    pub host: Option<String>,
}

/// The view of an optional string.
pub open spec fn opt_view(o: Option<String>) -> Option<Seq<char>> {
    match o {
        Some(s) => Some(s@),
        None => None,
    }
}

impl View for UrlParts {
    type V = (Seq<char>, Seq<char>, Option<Seq<char>>);

    open spec fn view(&self) -> Self::V {
        (self.serialization@, self.scheme@, opt_view(self.host))
    }
}

/// Relies on `url::Url::parse`, and on `Url::as_str`, `Url::scheme` and
/// `Url::host_str` to read the URL it makes; the outcome depends on the text
/// alone.
#[verifier::external_body]
pub(crate) fn parse_url(s: &str) -> (r: Result<UrlParts, url::ParseError>)
    ensures
        match r {
            Ok(p) => url_parse(s@) == Some(p@),
            Err(_) => url_parse(s@) is None,
        },
{
    match url::Url::parse(s) {
        Ok(u) => Ok(
            UrlParts {
                serialization: u.as_str().to_string(),
                scheme: u.scheme().to_string(),
                host: u.host_str().map(|h| h.to_string()),
            },
        ),
        Err(e) => Err(e),
    }
}

/// Relies on `url::Url::parse` for `base` and on `url::Url::join` for the
/// reference; the outcome depends on the two texts alone.
#[verifier::external_body]
fn join_url(base: &str, reference: &str) -> (r: Result<String, url::ParseError>)
    ensures
        match r {
            Ok(t) => url_join(base@, reference@) == Some(t@),
            Err(_) => url_join(base@, reference@) is None,
        },
{
    match url::Url::parse(base) {
        Ok(b) => match b.join(reference) {
            Ok(u) => Ok(u.as_str().to_string()),
            Err(e) => Err(e),
        },
        Err(e) => Err(e),
    }
}

/// Relies on `regex::Regex::new` and `Regex::captures`: the captures 1 and 3
/// of `(.*?)(\d+)(.*)` on `s`, which always take part in a match.
#[verifier::external_body]
fn split_at_digit_run(s: &str) -> (r: Option<(String, String)>)
    ensures
        match r {
            Some(parts) => digit_run_split(s@) == Some((parts.0@, parts.1@)),
            None => digit_run_split(s@) is None,
        },
{
    let re = regex::Regex::new(r"(.*?)(\d+)(.*)").unwrap();
    match re.captures(s) {
        Some(c) => Some((c[1].to_string(), c[3].to_string())),
        None => None,
    }
}

/// `www.`
pub open spec fn www() -> Seq<char> {
    seq!['w', 'w', 'w', '.']
}

/// A host without one leading `www.`.
pub open spec fn strip_www(h: Seq<char>) -> Seq<char> {
    if is_prefix(www(), h) {
        h.subrange(4, h.len() as int)
    } else {
        h
    }
}

/// The host of the URL that a text parses to, if it parses and has one.
pub open spec fn host_of(s: Seq<char>) -> Option<Seq<char>> {
    match url_parse(s) {
        Some(p) => p.2,
        None => None,
    }
}

/// A host (with `www.` stripped) that equals the base domain or lies below it.
pub open spec fn in_domain(host: Seq<char>, base_domain: Seq<char>) -> bool {
    let h = strip_www(host);
    h == base_domain || is_suffix(seq!['.'] + base_domain, h)
}

/// Some pattern occurs in the URL.
pub open spec fn any_contained(url: Seq<char>, patterns: Seq<Seq<char>>) -> bool {
    exists|i: int| 0 <= i < patterns.len() && contains(url, #[trigger] patterns[i])
}

/// Some pattern is a prefix of the host with `www.` stripped.
pub open spec fn any_host_prefix(host: Seq<char>, patterns: Seq<Seq<char>>) -> bool {
    exists|i: int| 0 <= i < patterns.len() && is_prefix(#[trigger] patterns[i], strip_www(host))
}

/// The error that a failed host lookup of `s` gives: `UrlParse` where the
/// text does not parse, else `InvalidUrl` (no host).
pub open spec fn host_error(s: Seq<char>, e: SpiderError) -> bool {
    if url_parse(s) is None {
        e is UrlParse
    } else {
        e is InvalidUrl
    }
}

/// The host of `url_str`, or the error for a text that does not parse or
/// has no host.
fn host_or_error(url_str: &str) -> (r: Result<String, SpiderError>)
    ensures
        match r {
            Ok(h) => host_of(url_str@) == Some(h@),
            Err(e) => host_of(url_str@) is None && host_error(url_str@, e),
        },
{
    match parse_url(url_str) {
        Err(e) => Err(SpiderError::UrlParse(e)),
        Ok(parts) => match parts.host {
            Some(h) => Ok(h),
            None => {
                let mut msg = String::from_str("No host in URL: ");
                msg.append(url_str);
                Err(SpiderError::InvalidUrl(msg))
            },
        },
    }
}

/// `h` without one leading `www.`.
pub fn strip_www_exec(h: &str) -> (r: String)
    ensures
        r@ == strip_www(h@),
{
    let hv = chars_of(h);
    let w = chars_of("www.");
    proof {
        reveal_strlit("www.");
        assert(w@ =~= www());
    }
    if has_prefix(&hv, &w) {
        string_of(&hv, 4, hv.len())
    } else {
        string_of(&hv, 0, hv.len())
    }
}

/// Extract the base domain from a URL: its host, without a leading `www.`.
/// Other subdomains stay.
pub fn extract_base_domain(url_str: &str) -> (r: Result<String, SpiderError>)
    ensures
        match r {
            Ok(d) => host_of(url_str@) is Some && d@ == strip_www(host_of(url_str@)->Some_0),
            Err(e) => host_of(url_str@) is None && host_error(url_str@, e),
        },
{
    let host = host_or_error(url_str)?;
    Ok(strip_www_exec(host.as_str()))
}

/// Whether a host, without a leading `www.`, is the base domain or a
/// subdomain of it.
pub fn host_in_domain(host: &str, base_domain: &str) -> (r: bool)
    ensures
        r == in_domain(host@, base_domain@),
{
    let normalized = chars_of(strip_www_exec(host).as_str());
    let base = chars_of(base_domain);
    if normalized.len() == base.len() && has_prefix(&normalized, &base) {
        assert(normalized@ =~= base@) by {
            assert(normalized@.subrange(0, base@.len() as int) =~= normalized@);
        }
        return true;
    }
    let mut dotted = chars_of(".");
    proof {
        reveal_strlit(".");
    }
    let mut base_copy = chars_of(base_domain);
    dotted.append(&mut base_copy);
    assert(dotted@ =~= seq!['.'] + base_domain@);
    let below = has_suffix(&normalized, &dotted);
    proof {
        if normalized@ == base@ {
            assert(normalized@.subrange(0, base@.len() as int) =~= normalized@);
        }
    }
    below
}

/// Whether the URL's host, without a leading `www.`, is the base domain or a
/// subdomain of it.
pub fn is_same_domain(url_str: &str, base_domain: &str) -> (r: Result<bool, SpiderError>)
    ensures
        match r {
            Ok(b) => host_of(url_str@) is Some && b == in_domain(
                host_of(url_str@)->Some_0,
                base_domain@,
            ),
            Err(e) => host_of(url_str@) is None && host_error(url_str@, e),
        },
{
    let host = host_or_error(url_str)?;
    Ok(host_in_domain(host.as_str(), base_domain))
}

/// The serialization of the URL that the text parses to.
pub fn normalize_url(url_str: &str) -> (r: Result<String, SpiderError>)
    ensures
        match r {
            Ok(t) => url_parse(url_str@) is Some && t@ == url_parse(url_str@)->Some_0.0,
            Err(e) => url_parse(url_str@) is None && e is UrlParse,
        },
{
    match parse_url(url_str) {
        Ok(parts) => Ok(parts.serialization),
        Err(e) => Err(SpiderError::UrlParse(e)),
    }
}

/// Resolve a reference against a base URL.
pub fn resolve_url(base_url: &str, relative_url: &str) -> (r: Result<String, SpiderError>)
    ensures
        match r {
            Ok(t) => url_join(base_url@, relative_url@) == Some(t@),
            Err(e) => url_join(base_url@, relative_url@) is None && e is UrlParse,
        },
{
    match join_url(base_url, relative_url) {
        Ok(t) => Ok(t),
        Err(e) => Err(SpiderError::UrlParse(e)),
    }
}

/// Whether any of the patterns occurs in the text.
fn any_pattern_in(s: &Vec<char>, patterns: &[String]) -> (r: bool)
    ensures
        r == any_contained(s@, views(patterns@)),
{
    let mut i: usize = 0;
    while i < patterns.len()
        invariant
            i <= patterns.len(),
            forall|j: int| 0 <= j < i ==> !contains(s@, #[trigger] views(patterns@)[j]),
        decreases patterns.len() - i,
    {
        let p = chars_of(patterns[i].as_str());
        if has_infix(s, &p) {
            assert(contains(s@, views(patterns@)[i as int]));
            return true;
        }
        i = i + 1;
    }
    false
}

/// Whether any of the skip patterns occurs in the URL.
pub fn should_skip_url(url: &str, skip_patterns: &[String]) -> (r: bool)
    ensures
        r == any_contained(url@, views(skip_patterns@)),
{
    any_pattern_in(&chars_of(url), skip_patterns)
}

/// Whether a host, without a leading `www.`, starts with any of the
/// subdomain patterns.
pub fn host_has_skipped_prefix(host: &str, skip_subdomain_patterns: &[String]) -> (r: bool)
    ensures
        r == any_host_prefix(host@, views(skip_subdomain_patterns@)),
{
    let normalized = chars_of(strip_www_exec(host).as_str());
    let mut i: usize = 0;
    while i < skip_subdomain_patterns.len()
        invariant
            i <= skip_subdomain_patterns.len(),
            normalized@ == strip_www(host@),
            forall|j: int|
                0 <= j < i ==> !is_prefix(
                    #[trigger] views(skip_subdomain_patterns@)[j],
                    normalized@,
                ),
        decreases skip_subdomain_patterns.len() - i,
    {
        let p = chars_of(skip_subdomain_patterns[i].as_str());
        if has_prefix(&normalized, &p) {
            assert(is_prefix(views(skip_subdomain_patterns@)[i as int], normalized@));
            return true;
        }
        i = i + 1;
    }
    false
}

/// Whether the URL's host, without a leading `www.`, starts with any of the
/// subdomain patterns.
pub fn should_skip_subdomain(url_str: &str, skip_subdomain_patterns: &[String]) -> (r: Result<
    bool,
    SpiderError,
>)
    ensures
        match r {
            Ok(b) => host_of(url_str@) is Some && b == any_host_prefix(
                host_of(url_str@)->Some_0,
                views(skip_subdomain_patterns@),
            ),
            Err(e) => host_of(url_str@) is None && host_error(url_str@, e),
        },
{
    let host = host_or_error(url_str)?;
    Ok(host_has_skipped_prefix(host.as_str(), skip_subdomain_patterns))
}

/// Whether any of the priority paths occurs in the URL.
pub fn is_priority_url(url: &str, priority_paths: &[String]) -> (r: bool)
    ensures
        r == any_contained(url@, views(priority_paths@)),
{
    any_pattern_in(&chars_of(url), priority_paths)
}

/// The trap key of a URL: the text around its first run of digits, with the
/// run replaced by `*`.
pub open spec fn trap_key(url: Seq<char>) -> Option<Seq<char>> {
    match digit_run_split(url) {
        Some(parts) => Some(parts.0 + seq!['*'] + parts.1),
        None => None,
    }
}

/// The trap keys of the URLs.
pub open spec fn trap_keys(urls: Seq<Seq<char>>) -> Seq<Option<Seq<char>>> {
    urls.map_values(|u: Seq<char>| trap_key(u))
}

/// How many of the keys are `k`.
pub open spec fn key_count(keys: Seq<Option<Seq<char>>>, k: Seq<char>) -> nat
    decreases keys.len(),
{
    if keys.len() == 0 {
        0
    } else {
        key_count(keys.drop_last(), k) + if keys.last() == Some(k) {
            1nat
        } else {
            0nat
        }
    }
}

/// Whether some key is held at least `threshold` times (and at least once)
/// by a list of at least `threshold` keys.
pub open spec fn trap_found(keys: Seq<Option<Seq<char>>>, threshold: nat) -> bool {
    keys.len() >= threshold && exists|k: Seq<char>|
        #[trigger] key_count(keys, k) >= threshold && key_count(keys, k) >= 1
}

/// `r` is a valid outcome of trap detection over the keys: a key of greatest
/// count that reaches the threshold, or nothing where no key does (or the
/// list is shorter than the threshold).
pub open spec fn trap_outcome(keys: Seq<Option<Seq<char>>>, threshold: nat, r: Option<Seq<char>>) -> bool {
    match r {
        Some(p) => {
            &&& trap_found(keys, threshold)
            &&& key_count(keys, p) >= threshold
            &&& key_count(keys, p) >= 1
            &&& forall|k: Seq<char>| #[trigger] key_count(keys, k) <= key_count(keys, p)
        },
        None => !trap_found(keys, threshold),
    }
}

/// Whether trap detection finds a pattern is a function of the URLs and the
/// threshold: two outcomes for the same input agree on it, whichever key wins
/// a tie.
pub proof fn lemma_trap_detection_deterministic(
    urls: Seq<Seq<char>>,
    threshold: nat,
    r1: Option<Seq<char>>,
    r2: Option<Seq<char>>,
)
    requires
        trap_outcome(trap_keys(urls), threshold, r1),
        trap_outcome(trap_keys(urls), threshold, r2),
    ensures
        r1 is Some <==> r2 is Some,
{
}

/// Where two runs over the same input both find a pattern, the two patterns
/// are held by as many URLs: only ties leave the winner open.
pub proof fn lemma_trap_winner_count(
    urls: Seq<Seq<char>>,
    threshold: nat,
    first: Seq<char>,
    second: Seq<char>,
)
    requires
        trap_outcome(trap_keys(urls), threshold, Some(first)),
        trap_outcome(trap_keys(urls), threshold, Some(second)),
    ensures
        key_count(trap_keys(urls), first) == key_count(trap_keys(urls), second),
{
    assert(key_count(trap_keys(urls), first) <= key_count(trap_keys(urls), second));
    assert(key_count(trap_keys(urls), second) <= key_count(trap_keys(urls), first));
}

/// The trap key of a URL, as a string.
fn trap_key_exec(url: &str) -> (r: Option<String>)
    ensures
        opt_view(r) == trap_key(url@),
{
    match split_at_digit_run(url) {
        Some(parts) => {
            let (prefix, suffix) = parts;
            let mut k = prefix;
            k.append("*");
            k.append(suffix.as_str());
            proof {
                reveal_strlit("*");
                assert(k@ =~= parts.0@ + seq!['*'] + parts.1@);
            }
            Some(k)
        },
        None => None,
    }
}

/// The views of a list of optional strings.
pub open spec fn opt_views(v: Seq<Option<String>>) -> Seq<Option<Seq<char>>> {
    v.map_values(|o: Option<String>| opt_view(o))
}

/// The trap pattern among the trap keys of a list of URLs (nothing for a URL
/// without digits): where the list holds at least `threshold` keys, the key
/// held most often, provided it is held at least `threshold` times (and at
/// least once). Among keys of equal count the first one met wins.
pub fn pick_trap_pattern(keys: &Vec<Option<String>>, threshold: usize) -> (r: Option<String>)
    ensures
        trap_outcome(opt_views(keys@), threshold as nat, opt_view(r)),
        keys@.len() < threshold ==> r is None,
{
    let ghost us = opt_views(keys@);
    if keys.len() < threshold {
        return None;
    }
    let mut seen: Vec<String> = Vec::new();
    let mut counts: Vec<usize> = Vec::new();
    let mut i: usize = 0;
    while i < keys.len()
        invariant
            i <= keys.len(),
            us == opt_views(keys@),
            seen.len() == counts.len(),
            forall|a: int, b: int| 0 <= a < b < seen.len() ==> seen@[a]@ != seen@[b]@,
            forall|j: int|
                0 <= j < seen.len() ==> #[trigger] counts@[j] == key_count(
                    us.take(i as int),
                    seen@[j]@,
                ),
            forall|j: int| 0 <= j < seen.len() ==> #[trigger] counts@[j] <= i,
            forall|k: Seq<char>|
                (forall|j: int| 0 <= j < seen.len() ==> seen@[j]@ != k) ==> #[trigger] key_count(
                    us.take(i as int),
                    k,
                ) == 0,
        decreases keys.len() - i,
    {
        let ghost seen0 = seen@;
        let ghost before = us.take(i as int);
        let ghost after = us.take(i + 1);
        assert(after.drop_last() =~= before);
        assert(after.last() == opt_view(keys@[i as int]));
        match &keys[i] {
            Some(k) => {
                let mut j: usize = 0;
                while j < seen.len() && !(seen[j] == *k)
                    invariant
                        j <= seen.len(),
                        forall|a: int| 0 <= a < j ==> seen@[a]@ != k@,
                    decreases seen.len() - j,
                {
                    j = j + 1;
                }
                let ghost mut kpos: int = j as int;
                if j < seen.len() {
                    assert(seen@[j as int]@ == k@);
                    let c = counts[j];
                    counts.set(j, c + 1);
                } else {
                    let ghost old_seen = seen@;
                    seen.push(k.clone());
                    counts.push(1);
                    proof {
                        kpos = seen.len() - 1;
                    }
                    assert forall|a: int, b: int| 0 <= a < b < seen.len() implies seen@[a]@
                        != seen@[b]@ by {
                        if b == seen.len() - 1 {
                            assert(seen@[a] == old_seen[a]);
                        }
                    }
                }
                assert forall|j2: int| 0 <= j2 < seen.len() implies #[trigger] counts@[j2]
                    == key_count(after, seen@[j2]@) by {
                    assert(key_count(after, seen@[j2]@) == key_count(before, seen@[j2]@) + if Some(
                        k@,
                    ) == Some(seen@[j2]@) {
                        1nat
                    } else {
                        0nat
                    });
                }
                assert forall|k2: Seq<char>|
                    (forall|j2: int| 0 <= j2 < seen.len() ==> seen@[j2]@ != k2) implies #[trigger] key_count(
                    after,
                    k2,
                ) == 0 by {
                    assert(key_count(after, k2) == key_count(before, k2) + if Some(k@) == Some(
                        k2,
                    ) {
                        1nat
                    } else {
                        0nat
                    });
                    assert(seen@[kpos]@ == k@);
                    assert forall|j2: int| 0 <= j2 < seen0.len() implies seen0[j2]@ != k2 by {
                        assert(seen0[j2] == seen@[j2]);
                    }
                }
            },
            None => {
                assert forall|j2: int| 0 <= j2 < seen.len() implies #[trigger] counts@[j2]
                    == key_count(after, seen@[j2]@) by {
                    assert(key_count(after, seen@[j2]@) == key_count(before, seen@[j2]@));
                }
                assert forall|k2: Seq<char>|
                    (forall|j2: int| 0 <= j2 < seen.len() ==> seen@[j2]@ != k2) implies #[trigger] key_count(
                    after,
                    k2,
                ) == 0 by {
                    assert(key_count(after, k2) == key_count(before, k2));
                }
            },
        }
        i = i + 1;
    }
    assert(us.take(keys.len() as int) =~= us);
    let mut best: usize = 0;
    let mut best_count: usize = 0;
    let mut has_best = false;
    let mut j: usize = 0;
    while j < seen.len()
        invariant
            j <= seen.len(),
            seen.len() == counts.len(),
            has_best ==> best < j && counts@[best as int] == best_count && best_count >= threshold
                && best_count >= 1,
            forall|a: int|
                0 <= a < j && #[trigger] counts@[a] >= threshold && counts@[a] >= 1 ==> has_best
                    && counts@[a] <= best_count,
        decreases seen.len() - j,
    {
        if counts[j] >= threshold && counts[j] >= 1 && (!has_best || counts[j] > best_count) {
            best = j;
            best_count = counts[j];
            has_best = true;
        }
        j = j + 1;
    }
    if has_best {
        let p = seen[best].clone();
        assert(key_count(us, p@) >= threshold);
        assert forall|k: Seq<char>| #[trigger] key_count(us, k) <= key_count(us, p@) by {
            if exists|a: int| 0 <= a < seen.len() && seen@[a]@ == k {
                let a = choose|a: int| 0 <= a < seen.len() && seen@[a]@ == k;
                assert(counts@[a] == key_count(us, k));
            }
        }
        Some(p)
    } else {
        assert forall|k: Seq<char>| !(#[trigger] key_count(us, k) >= threshold && key_count(us, k)
            >= 1) by {
            if exists|a: int| 0 <= a < seen.len() && seen@[a]@ == k {
                let a = choose|a: int| 0 <= a < seen.len() && seen@[a]@ == k;
                assert(counts@[a] == key_count(us, k));
            }
        }
        None
    }
}

/// Detect a crawler trap in a list of URLs: the trap pattern among their
/// trap keys (the text around the first run of digits, with the run as
/// `*`), as `pick_trap_pattern` chooses it.
pub fn detect_massive_links_pattern(urls: &[String], threshold: usize) -> (r: Option<String>)
    ensures
        trap_outcome(trap_keys(views(urls@)), threshold as nat, opt_view(r)),
        urls@.len() < threshold ==> r is None,
{
    if urls.len() < threshold {
        return None;
    }
    let mut keys: Vec<Option<String>> = Vec::new();
    let mut i: usize = 0;
    while i < urls.len()
        invariant
            i <= urls.len(),
            opt_views(keys@) == trap_keys(views(urls@)).take(i as int),
        decreases urls.len() - i,
    {
        let k = trap_key_exec(urls[i].as_str());
        let ghost kb = keys@;
        keys.push(k);
        assert(opt_views(keys@) =~= opt_views(kb).push(opt_view(k)));
        assert(trap_keys(views(urls@)).take(i + 1) =~= trap_keys(views(urls@)).take(i as int).push(
            opt_view(k),
        ));
        i = i + 1;
    }
    assert(trap_keys(views(urls@)).take(i as int) =~= trap_keys(views(urls@)));
    pick_trap_pattern(&keys, threshold)
}

/// The pattern holds exactly one `*`, at position `i`.
pub open spec fn single_star_at(pattern: Seq<char>, i: int) -> bool {
    &&& 0 <= i < pattern.len()
    &&& pattern[i] == '*'
    &&& forall|j: int| 0 <= j < pattern.len() && j != i ==> pattern[j] != '*'
}

/// The URL fits a trap pattern `prefix*suffix`: the pattern holds exactly
/// one `*`, and the URL starts with the text before it and ends with the
/// text after it.
pub open spec fn matches_trap(url: Seq<char>, pattern: Seq<char>) -> bool {
    exists|i: int|
        #[trigger] single_star_at(pattern, i) && is_prefix(pattern.take(i), url) && is_suffix(
            pattern.skip(i + 1),
            url,
        )
}

/// The characters `v[lo..hi]`.
fn sub_chars(v: &Vec<char>, lo: usize, hi: usize) -> (r: Vec<char>)
    requires
        lo <= hi <= v.len(),
    ensures
        r@ == v@.subrange(lo as int, hi as int),
{
    let mut r: Vec<char> = Vec::new();
    let mut i = lo;
    while i < hi
        invariant
            lo <= i <= hi <= v.len(),
            r@ == v@.subrange(lo as int, i as int),
        decreases hi - i,
    {
        r.push(v[i]);
        assert(r@ =~= v@.subrange(lo as int, i + 1));
        i = i + 1;
    }
    r
}

/// Whether the URL fits the trap pattern `prefix*suffix`.
pub fn matches_trap_pattern(url: &str, pattern: &str) -> (r: bool)
    ensures
        r == matches_trap(url@, pattern@),
{
    let pv = chars_of(pattern);
    let mut i: usize = 0;
    while i < pv.len() && pv[i] != '*'
        invariant
            i <= pv.len(),
            forall|a: int| 0 <= a < i ==> pv@[a] != '*',
        decreases pv.len() - i,
    {
        i = i + 1;
    }
    if i == pv.len() {
        assert forall|a: int| !single_star_at(pattern@, a) by {
            if 0 <= a < pv@.len() {
                assert(pv@[a] != '*');
            }
        }
        return false;
    }
    let mut j: usize = i + 1;
    while j < pv.len() && pv[j] != '*'
        invariant
            i < j <= pv.len(),
            pv@[i as int] == '*',
            forall|a: int| 0 <= a < i ==> pv@[a] != '*',
            forall|a: int| i < a < j ==> pv@[a] != '*',
        decreases pv.len() - j,
    {
        j = j + 1;
    }
    if j < pv.len() {
        assert forall|a: int| !single_star_at(pattern@, a) by {
            if single_star_at(pattern@, a) {
                if a != i as int {
                    assert(pv@[i as int] == '*');
                } else {
                    assert(pv@[j as int] == '*');
                }
            }
        }
        return false;
    }
    assert(single_star_at(pattern@, i as int));
    let prefix = sub_chars(&pv, 0, i);
    let suffix = sub_chars(&pv, i + 1, pv.len());
    assert(prefix@ =~= pattern@.take(i as int));
    assert(suffix@ =~= pattern@.skip(i + 1));
    let uv = chars_of(url);
    let r = has_prefix(&uv, &prefix) && has_suffix(&uv, &suffix);
    assert forall|a: int| #[trigger] single_star_at(pattern@, a) implies a == i by {
        if a != i {
            assert(pv@[i as int] == '*');
        }
    }
    r
}

/// The report file of a crawl of `domain`: under `output/crawler/`, the
/// domain with `.` and `:` as `_`, and `.json`.
pub open spec fn report_file_name(domain: Seq<char>) -> Seq<char> {
    "output/crawler/"@ + replaced(replaced(domain, "."@, "_"@), ":"@, "_"@) + ".json"@
}

/// The file that holds the report of a crawl of `domain`.
pub fn domain_to_filename(domain: &str) -> (r: String)
    ensures
        r@ == report_file_name(domain@),
{
    proof {
        reveal_strlit(".");
        reveal_strlit(":");
    }
    let dots = replace_all(domain, ".", "_");
    let both = replace_all(dots.as_str(), ":", "_");
    let mut r = String::from_str("output/crawler/");
    r.append(both.as_str());
    r.append(".json");
    r
}

} // verus!
