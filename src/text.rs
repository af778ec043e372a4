//! Character-level string operations with their specifications.
//!
//! Strings are reasoned about through their view, a `Seq<char>`; the
//! executable functions here work on `Vec<char>` copies for constant-time
//! indexing and rebuild `String`s one character at a time.
use vstd::prelude::*;

verus! {

broadcast use vstd::seq_lib::group_seq_properties;

/// `p` is a prefix of `s`.
pub open spec fn is_prefix(p: Seq<char>, s: Seq<char>) -> bool {
    p.len() <= s.len() && s.subrange(0, p.len() as int) == p
}

/// `p` is a suffix of `s`.
pub open spec fn is_suffix(p: Seq<char>, s: Seq<char>) -> bool {
    p.len() <= s.len() && s.subrange(s.len() - p.len(), s.len() as int) == p
}

/// `p` occurs in `s` starting at position `i`.
pub open spec fn occurs_at(s: Seq<char>, p: Seq<char>, i: int) -> bool {
    0 <= i && i + p.len() <= s.len() && s.subrange(i, i + p.len()) == p
}

/// `p` occurs somewhere in `s` as a contiguous piece.
pub open spec fn contains(s: Seq<char>, p: Seq<char>) -> bool {
    exists|i: int| occurs_at(s, p, i)
}

/// `s` with every non-overlapping occurrence of `pat`, scanned from the left,
/// replaced by `rep`.
pub open spec fn replaced(s: Seq<char>, pat: Seq<char>, rep: Seq<char>) -> Seq<char>
    decreases s.len(),
{
    if s.len() == 0 || pat.len() == 0 {
        s
    } else if is_prefix(pat, s) {
        rep + replaced(s.subrange(pat.len() as int, s.len() as int), pat, rep)
    } else {
        seq![s[0]] + replaced(s.drop_first(), pat, rep)
    }
}

/// Lexicographic order on character sequences by code point, which is the
/// order of `str`'s `Ord` (UTF-8 keeps code point order bytewise).
pub open spec fn lex_lt(a: Seq<char>, b: Seq<char>) -> bool
    decreases a.len(),
{
    if b.len() == 0 {
        false
    } else if a.len() == 0 {
        true
    } else if a[0] != b[0] {
        (a[0] as int) < (b[0] as int)
    } else {
        lex_lt(a.drop_first(), b.drop_first())
    }
}

/// The views of a sequence of strings.
pub open spec fn views(v: Seq<String>) -> Seq<Seq<char>> {
    v.map_values(|s: String| s@)
}

/// No sequence is below itself.
pub proof fn lemma_lex_irreflexive(a: Seq<char>)
    ensures
        !lex_lt(a, a),
    decreases a.len(),
{
    if a.len() > 0 {
        lemma_lex_irreflexive(a.drop_first());
    }
}

/// The order is transitive.
pub proof fn lemma_lex_transitive(a: Seq<char>, b: Seq<char>, c: Seq<char>)
    requires
        lex_lt(a, b),
        lex_lt(b, c),
    ensures
        lex_lt(a, c),
    decreases a.len(),
{
    if a.len() > 0 && b.len() > 0 && c.len() > 0 && a[0] == b[0] && b[0] == c[0] {
        lemma_lex_transitive(a.drop_first(), b.drop_first(), c.drop_first());
    }
}

/// Two different sequences are ordered one way or the other.
pub proof fn lemma_lex_total(a: Seq<char>, b: Seq<char>)
    requires
        a != b,
    ensures
        lex_lt(a, b) || lex_lt(b, a),
    decreases a.len(),
{
    if a.len() > 0 && b.len() > 0 {
        if a[0] == b[0] {
            if a.drop_first() == b.drop_first() {
                assert(a =~= seq![a[0]] + a.drop_first());
                assert(b =~= seq![b[0]] + b.drop_first());
            }
            lemma_lex_total(a.drop_first(), b.drop_first());
        } else {
            assert((a[0] as int) != (b[0] as int));
        }
    } else if a.len() == 0 && b.len() == 0 {
        assert(a =~= b);
    }
}

/// Relies on `String::push`: the character is appended at the end.
#[verifier::external_body]
fn push_char(s: &mut String, c: char)
    ensures
        final(s)@ == old(s)@.push(c),
{
    s.push(c);
}

/// The characters of a string slice, in order.
pub fn chars_of(s: &str) -> (v: Vec<char>)
    ensures
        v@ == s@,
{
    let mut v: Vec<char> = Vec::new();
    for c in it: s.chars()
        invariant
            v@ == it.seq().take(it.index() as int),
            it.seq() == s@,
    {
        v.push(c);
    }
    v
}

/// The string made of the characters `v[lo..hi]`.
pub fn string_of(v: &Vec<char>, lo: usize, hi: usize) -> (r: String)
    requires
        lo <= hi <= v.len(),
    ensures
        r@ == v@.subrange(lo as int, hi as int),
{
    let mut r = String::new();
    let mut i = lo;
    while i < hi
        invariant
            lo <= i <= hi <= v.len(),
            r@ == v@.subrange(lo as int, i as int),
        decreases hi - i,
    {
        push_char(&mut r, v[i]);
        assert(v@.subrange(lo as int, i + 1) =~= v@.subrange(lo as int, i as int).push(v@[i as int]));
        i = i + 1;
    }
    r
}

/// Whether `p` occurs in `s` at position `i`.
pub fn occurs_at_exec(s: &Vec<char>, p: &Vec<char>, i: usize) -> (r: bool)
    requires
        i <= s.len(),
    ensures
        r == occurs_at(s@, p@, i as int),
{
    if p.len() > s.len() - i {
        return false;
    }
    let mut k: usize = 0;
    while k < p.len()
        invariant
            k <= p.len(),
            i + p.len() <= s.len(),
            forall|j: int| 0 <= j < k ==> s@[i + j] == p@[j],
        decreases p.len() - k,
    {
        if s[i + k] != p[k] {
            assert(s@.subrange(i as int, i + p.len())[k as int] != p@[k as int]);
            return false;
        }
        k = k + 1;
    }
    assert(s@.subrange(i as int, i + p.len()) =~= p@);
    true
}

/// Whether `p` is a prefix of `s`.
pub fn has_prefix(s: &Vec<char>, p: &Vec<char>) -> (r: bool)
    ensures
        r == is_prefix(p@, s@),
{
    occurs_at_exec(s, p, 0)
}

/// Whether `p` is a suffix of `s`.
pub fn has_suffix(s: &Vec<char>, p: &Vec<char>) -> (r: bool)
    ensures
        r == is_suffix(p@, s@),
{
    if p.len() > s.len() {
        return false;
    }
    occurs_at_exec(s, p, s.len() - p.len())
}

/// Whether `p` occurs somewhere in `s`.
pub fn has_infix(s: &Vec<char>, p: &Vec<char>) -> (r: bool)
    ensures
        r == contains(s@, p@),
{
    if p.len() > s.len() {
        return false;
    }
    let last = s.len() - p.len();
    let mut i: usize = 0;
    loop
        invariant
            i <= last,
            last + p.len() == s.len(),
            forall|j: int| 0 <= j < i ==> !occurs_at(s@, p@, j),
        decreases last - i,
    {
        if occurs_at_exec(s, p, i) {
            return true;
        }
        if i == last {
            assert forall|j: int| !occurs_at(s@, p@, j) by {
                if j > last {
                    assert(!occurs_at(s@, p@, j));
                }
            }
            return false;
        }
        i = i + 1;
    }
}

/// `s` with every occurrence of `pat` replaced by `rep`, scanning from the left.
pub fn replace_all(s: &str, pat: &str, rep: &str) -> (r: String)
    requires
        pat@.len() > 0,
    ensures
        r@ == replaced(s@, pat@, rep@),
{
    let sv = chars_of(s);
    let pv = chars_of(pat);
    let mut out = String::new();
    let mut i: usize = 0;
    while i < sv.len()
        invariant
            i <= sv.len(),
            sv@ == s@,
            pv@ == pat@,
            pat@.len() > 0,
            out@ + replaced(sv@.subrange(i as int, sv@.len() as int), pv@, rep@) == replaced(
                sv@,
                pv@,
                rep@,
            ),
        decreases sv.len() - i,
    {
        let ghost rest = sv@.subrange(i as int, sv@.len() as int);
        proof {
            if i + pv@.len() <= sv@.len() {
                assert(rest.subrange(0, pv@.len() as int) =~= sv@.subrange(
                    i as int,
                    i + pv@.len(),
                ));
            }
        }
        if occurs_at_exec(&sv, &pv, i) {
            assert(is_prefix(pv@, rest));
            assert(rest.subrange(pv@.len() as int, rest.len() as int) =~= sv@.subrange(
                i + pv@.len(),
                sv@.len() as int,
            ));
            let ghost old_out = out@;
            out.append(rep);
            assert(out@ + replaced(
                sv@.subrange(i + pv@.len(), sv@.len() as int),
                pv@,
                rep@,
            ) =~= old_out + (rep@ + replaced(
                sv@.subrange(i + pv@.len(), sv@.len() as int),
                pv@,
                rep@,
            )));
            i = i + pv.len();
        } else {
            assert(!is_prefix(pv@, rest)) by {
                if is_prefix(pv@, rest) {
                    assert(occurs_at(sv@, pv@, i as int));
                }
            }
            assert(rest.drop_first() =~= sv@.subrange(i + 1, sv@.len() as int));
            let ghost old_out = out@;
            push_char(&mut out, sv[i]);
            assert(out@ + replaced(rest.drop_first(), pv@, rep@) =~= old_out + (seq![rest[0]]
                + replaced(rest.drop_first(), pv@, rep@)));
            i = i + 1;
        }
    }
    assert(sv@.subrange(i as int, sv@.len() as int) =~= Seq::<char>::empty());
    assert(out@ =~= out@ + Seq::<char>::empty());
    out
}

/// Whether the code point of `a` is below that of `b`.
pub fn char_below(a: char, b: char) -> (r: bool)
    ensures
        r == ((a as int) < (b as int)),
{
    (a as u32) < (b as u32)
}

/// Whether `a` comes strictly before `b` in code point order.
pub fn lex_less(a: &Vec<char>, b: &Vec<char>) -> (r: bool)
    ensures
        r == lex_lt(a@, b@),
{
    let mut i: usize = 0;
    while i < a.len() && i < b.len()
        invariant
            i <= a.len(),
            i <= b.len(),
            forall|j: int| 0 <= j < i ==> a@[j] == b@[j],
            lex_lt(a@, b@) == lex_lt(a@.skip(i as int), b@.skip(i as int)),
        decreases a.len() - i,
    {
        if a[i] != b[i] {
            return char_below(a[i], b[i]);
        }
        assert(a@.skip(i as int).drop_first() =~= a@.skip(i + 1));
        assert(b@.skip(i as int).drop_first() =~= b@.skip(i + 1));
        i = i + 1;
    }
    i < b.len()
}

/// Whether `v` holds a string equal to `s`.
pub fn holds_string(v: &Vec<String>, s: &String) -> (r: bool)
    ensures
        r == views(v@).contains(s@),
{
    let mut i: usize = 0;
    while i < v.len()
        invariant
            i <= v.len(),
            forall|j: int| 0 <= j < i ==> v@[j]@ != s@,
        decreases v.len() - i,
    {
        if v[i] == *s {
            assert(views(v@)[i as int] == s@);
            return true;
        }
        i = i + 1;
    }
    assert forall|j: int| 0 <= j < views(v@).len() implies views(v@)[j] != s@ by {
        assert(v@[j]@ != s@);
    }
    false
}

/// Strictly ascending in code point order, hence without repeats.
pub open spec fn lex_sorted(s: Seq<Seq<char>>) -> bool {
    forall|i: int, j: int| 0 <= i < j < s.len() ==> lex_lt(s[i], s[j])
}

/// The views of a sequence of character vectors.
pub open spec fn char_views(s: Seq<Vec<char>>) -> Seq<Seq<char>> {
    s.map_values(|c: Vec<char>| c@)
}

/// A strictly ascending sequence has no repeats.
pub proof fn lemma_lex_sorted_distinct(s: Seq<Seq<char>>)
    requires
        lex_sorted(s),
    ensures
        s.no_duplicates(),
{
    assert forall|i: int, j: int| 0 <= i < s.len() && 0 <= j < s.len() && i != j implies s[i]
        != s[j] by {
        if i < j {
            lemma_lex_irreflexive(s[i]);
        } else {
            lemma_lex_irreflexive(s[j]);
        }
    }
}

/// What a sequence holds after an insertion.
proof fn lemma_insert_contains<A>(s: Seq<A>, j: int, x: A)
    requires
        0 <= j <= s.len(),
    ensures
        forall|a: A| #[trigger] s.insert(j, x).contains(a) <==> (s.contains(a) || a == x),
{
    s.insert_ensures(j, x);
    let t = s.insert(j, x);
    assert forall|a: A| #[trigger] t.contains(a) <==> (s.contains(a) || a == x) by {
        if t.contains(a) {
            let k = choose|k: int| 0 <= k < t.len() && t[k] == a;
            if k < j {
                assert(s[k] == a);
            } else if k > j {
                assert(s[k - 1] == a);
            }
        }
        if s.contains(a) {
            let k = choose|k: int| 0 <= k < s.len() && s[k] == a;
            if k < j {
                assert(t[k] == a);
            } else {
                assert(t[k + 1] == a);
            }
        }
        if a == x {
            assert(t[j] == a);
        }
    }
}

/// Whether two character vectors are equal.
fn same_chars(a: &Vec<char>, b: &Vec<char>) -> (r: bool)
    ensures
        r == (a@ == b@),
{
    if a.len() != b.len() {
        return false;
    }
    let r = has_prefix(a, b);
    if r {
        assert(a@.subrange(0, b@.len() as int) =~= a@);
    }
    r
}

/// The distinct strings of `v` in ascending code point order.
pub fn sorted_distinct(v: &Vec<String>) -> (r: Vec<String>)
    ensures
        lex_sorted(views(r@)),
        views(r@).to_set() == views(v@).to_set(),
        r.len() <= v.len(),
{
    let mut rc: Vec<Vec<char>> = Vec::new();
    let mut i: usize = 0;
    while i < v.len()
        invariant
            i <= v.len(),
            rc.len() <= i,
            lex_sorted(char_views(rc@)),
            char_views(rc@).to_set() == views(v@).take(i as int).to_set(),
        decreases v.len() - i,
    {
        let x = chars_of(v[i].as_str());
        assert(views(v@).take(i + 1) =~= views(v@).take(i as int).push(x@));
        proof {
            views(v@).take(i as int).lemma_push_to_set_commute(x@);
        }
        let mut j: usize = 0;
        while j < rc.len() && lex_less(&rc[j], &x)
            invariant
                j <= rc.len(),
                forall|a: int| 0 <= a < j ==> lex_lt(#[trigger] char_views(rc@)[a], x@),
            decreases rc.len() - j,
        {
            j = j + 1;
        }
        let ghost cv = char_views(rc@);
        if j < rc.len() && same_chars(&rc[j], &x) {
            assert(cv.to_set().insert(x@) =~= cv.to_set()) by {
                assert(cv[j as int] == x@);
            }
        } else {
            proof {
                if j < rc.len() {
                    assert(cv[j as int] != x@);
                    lemma_lex_total(cv[j as int], x@);
                }
            }
            rc.insert(j, x);
            assert(char_views(rc@) =~= cv.insert(j as int, x@));
            proof {
                cv.insert_ensures(j as int, x@);
                lemma_insert_contains(cv, j as int, x@);
            }
            assert(char_views(rc@).to_set() =~= cv.to_set().insert(x@));
            assert forall|a: int, b: int| 0 <= a < b < char_views(rc@).len() implies lex_lt(
                char_views(rc@)[a],
                char_views(rc@)[b],
            ) by {
                let n = char_views(rc@);
                if b < j {
                } else if b == j {
                } else if a < j {
                    assert(n[b] == cv[b - 1]);
                } else if a == j {
                    assert(n[b] == cv[b - 1]);
                    if b - 1 > j {
                        lemma_lex_transitive(x@, cv[j as int], cv[b - 1]);
                    }
                } else {
                    assert(n[a] == cv[a - 1]);
                    assert(n[b] == cv[b - 1]);
                }
            }
        }
        i = i + 1;
    }
    assert(views(v@).take(i as int) =~= views(v@));
    let mut r: Vec<String> = Vec::new();
    let mut k: usize = 0;
    while k < rc.len()
        invariant
            k <= rc.len(),
            views(r@) == char_views(rc@).take(k as int),
        decreases rc.len() - k,
    {
        let ghost rb = r@;
        let s = string_of(&rc[k], 0, rc[k].len());
        assert(rc@[k as int]@.subrange(0, rc@[k as int]@.len() as int) =~= rc@[k as int]@);
        r.push(s);
        assert(views(r@) =~= views(rb).push(s@));
        assert(char_views(rc@).take(k + 1) =~= char_views(rc@).take(k as int).push(s@));
        k = k + 1;
    }
    assert(char_views(rc@).take(k as int) =~= char_views(rc@));
    r
}

/// The number of non-overlapping occurrences of `pat` in `s`, scanned from
/// the left.
pub open spec fn occurrences(s: Seq<char>, pat: Seq<char>) -> nat
    decreases s.len(),
{
    if s.len() == 0 || pat.len() == 0 {
        0
    } else if is_prefix(pat, s) {
        1 + occurrences(s.subrange(pat.len() as int, s.len() as int), pat)
    } else {
        occurrences(s.drop_first(), pat)
    }
}

/// The number of non-overlapping occurrences of `pat` in `s`.
pub fn count_occurrences(s: &Vec<char>, pat: &str) -> (r: usize)
    requires
        pat@.len() > 0,
    ensures
        r == occurrences(s@, pat@),
{
    let pv = chars_of(pat);
    let mut n: usize = 0;
    let mut i: usize = 0;
    while i < s.len()
        invariant
            i <= s.len(),
            pv@ == pat@,
            pat@.len() > 0,
            n <= i,
            n + occurrences(s@.subrange(i as int, s@.len() as int), pv@) == occurrences(s@, pv@),
        decreases s.len() - i,
    {
        let ghost rest = s@.subrange(i as int, s@.len() as int);
        proof {
            if i + pv@.len() <= s@.len() {
                assert(rest.subrange(0, pv@.len() as int) =~= s@.subrange(
                    i as int,
                    i + pv@.len(),
                ));
            }
        }
        if occurs_at_exec(s, &pv, i) {
            assert(is_prefix(pv@, rest));
            assert(rest.subrange(pv@.len() as int, rest.len() as int) =~= s@.subrange(
                i + pv@.len(),
                s@.len() as int,
            ));
            n = n + 1;
            i = i + pv.len();
        } else {
            assert(!is_prefix(pv@, rest)) by {
                if is_prefix(pv@, rest) {
                    assert(occurs_at(s@, pv@, i as int));
                }
            }
            assert(rest.drop_first() =~= s@.subrange(i + 1, s@.len() as int));
            i = i + 1;
        }
    }
    assert(s@.subrange(i as int, s@.len() as int) =~= Seq::<char>::empty());
    n
}

/// Whether `p` occurs in `s`.
pub fn str_contains(s: &Vec<char>, p: &str) -> (r: bool)
    ensures
        r == contains(s@, p@),
{
    has_infix(s, &chars_of(p))
}

} // verus!
