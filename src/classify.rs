//! Recognises the URL of a documentation-crate landing page:
//! `https://docs.rs/<crate>/<version or latest>/<crate>[/index.html][/]`.
use vstd::prelude::*;
use crate::text::chars_of;

verus! {

/// The fixed origin and leading slash of every landing page.
pub open spec fn page_prefix() -> Seq<char> {
    seq!['h', 't', 't', 'p', 's', ':', '/', '/', 'd', 'o', 'c', 's', '.', 'r', 's', '/']
}

/// The optional file name of a landing page.
pub open spec fn index_file() -> Seq<char> {
    seq!['i', 'n', 'd', 'e', 'x', '.', 'h', 't', 'm', 'l']
}

pub open spec fn latest_word() -> Seq<char> {
    seq!['l', 'a', 't', 'e', 's', 't']
}

pub open spec fn is_digit(c: char) -> bool {
    '0' <= c && c <= '9'
}

/// A version position: the word `latest`, or digits and periods only.
pub open spec fn is_version_token(v: Seq<char>) -> bool {
    v == latest_word() || (v.len() > 0 && forall|i: int|
        0 <= i < v.len() ==> is_digit(#[trigger] v[i]) || v[i] == '.')
}

/// What may follow the third segment: nothing, a slash, the index file,
/// or the index file and a slash.
pub open spec fn is_page_tail(t: Seq<char>) -> bool {
    t == Seq::<char>::empty() || t == seq!['/'] || t == seq!['/'] + index_file()
        || t == seq!['/'] + index_file() + seq!['/']
}

/// End of the segment that starts at `i`: the index of the next `/`, or the length.
pub open spec fn seg_end(s: Seq<char>, i: int) -> int
    decreases s.len() - i,
{
    if i < 0 || i >= s.len() {
        s.len() as int
    } else if s[i] == '/' {
        i
    } else {
        seg_end(s, i + 1)
    }
}

/// The URL holds neither a query (`?`) nor a fragment (`#`).
pub open spec fn no_query_or_fragment(u: Seq<char>) -> bool {
    forall|i: int| 0 <= i < u.len() ==> #[trigger] u[i] != '?' && u[i] != '#'
}

/// The URL is a documentation-crate landing page: it has no query and no
/// fragment, and after the prefix come a non-empty segment, a version
/// token, a non-empty segment and a page tail, each segment running up to
/// the next `/`.
pub open spec fn is_crate_page_url(u: Seq<char>) -> bool {
    let p = page_prefix().len() as int;
    let e1 = seg_end(u, p);
    let e2 = seg_end(u, e1 + 1);
    let e3 = seg_end(u, e2 + 1);
    &&& no_query_or_fragment(u)
    &&& u.len() >= p
    &&& u.subrange(0, p) == page_prefix()
    &&& p < e1 < u.len()
    &&& is_version_token(u.subrange(e1 + 1, e2))
    &&& e2 < u.len()
    &&& e2 + 1 < e3
    &&& is_page_tail(u.subrange(e3, u.len() as int))
}

proof fn lemma_seg_end_bounds(s: Seq<char>, i: int)
    requires
        0 <= i <= s.len(),
    ensures
        i <= seg_end(s, i) <= s.len(),
        seg_end(s, i) < s.len() ==> s[seg_end(s, i)] == '/',
        forall|k: int| i <= k < seg_end(s, i) ==> s[k] != '/',
    decreases s.len() - i,
{
    if i < s.len() && s[i] != '/' {
        lemma_seg_end_bounds(s, i + 1);
    }
}

/// A segment with no `/` in `s[i..k]` ends where the one at `k` ends.
proof fn lemma_seg_end_skip(s: Seq<char>, i: int, k: int)
    requires
        0 <= i <= k <= s.len(),
        forall|j: int| i <= j < k ==> s[j] != '/',
    ensures
        seg_end(s, i) == seg_end(s, k),
    decreases k - i,
{
    if i < k {
        lemma_seg_end_skip(s, i + 1, k);
    }
}

/// A run of characters without `/`.
pub open spec fn is_segment(s: Seq<char>) -> bool {
    forall|i: int| 0 <= i < s.len() ==> #[trigger] s[i] != '/'
}

/// A slash-free `s` that stands at `i` in `u`, followed by a `/`, is the
/// segment that starts at `i`.
proof fn lemma_segment_at(u: Seq<char>, i: int, s: Seq<char>)
    requires
        0 <= i,
        i + s.len() < u.len(),
        u.subrange(i, i + s.len()) == s,
        is_segment(s),
        u[i + s.len()] == '/',
    ensures
        seg_end(u, i) == i + s.len(),
{
    assert forall|j: int| i <= j < i + s.len() implies u[j] != '/' by {
        assert(u.subrange(i, i + s.len())[j - i] == u[j]);
    }
    lemma_seg_end_skip(u, i, i + s.len());
}

/// The landing-page URL of crate segments `a` and `b` and version position
/// `v`, followed by `rest`.
pub open spec fn page_url(a: Seq<char>, v: Seq<char>, b: Seq<char>, rest: Seq<char>) -> Seq<char> {
    page_prefix() + a + seq!['/'] + v + seq!['/'] + b + seq!['/'] + rest
}

/// With non-empty segments `a` and `b` and a slash-free `v`, the URL
/// `https://docs.rs/<a>/<v>/<b>/` followed by `rest` is a landing page
/// exactly when it holds no `?` and no `#`, `v` is a version token, and
/// `rest` is empty, the index file, or the index file and a slash. So a
/// further path segment, a query or a fragment anywhere, or a second
/// segment that is not a version, makes it no landing page.
pub proof fn lemma_page_url_shape(a: Seq<char>, v: Seq<char>, b: Seq<char>, rest: Seq<char>)
    requires
        a.len() > 0,
        b.len() > 0,
        is_segment(a),
        is_segment(v),
        is_segment(b),
    ensures
        is_crate_page_url(page_url(a, v, b, rest)) == (no_query_or_fragment(page_url(a, v, b, rest))
            && is_version_token(v) && (rest
            == Seq::<char>::empty() || rest == index_file() || rest == index_file() + seq!['/'])),
{
    let u = page_url(a, v, b, rest);
    let p = page_prefix().len() as int;
    let e1 = p + a.len();
    let e2 = e1 + 1 + v.len();
    let e3 = e2 + 1 + b.len();
    assert(u.subrange(0, p) =~= page_prefix());
    assert(u.subrange(p, e1) =~= a);
    assert(u[e1] == '/');
    lemma_segment_at(u, p, a);
    assert(u.subrange(e1 + 1, e2) =~= v);
    assert(u[e2] == '/');
    lemma_segment_at(u, e1 + 1, v);
    assert(u.subrange(e2 + 1, e3) =~= b);
    assert(u[e3] == '/');
    lemma_segment_at(u, e2 + 1, b);
    let t = u.subrange(e3, u.len() as int);
    assert(t =~= seq!['/'] + rest);
    assert(seq!['/'] + Seq::<char>::empty() =~= seq!['/']);
    assert(seq!['/'] + (index_file() + seq!['/']) =~= seq!['/'] + index_file() + seq!['/']);
    assert(rest =~= t.subrange(1, t.len() as int));
    if rest == Seq::<char>::empty() {
        assert(t =~= seq!['/']);
    } else if rest == index_file() {
        assert(t =~= seq!['/'] + index_file());
    } else if rest == index_file() + seq!['/'] {
        assert(t =~= seq!['/'] + index_file() + seq!['/']);
    }
    if t == seq!['/'] + index_file() + seq!['/'] {
        assert(rest =~= index_file() + seq!['/']);
    }
    if t == seq!['/'] + index_file() {
        assert(rest =~= index_file());
    }
    if t == seq!['/'] {
        assert(rest =~= Seq::<char>::empty());
    }
    assert(t != Seq::<char>::empty());
}

/// Finds the end of the segment of `u` that starts at `i`.
fn find_seg_end(u: &Vec<char>, i: usize) -> (r: usize)
    requires
        i <= u@.len(),
    ensures
        r as int == seg_end(u@, i as int),
        i <= r <= u@.len(),
{
    let mut j: usize = i;
    while j < u.len() && u[j] != '/'
        invariant
            i <= j <= u@.len(),
            seg_end(u@, i as int) == seg_end(u@, j as int),
        decreases u@.len() - j,
    {
        j = j + 1;
    }
    j
}

/// `u[lo..lo + w.len()]` equals `w`.
fn has_at(u: &Vec<char>, lo: usize, w: &Vec<char>) -> (r: bool)
    ensures
        r == (lo + w@.len() <= u@.len() && u@.subrange(lo as int, lo + w@.len()) == w@),
{
    if w.len() > u.len() || lo > u.len() - w.len() {
        return false;
    }
    let mut k: usize = 0;
    while k < w.len()
        invariant
            k <= w@.len(),
            lo + w@.len() <= u@.len() <= usize::MAX,
            forall|m: int| 0 <= m < k ==> u@[lo + m] == w@[m],
        decreases w@.len() - k,
    {
        if u[lo + k] != w[k] {
            assert(u@.subrange(lo as int, lo + w@.len())[k as int] != w@[k as int]);
            return false;
        }
        k = k + 1;
    }
    assert(u@.subrange(lo as int, lo + w@.len()) =~= w@);
    true
}

fn is_version_range(u: &Vec<char>, lo: usize, hi: usize) -> (r: bool)
    requires
        lo <= hi <= u@.len(),
    ensures
        r == is_version_token(u@.subrange(lo as int, hi as int)),
{
    let latest = vec!['l', 'a', 't', 'e', 's', 't'];
    assert(latest@ =~= latest_word());
    if hi - lo == 6 && has_at(u, lo, &latest) {
        return true;
    }
    let ghost v = u@.subrange(lo as int, hi as int);
    if hi == lo {
        assert(v.len() == 0);
        assert(v != latest_word());
        return false;
    }
    if hi - lo == 6 {
        assert(v != latest_word());
    } else {
        assert(v.len() != latest_word().len());
    }
    let mut k: usize = lo;
    while k < hi
        invariant
            lo <= k <= hi <= u@.len(),
            v == u@.subrange(lo as int, hi as int),
            v != latest_word(),
            forall|m: int| 0 <= m < k - lo ==> is_digit(#[trigger] v[m]) || v[m] == '.',
        decreases hi - k,
    {
        let c = u[k];
        if !(('0' <= c && c <= '9') || c == '.') {
            assert(v[k - lo] == c);
            return false;
        }
        k = k + 1;
    }
    true
}

fn is_page_tail_range(u: &Vec<char>, lo: usize) -> (r: bool)
    requires
        lo <= u@.len(),
    ensures
        r == is_page_tail(u@.subrange(lo as int, u@.len() as int)),
{
    let t = Ghost(u@.subrange(lo as int, u@.len() as int));
    let n = u.len() - lo;
    let slash_index = vec!['/', 'i', 'n', 'd', 'e', 'x', '.', 'h', 't', 'm', 'l'];
    let slash_index_slash = vec!['/', 'i', 'n', 'd', 'e', 'x', '.', 'h', 't', 'm', 'l', '/'];
    let slash = vec!['/'];
    assert(slash_index@ =~= seq!['/'] + index_file());
    assert(slash_index_slash@ =~= seq!['/'] + index_file() + seq!['/']);
    assert(slash@ =~= seq!['/']);
    if n == 0 {
        assert(t@ =~= Seq::<char>::empty());
        true
    } else if n == 1 {
        let r = has_at(u, lo, &slash);
        assert(u@.subrange(lo as int, lo + 1) =~= t@);
        r
    } else if n == 11 {
        let r = has_at(u, lo, &slash_index);
        assert(u@.subrange(lo as int, lo + 11) =~= t@);
        r
    } else if n == 12 {
        let r = has_at(u, lo, &slash_index_slash);
        assert(u@.subrange(lo as int, lo + 12) =~= t@);
        r
    } else {
        false
    }
}

/// No character of `u` is `?` or `#`.
fn has_no_query_or_fragment(u: &Vec<char>) -> (r: bool)
    ensures
        r == no_query_or_fragment(u@),
{
    let mut i: usize = 0;
    while i < u.len()
        invariant
            i <= u@.len(),
            forall|k: int| 0 <= k < i ==> #[trigger] u@[k] != '?' && u@[k] != '#',
        decreases u@.len() - i,
    {
        if u[i] == '?' || u[i] == '#' {
            return false;
        }
        i = i + 1;
    }
    true
}

/// True exactly when `url` is the URL of a documentation-crate landing page.
pub fn is_docsrs_crate_page(url: &str) -> (r: bool)
    ensures
        r == is_crate_page_url(url@),
{
    let u = chars_of(url);
    let prefix = vec!['h', 't', 't', 'p', 's', ':', '/', '/', 'd', 'o', 'c', 's', '.', 'r', 's', '/'];
    assert(prefix@ =~= page_prefix());
    if !has_no_query_or_fragment(&u) || !has_at(&u, 0, &prefix) {
        return false;
    }
    let e1 = find_seg_end(&u, 16);
    if e1 == 16 || e1 >= u.len() {
        return false;
    }
    let e2 = find_seg_end(&u, e1 + 1);
    if !is_version_range(&u, e1 + 1, e2) || e2 >= u.len() {
        return false;
    }
    let e3 = find_seg_end(&u, e2 + 1);
    if e3 == e2 + 1 {
        return false;
    }
    is_page_tail_range(&u, e3)
}

} // verus!
