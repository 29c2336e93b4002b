//! The parts of an absolute URL, and its normal form.
//!
//! A URL is read as `scheme://host/path?query#fragment`. Its *domain* is
//! everything before the path (`scheme://host`), its *path* everything from
//! the first `/` after the host on, query included. The normal form has no
//! fragment and an all-lower-case domain; the path keeps its case.
//!
//! A link that is found in a document is resolved against the document's
//! URL: a link with a scheme stands for itself, any other link takes from
//! the document's URL what it lacks, and the segments `.` and `..` of the
//! path that results are worked off.

use vstd::prelude::*;
use crate::text::{
    ascii_lower, from_chars, join, join_parts, lower_char, rows, slice_chars, split, split_chars,
    string_of, texts, to_chars,
};

verus! {

/// The first index at or after `from` where `s` holds `c`, or the length.
pub open spec fn index_of(s: Seq<char>, c: char, from: int) -> int
    decreases s.len() - from,
{
    if 0 <= from < s.len() {
        if s[from] == c {
            from
        } else {
            index_of(s, c, from + 1)
        }
    } else {
        s.len() as int
    }
}

/// Where the path of `u` begins: at the first `/` that is not part of a
/// `://` separator, or at the end when there is none.
pub open spec fn path_start(u: Seq<char>) -> int {
    let k = index_of(u, '/', 0);
    if 1 <= k && k + 1 < u.len() && u[k - 1] == ':' && u[k + 1] == '/' {
        index_of(u, '/', k + 2)
    } else {
        k
    }
}

/// `scheme://host`: the part of `u` before its path.
pub open spec fn domain_of(u: Seq<char>) -> Seq<char> {
    u.take(path_start(u))
}

/// The path of `u` with its query; `/` when `u` ends with the host.
pub open spec fn path_of(u: Seq<char>) -> Seq<char> {
    if path_start(u) < u.len() {
        u.skip(path_start(u))
    } else {
        seq!['/']
    }
}

/// `u` up to its first `#`.
pub open spec fn strip_fragment(u: Seq<char>) -> Seq<char> {
    u.take(index_of(u, '#', 0))
}

/// `u` with the ASCII letters of its first `n` characters lowered.
pub open spec fn lower_head(u: Seq<char>, n: int) -> Seq<char> {
    Seq::new(u.len(), |i: int| if i < n { ascii_lower(u[i]) } else { u[i] })
}

/// The identity of a URL: no fragment, domain in lower case.
pub open spec fn normalize(u: Seq<char>) -> Seq<char> {
    let v = strip_fragment(u);
    lower_head(v, path_start(v))
}

/// Whether `u` lies in the crawl domain `domain`: it has the scheme and
/// host of `domain`, and its path begins with the path of `domain`. A
/// domain written without a path, or with a path of one slash, holds every
/// URL of its scheme and host.
pub open spec fn in_domain(u: Seq<char>, domain: Seq<char>) -> bool {
    &&& domain_of(u) == domain_of(domain)
    &&& path_of(domain).is_prefix_of(path_of(u))
}

/// Whether `c` may stand in a scheme behind its first letter.
pub open spec fn is_scheme_char(c: char) -> bool {
    ||| 'a' <= c <= 'z'
    ||| 'A' <= c <= 'Z'
    ||| '0' <= c <= '9'
    ||| c == '+'
    ||| c == '-'
    ||| c == '.'
}

/// The first index at or after `from` that holds no scheme character, or
/// the length.
pub open spec fn scheme_run(u: Seq<char>, from: int) -> int
    decreases u.len() - from,
{
    if 0 <= from < u.len() && is_scheme_char(u[from]) {
        scheme_run(u, from + 1)
    } else {
        from
    }
}

/// Whether `u` begins with a scheme: a letter, then letters, digits, `+`,
/// `-` or `.`, then a colon.
pub open spec fn has_scheme(u: Seq<char>) -> bool {
    &&& u.len() > 0
    &&& ('a' <= u[0] <= 'z' || 'A' <= u[0] <= 'Z')
    &&& scheme_run(u, 1) < u.len()
    &&& u[scheme_run(u, 1)] == ':'
}

/// The scheme of `u` with its colon; empty where `u` has none.
pub open spec fn scheme_of(u: Seq<char>) -> Seq<char> {
    if has_scheme(u) {
        u.take(scheme_run(u, 1) + 1)
    } else {
        Seq::empty()
    }
}

/// One more than the greatest index below `upto` where `s` holds `c`, or
/// zero where there is none.
pub open spec fn after_last(s: Seq<char>, c: char, upto: int) -> int
    decreases upto,
{
    if upto <= 0 || upto > s.len() {
        0
    } else if s[upto - 1] == c {
        upto
    } else {
        after_last(s, c, upto - 1)
    }
}

/// `u` up to its first `?`.
pub open spec fn strip_query(u: Seq<char>) -> Seq<char> {
    u.take(index_of(u, '?', 0))
}

/// The URL `u`, which holds neither query nor fragment, up to and with the
/// last `/` of its path; `u` with a `/` added where it has no path.
pub open spec fn folder_of(u: Seq<char>) -> Seq<char> {
    if path_start(u) < u.len() {
        u.take(after_last(u, '/', u.len() as int))
    } else {
        u.push('/')
    }
}

/// The segments that are left of the first `n` of `segs` when `.` and `..`
/// are worked off: `.` goes, `..` goes with the segment before it. The
/// first segment, which stands before the leading `/` of a path, stays.
pub open spec fn fold_dots(segs: Seq<Seq<char>>, n: int) -> Seq<Seq<char>>
    decreases n,
{
    if n <= 0 {
        Seq::empty()
    } else {
        let kept = fold_dots(segs, n - 1);
        let g = segs[n - 1];
        if g == seq!['.'] {
            kept
        } else if g == seq!['.', '.'] {
            if kept.len() > 1 {
                kept.drop_last()
            } else {
                kept
            }
        } else {
            kept.push(g)
        }
    }
}

/// The segments `segs` of a path with `.` and `..` worked off. A path that
/// ends with `.` or `..` ends with `/` afterwards.
pub open spec fn clean_segments(segs: Seq<Seq<char>>) -> Seq<Seq<char>> {
    let kept = fold_dots(segs, segs.len() as int);
    if segs.len() > 0 && (segs.last() == seq!['.'] || segs.last() == seq!['.', '.']) {
        kept.push(Seq::empty())
    } else {
        kept
    }
}

/// The path `path`, which begins with `/`, without its segments `.` and
/// `..`.
pub open spec fn remove_dots(path: Seq<char>) -> Seq<char> {
    join(clean_segments(split(path, '/')), '/')
}

/// Where the query or the fragment of `u` begins: at its first `?` or `#`,
/// or at the end.
pub open spec fn tail_start(u: Seq<char>) -> int {
    if index_of(u, '?', 0) <= index_of(u, '#', 0) {
        index_of(u, '?', 0)
    } else {
        index_of(u, '#', 0)
    }
}

/// `u` with the segments `.` and `..` of its path worked off; query and
/// fragment stay as they are.
pub open spec fn tidy(u: Seq<char>) -> Seq<char> {
    let head = u.take(tail_start(u));
    let p = path_start(head);
    if p < head.len() {
        head.take(p) + remove_dots(head.skip(p)) + u.skip(tail_start(u))
    } else {
        u
    }
}

/// The URL that `link`, found in the document at `base`, stands for.
/// - A link with a scheme stands for itself.
/// - `//host/path` takes the scheme of `base`.
/// - `/path` takes the scheme and host of `base`.
/// - An empty link and `#fragment` stand for `base` without its fragment,
///   followed by the link.
/// - `?query` takes `base` up to its query.
/// - Any other link takes `base` up to the last `/` of its path.
///
/// In the last case and in that of `/path` the segments `.` and `..` of the
/// path are worked off.
pub open spec fn resolve(base: Seq<char>, link: Seq<char>) -> Seq<char> {
    let b = strip_fragment(base);
    if has_scheme(link) {
        link
    } else if link.len() >= 2 && link[0] == '/' && link[1] == '/' {
        scheme_of(b) + link
    } else if link.len() >= 1 && link[0] == '/' {
        tidy(domain_of(b) + link)
    } else if link.len() == 0 || link[0] == '#' {
        b + link
    } else if link[0] == '?' {
        strip_query(b) + link
    } else {
        tidy(folder_of(strip_query(b)) + link)
    }
}

/// The URLs that `links`, found in the document at `base`, stand for.
pub open spec fn resolve_all(base: Seq<char>, links: Seq<Seq<char>>) -> Seq<Seq<char>> {
    Seq::new(links.len(), |i: int| resolve(base, links[i]))
}

/// The address of the exclusion rules that govern `u`.
pub open spec fn robots_url(u: Seq<char>) -> Seq<char> {
    domain_of(u) + "/robots.txt"@
}

/// The index found lies between `from` and the length; where it is below
/// the length it holds `c`, and no place between `from` and it does.
pub proof fn lemma_index_of_range(s: Seq<char>, c: char, from: int)
    requires
        0 <= from <= s.len(),
    ensures
        from <= index_of(s, c, from) <= s.len(),
        index_of(s, c, from) < s.len() ==> s[index_of(s, c, from)] == c,
        forall|i: int| from <= i < index_of(s, c, from) ==> s[i] != c,
    decreases s.len() - from,
{
    if from < s.len() && s[from] != c {
        lemma_index_of_range(s, c, from + 1);
    }
}

/// Two texts that hold `c` at the same places give the same index.
pub proof fn lemma_index_of_same(s: Seq<char>, t: Seq<char>, c: char, from: int)
    requires
        s.len() == t.len(),
        forall|i: int| 0 <= i < s.len() ==> (s[i] == c) == (t[i] == c),
    ensures
        index_of(s, c, from) == index_of(t, c, from),
    decreases s.len() - from,
{
    if 0 <= from < s.len() && s[from] != c {
        lemma_index_of_same(s, t, c, from + 1);
    }
}

/// Lowering the head of a text moves neither its `/` nor its `:`.
pub proof fn lemma_path_start_lowered(v: Seq<char>, n: int)
    ensures
        path_start(lower_head(v, n)) == path_start(v),
{
    let w = lower_head(v, n);
    lemma_index_of_same(w, v, '/', 0);
    lemma_index_of_range(v, '/', 0);
    let k = index_of(v, '/', 0);
    lemma_index_of_same(w, v, '/', k + 2);
}

/// A normal form is its own normal form.
pub proof fn lemma_normalize_idempotent(u: Seq<char>)
    ensures
        normalize(normalize(u)) == normalize(u),
{
    let v = strip_fragment(u);
    let p = path_start(v);
    let w = normalize(u);
    lemma_index_of_range(u, '#', 0);
    assert forall|i: int| 0 <= i < w.len() implies w[i] != '#' by {}
    lemma_index_of_range(w, '#', 0);
    assert(strip_fragment(w) == w);
    lemma_path_start_lowered(v, p);
    assert(lower_head(w, p) =~= w);
}

/// A normal form holds no `#`, so no fragment, and is no longer than the
/// URL that it is the normal form of.
pub proof fn lemma_normalize_has_no_fragment(u: Seq<char>)
    ensures
        forall|i: int| 0 <= i < normalize(u).len() ==> normalize(u)[i] != '#',
        normalize(u).len() <= u.len(),
{
    lemma_index_of_range(u, '#', 0);
}

/// The first index at or after `from` where `v` holds `c`, or the length.
pub fn find_char(v: &Vec<char>, c: char, from: usize) -> (k: usize)
    requires
        from <= v.len(),
    ensures
        k == index_of(v@, c, from as int),
        from <= k <= v.len(),
{
    let mut k: usize = from;
    while k < v.len() && v[k] != c
        invariant
            from <= k <= v.len(),
            index_of(v@, c, from as int) == index_of(v@, c, k as int),
        decreases v.len() - k,
    {
        k += 1;
    }
    k
}

/// Where the path of `v` begins.
pub fn find_path_start(v: &Vec<char>) -> (p: usize)
    ensures
        p == path_start(v@),
        p <= v.len(),
{
    let k = find_char(v, '/', 0);
    if 1 <= k && k < v.len() - 1 && v[k - 1] == ':' && v[k + 1] == '/' {
        find_char(v, '/', k + 2)
    } else {
        k
    }
}

/// The normal form of the URL held in `v`.
pub fn normalize_chars(v: &Vec<char>) -> (r: Vec<char>)
    ensures
        r@ == normalize(v@),
{
    let end = find_char(v, '#', 0);
    let mut r: Vec<char> = Vec::new();
    let mut i: usize = 0;
    while i < end
        invariant
            i <= end <= v.len(),
            r@ == v@.take(i as int),
        decreases end - i,
    {
        r.push(v[i]);
        i += 1;
    }
    let p = find_path_start(&r);
    let ghost stripped = r@;
    let mut j: usize = 0;
    while j < p
        invariant
            j <= p <= r.len(),
            r.len() == stripped.len(),
            forall|i: int| 0 <= i < j ==> r@[i] == ascii_lower(stripped[i]),
            forall|i: int| j <= i < r.len() ==> r@[i] == stripped[i],
        decreases p - j,
    {
        let c = lower_char(r[j]);
        r.set(j, c);
        j += 1;
    }
    assert(r@ =~= lower_head(stripped, p as int));
    r
}

/// The path of the URL held in `v`, query included.
pub fn path_chars(v: &Vec<char>) -> (r: Vec<char>)
    ensures
        r@ == path_of(v@),
{
    let p = find_path_start(v);
    if p < v.len() {
        let r = slice_chars(v, p, v.len());
        assert(v@.subrange(p as int, v.len() as int) =~= v@.skip(p as int));
        r
    } else {
        let mut r: Vec<char> = Vec::new();
        r.push('/');
        assert(r@ =~= seq!['/']);
        r
    }
}

/// Whether the URL held in `u` lies in the crawl domain held in `domain`.
pub fn is_in_domain(u: &Vec<char>, domain: &Vec<char>) -> (b: bool)
    ensures
        b == in_domain(u@, domain@),
{
    let pu = find_path_start(u);
    let pd = find_path_start(domain);
    if pu != pd {
        assert(domain_of(u@).len() != domain_of(domain@).len());
        return false;
    }
    let mut i: usize = 0;
    while i < pu
        invariant
            i <= pu == pd,
            pu == path_start(u@),
            pd == path_start(domain@),
            pu <= u.len(),
            pd <= domain.len(),
            forall|j: int| 0 <= j < i ==> u@[j] == domain@[j],
        decreases pu - i,
    {
        if u[i] != domain[i] {
            assert(domain_of(u@)[i as int] != domain_of(domain@)[i as int]);
            return false;
        }
        i += 1;
    }
    assert(domain_of(u@) =~= domain_of(domain@));
    let path = path_chars(u);
    let scope = path_chars(domain);
    crate::text::has_prefix(&path, &scope)
}

/// Whether `c` may stand in a scheme behind its first letter.
pub fn is_scheme_letter(c: char) -> (b: bool)
    ensures
        b == is_scheme_char(c),
{
    ('a' <= c && c <= 'z') || ('A' <= c && c <= 'Z') || ('0' <= c && c <= '9') || c == '+' || c
        == '-' || c == '.'
}

/// The length of the scheme of `v` with its colon; zero where `v` has none.
pub fn scheme_len(v: &Vec<char>) -> (n: usize)
    ensures
        v@.take(n as int) == scheme_of(v@),
        n <= v.len(),
        has_scheme(v@) == (n > 0),
{
    if v.len() == 0 || !(('a' <= v[0] && v[0] <= 'z') || ('A' <= v[0] && v[0] <= 'Z')) {
        assert(v@.take(0) =~= Seq::<char>::empty());
        return 0;
    }
    let mut k: usize = 1;
    while k < v.len() && is_scheme_letter(v[k])
        invariant
            1 <= k <= v.len(),
            scheme_run(v@, 1) == scheme_run(v@, k as int),
        decreases v.len() - k,
    {
        k += 1;
    }
    if k < v.len() && v[k] == ':' {
        k + 1
    } else {
        assert(v@.take(0) =~= Seq::<char>::empty());
        0
    }
}

/// One more than the greatest index below `upto` where `v` holds `c`, or
/// zero.
pub fn find_after_last(v: &Vec<char>, c: char, upto: usize) -> (k: usize)
    requires
        upto <= v.len(),
    ensures
        k == after_last(v@, c, upto as int),
        k <= upto,
{
    let mut k: usize = upto;
    while k > 0 && v[k - 1] != c
        invariant
            k <= upto <= v.len(),
            after_last(v@, c, upto as int) == after_last(v@, c, k as int),
        decreases k,
    {
        k -= 1;
    }
    k
}

/// `a[..n]` followed by `b`.
pub fn join_chars(a: &Vec<char>, n: usize, b: &Vec<char>) -> (r: Vec<char>)
    requires
        n <= a.len(),
    ensures
        r@ == a@.take(n as int) + b@,
{
    let mut r: Vec<char> = Vec::new();
    let mut i: usize = 0;
    while i < n
        invariant
            i <= n <= a.len(),
            r@ == a@.take(i as int),
        decreases n - i,
    {
        r.push(a[i]);
        i += 1;
    }
    let mut j: usize = 0;
    while j < b.len()
        invariant
            j <= b.len(),
            r@ == a@.take(n as int) + b@.take(j as int),
        decreases b.len() - j,
    {
        r.push(b[j]);
        j += 1;
    }
    assert(b@.take(b.len() as int) =~= b@);
    r
}

/// Whether `g` is the segment `.`.
fn is_dot(g: &Vec<char>) -> (b: bool)
    ensures
        b == (g@ == seq!['.']),
{
    let b = g.len() == 1 && g[0] == '.';
    proof {
        if b {
            assert(g@ =~= seq!['.']);
        } else if g.len() == 1 {
            assert(g@[0] != seq!['.'][0]);
        } else {
            assert(g@.len() != seq!['.'].len());
        }
    }
    b
}

/// Whether `g` is the segment `..`.
fn is_dots(g: &Vec<char>) -> (b: bool)
    ensures
        b == (g@ == seq!['.', '.']),
{
    let b = g.len() == 2 && g[0] == '.' && g[1] == '.';
    proof {
        if b {
            assert(g@ =~= seq!['.', '.']);
        } else if g.len() == 2 {
            assert(g@[0] != seq!['.', '.'][0] || g@[1] != seq!['.', '.'][1]);
        } else {
            assert(g@.len() != seq!['.', '.'].len());
        }
    }
    b
}

/// The segments `segs` of a path with `.` and `..` worked off.
pub fn clean_parts(segs: &Vec<Vec<char>>) -> (kept: Vec<Vec<char>>)
    ensures
        rows(kept@) == clean_segments(rows(segs@)),
{
    let mut kept: Vec<Vec<char>> = Vec::new();
    let mut n: usize = 0;
    assert(rows(kept@) =~= fold_dots(rows(segs@), 0));
    while n < segs.len()
        invariant
            n <= segs.len(),
            rows(kept@) == fold_dots(rows(segs@), n as int),
        decreases segs.len() - n,
    {
        let g = &segs[n];
        let ghost before = rows(kept@);
        assert(rows(segs@)[n as int] == g@);
        if is_dot(g) {
        } else if is_dots(g) {
            if kept.len() > 1 {
                kept.pop();
                assert(rows(kept@) =~= before.drop_last());
            }
        } else {
            let copy = slice_chars(g, 0, g.len());
            assert(copy@ =~= g@);
            kept.push(copy);
            assert(rows(kept@) =~= before.push(g@));
        }
        n += 1;
    }
    if segs.len() > 0 {
        let last = &segs[segs.len() - 1];
        assert(rows(segs@).last() == last@);
        if is_dot(last) || is_dots(last) {
            let ghost before = rows(kept@);
            kept.push(Vec::new());
            assert(rows(kept@) =~= before.push(Seq::<char>::empty()));
        }
    }
    kept
}

/// The URL held in `u` with the segments `.` and `..` of its path worked
/// off.
pub fn tidy_chars(u: &Vec<char>) -> (r: Vec<char>)
    ensures
        r@ == tidy(u@),
{
    let q = find_char(u, '?', 0);
    let h = find_char(u, '#', 0);
    let cut = if q <= h {
        q
    } else {
        h
    };
    let head = slice_chars(u, 0, cut);
    assert(head@ =~= u@.take(cut as int));
    let p = find_path_start(&head);
    if p < head.len() {
        let path = slice_chars(&head, p, head.len());
        assert(path@ =~= head@.skip(p as int));
        let segs = split_chars(&path, '/');
        let kept = clean_parts(&segs);
        let cleaned = join_parts(&kept, '/');
        let tail = slice_chars(u, cut, u.len());
        assert(tail@ =~= u@.skip(cut as int));
        let front = join_chars(&head, p, &cleaned);
        let r = join_chars(&front, front.len(), &tail);
        assert(front@.take(front.len() as int) =~= front@);
        r
    } else {
        let r = slice_chars(u, 0, u.len());
        assert(r@ =~= u@);
        r
    }
}

/// The URL that `link`, found in the document at `base`, stands for.
pub fn resolve_chars(base: &Vec<char>, link: &Vec<char>) -> (r: Vec<char>)
    ensures
        r@ == resolve(base@, link@),
{
    let end = find_char(base, '#', 0);
    let ghost b = strip_fragment(base@);
    if scheme_len(link) > 0 {
        let r = join_chars(link, 0, link);
        assert(r@ =~= link@);
        return r;
    }
    let b_vec = slice_chars(base, 0, end);
    assert(b_vec@ =~= b);
    if link.len() >= 2 && link[0] == '/' && link[1] == '/' {
        let n = scheme_len(&b_vec);
        join_chars(&b_vec, n, link)
    } else if link.len() >= 1 && link[0] == '/' {
        let p = find_path_start(&b_vec);
        let whole = join_chars(&b_vec, p, link);
        tidy_chars(&whole)
    } else if link.len() == 0 || link[0] == '#' {
        let r = join_chars(&b_vec, b_vec.len(), link);
        assert(b.take(b.len() as int) =~= b);
        r
    } else {
        let q = find_char(&b_vec, '?', 0);
        if link[0] == '?' {
            join_chars(&b_vec, q, link)
        } else {
            let mut u = slice_chars(&b_vec, 0, q);
            assert(u@ =~= strip_query(b));
            let p = find_path_start(&u);
            if p < u.len() {
                let k = find_after_last(&u, '/', u.len());
                let whole = join_chars(&u, k, link);
                tidy_chars(&whole)
            } else {
                u.push('/');
                let whole = join_chars(&u, u.len(), link);
                assert(u@.take(u.len() as int) =~= u@);
                tidy_chars(&whole)
            }
        }
    }
}

/// The URL that `link`, found in the document at `base`, stands for.
pub fn resolve_url(base: &str, link: &str) -> (r: String)
    ensures
        r@ == resolve(base@, link@),
{
    let b = to_chars(base);
    let l = to_chars(link);
    let r = resolve_chars(&b, &l);
    from_chars(&r)
}

/// The URLs that `links`, found in the document at `base`, stand for.
pub fn resolve_urls(base: &str, links: &Vec<String>) -> (r: Vec<String>)
    ensures
        texts(r@) == resolve_all(base@, texts(links@)),
{
    let b = to_chars(base);
    let mut r: Vec<String> = Vec::new();
    let mut i: usize = 0;
    while i < links.len()
        invariant
            i <= links.len(),
            b@ == base@,
            r@.len() == i,
            forall|j: int| 0 <= j < i ==> (#[trigger] r@[j])@ == resolve(base@, links@[j]@),
        decreases links.len() - i,
    {
        let l = to_chars(links[i].as_str());
        let u = resolve_chars(&b, &l);
        r.push(from_chars(&u));
        i += 1;
    }
    assert(texts(r@) =~= resolve_all(base@, texts(links@)));
    r
}

/// The normal form of `url`.
pub fn normalize_url(url: &str) -> (r: String)
    ensures
        r@ == normalize(url@),
{
    let v = to_chars(url);
    let r = normalize_chars(&v);
    from_chars(&r)
}

/// `scheme://host` of `url`.
pub fn domain_of_url(url: &str) -> (r: String)
    ensures
        r@ == domain_of(url@),
{
    let v = to_chars(url);
    let p = find_path_start(&v);
    string_of(&v, 0, p)
}

/// The path of `url`, query included.
pub fn path_of_url(url: &str) -> (r: Vec<char>)
    ensures
        r@ == path_of(url@),
{
    let v = to_chars(url);
    path_chars(&v)
}

/// The address of the exclusion rules that govern `url`.
pub fn robots_url_of(url: &str) -> (r: String)
    ensures
        r@ == robots_url(url@),
{
    let mut r = domain_of_url(url);
    r.append("/robots.txt");
    r
}

} // verus!
