//! Character-level helpers shared by the URL, robots and link modules.
//!
//! Text enters the library as `&str` and is modelled by its view, a
//! `Seq<char>`. Functions that scan text first copy it into a `Vec<char>`,
//! so that every later access is by index.

use vstd::prelude::*;

verus! {

/// The characters that trimming removes: Unicode's `White_Space` set.
pub open spec fn is_space(c: char) -> bool {
    let n = c as u32;
    ||| 0x09 <= n <= 0x0D
    ||| n == 0x20
    ||| n == 0x85
    ||| n == 0xA0
    ||| n == 0x1680
    ||| 0x2000 <= n <= 0x200A
    ||| n == 0x2028
    ||| n == 0x2029
    ||| n == 0x202F
    ||| n == 0x205F
    ||| n == 0x3000
}

/// The lower-case form of an ASCII letter; every other character is itself.
pub open spec fn ascii_lower(c: char) -> char {
    if 'A' <= c <= 'Z' {
        ((c as u8) + 32) as char
    } else {
        c
    }
}

/// The first index at or after `from` that holds no space, or the length.
pub open spec fn skip_spaces(s: Seq<char>, from: int) -> int
    decreases s.len() - from,
{
    if 0 <= from < s.len() && is_space(s[from]) {
        skip_spaces(s, from + 1)
    } else {
        from
    }
}

/// The end of the part of `s[lo..hi]` that is left when trailing spaces go.
pub open spec fn drop_spaces(s: Seq<char>, lo: int, hi: int) -> int
    decreases hi - lo,
{
    if lo < hi <= s.len() && is_space(s[hi - 1]) {
        drop_spaces(s, lo, hi - 1)
    } else {
        hi
    }
}

/// `s` without its leading and trailing spaces.
pub open spec fn trim(s: Seq<char>) -> Seq<char> {
    let a = skip_spaces(s, 0);
    let b = drop_spaces(s, a, s.len() as int);
    s.subrange(a, b)
}

/// Whether `s` begins with `lit` once the ASCII letters of `s` are lowered.
/// `lit` is meant to be in lower case already.
pub open spec fn starts_with_lowered(s: Seq<char>, lit: Seq<char>) -> bool {
    &&& lit.len() <= s.len()
    &&& forall|i: int| 0 <= i < lit.len() ==> ascii_lower(#[trigger] s[i]) == lit[i]
}

/// The views of a vector of texts, in order.
pub open spec fn rows(v: Seq<Vec<char>>) -> Seq<Seq<char>> {
    Seq::new(v.len(), |i: int| v[i]@)
}

/// The views of a vector of strings, in order.
pub open spec fn texts(v: Seq<String>) -> Seq<Seq<char>> {
    Seq::new(v.len(), |i: int| v[i]@)
}

/// The parts of `s` between its separators `sep`. A text with `n`
/// separators has `n + 1` parts, any of which may be empty.
pub open spec fn split(s: Seq<char>, sep: char) -> Seq<Seq<char>>
    decreases s.len(),
{
    if s.len() == 0 {
        seq![Seq::<char>::empty()]
    } else {
        let before = split(s.drop_last(), sep);
        if s.last() == sep {
            before.push(Seq::<char>::empty())
        } else {
            before.update(before.len() - 1, before.last().push(s.last()))
        }
    }
}

/// The text whose parts are `parts`: the parts with `sep` between each two.
pub open spec fn join(parts: Seq<Seq<char>>, sep: char) -> Seq<char>
    decreases parts.len(),
{
    if parts.len() == 0 {
        Seq::empty()
    } else if parts.len() == 1 {
        parts[0]
    } else {
        join(parts.drop_last(), sep) + seq![sep] + parts.last()
    }
}

/// Splitting loses nothing: a text has at least one part, no part holds
/// the separator, and the parts joined by the separator are the text.
pub proof fn lemma_split_rejoin(s: Seq<char>, sep: char)
    ensures
        split(s, sep).len() >= 1,
        join(split(s, sep), sep) == s,
        forall|i: int, k: int|
            0 <= i < split(s, sep).len() && 0 <= k < split(s, sep)[i].len()
                ==> #[trigger] split(s, sep)[i][k] != sep,
    decreases s.len(),
{
    if s.len() == 0 {
        assert(join(split(s, sep), sep) =~= s);
    } else {
        let head = s.drop_last();
        let c = s.last();
        lemma_split_rejoin(head, sep);
        let before = split(head, sep);
        let parts = split(s, sep);
        assert(s =~= head.push(c));
        if c == sep {
            assert(parts.drop_last() =~= before);
            assert(join(parts, sep) =~= s);
        } else if before.len() == 1 {
            assert(join(parts, sep) =~= s);
        } else {
            assert(parts.drop_last() =~= before.drop_last());
            assert(join(parts, sep) =~= s);
        }
    }
}

/// The spaces that `skip_spaces` passes over are spaces, and it stops at
/// the first character that is none.
pub proof fn lemma_skip_spaces_range(s: Seq<char>, from: int)
    requires
        0 <= from <= s.len(),
    ensures
        from <= skip_spaces(s, from) <= s.len(),
        forall|i: int| from <= i < skip_spaces(s, from) ==> is_space(s[i]),
        skip_spaces(s, from) < s.len() ==> !is_space(s[skip_spaces(s, from)]),
    decreases s.len() - from,
{
    if from < s.len() && is_space(s[from]) {
        lemma_skip_spaces_range(s, from + 1);
    }
}

/// The spaces that `drop_spaces` cuts off are spaces, and it stops behind
/// the last character that is none.
pub proof fn lemma_drop_spaces_range(s: Seq<char>, lo: int, hi: int)
    requires
        0 <= lo <= hi <= s.len(),
    ensures
        lo <= drop_spaces(s, lo, hi) <= hi,
        forall|i: int| drop_spaces(s, lo, hi) <= i < hi ==> is_space(s[i]),
        lo < drop_spaces(s, lo, hi) ==> !is_space(s[drop_spaces(s, lo, hi) - 1]),
    decreases hi - lo,
{
    if lo < hi && is_space(s[hi - 1]) {
        lemma_drop_spaces_range(s, lo, hi - 1);
    }
}

/// Trimming takes away spaces and nothing else: the text is some spaces,
/// then the trimmed text, then some spaces, and the trimmed text neither
/// begins nor ends with a space.
pub proof fn lemma_trim_is_tight(s: Seq<char>)
    ensures
        exists|a: int, b: int|
            0 <= a <= b <= s.len() && #[trigger] s.subrange(a, b) == trim(s) && (forall|i: int|
                0 <= i < a || b <= i < s.len() ==> is_space(s[i])),
        trim(s).len() > 0 ==> !is_space(trim(s).first()) && !is_space(trim(s).last()),
{
    lemma_skip_spaces_range(s, 0);
    let a = skip_spaces(s, 0);
    lemma_drop_spaces_range(s, a, s.len() as int);
    let b = drop_spaces(s, a, s.len() as int);
    assert(0 <= a <= b <= s.len() && s.subrange(a, b) == trim(s) && (forall|i: int|
        0 <= i < a || b <= i < s.len() ==> is_space(s[i])));
}

/// Whether trimming removes `c`.
pub fn is_space_char(c: char) -> (b: bool)
    ensures
        b == is_space(c),
{
    let n: u32 = c as u32;
    (0x09 <= n && n <= 0x0D) || n == 0x20 || n == 0x85 || n == 0xA0 || n == 0x1680 || (0x2000 <= n
        && n <= 0x200A) || n == 0x2028 || n == 0x2029 || n == 0x202F || n == 0x205F || n == 0x3000
}

/// The lower-case form of an ASCII letter; every other character is itself.
pub fn lower_char(c: char) -> (r: char)
    ensures
        r == ascii_lower(c),
{
    if 'A' <= c && c <= 'Z' {
        ((c as u8) + 32) as char
    } else {
        c
    }
}

/// Copies the characters of `s` into a vector, in order.
pub fn to_chars(s: &str) -> (v: Vec<char>)
    ensures
        v@ == s@,
{
    let mut v: Vec<char> = Vec::new();
    for c in it: s.chars()
        invariant
            v@ == it.seq().take(it.index()),
            it.seq() == s@,
    {
        v.push(c);
    }
    v
}

/// `String::push`: appends the character `c` to the end of the string, as
/// the standard library documents it.
#[verifier::external_body]
fn push_char(s: &mut String, c: char)
    ensures
        final(s)@ == old(s)@.push(c),
{
    s.push(c)
}

/// Builds the string that holds the characters `v[lo..hi]`.
pub fn string_of(v: &Vec<char>, lo: usize, hi: usize) -> (s: String)
    requires
        lo <= hi <= v.len(),
    ensures
        s@ == v@.subrange(lo as int, hi as int),
{
    let mut s = String::new();
    let mut i: usize = lo;
    while i < hi
        invariant
            lo <= i <= hi <= v.len(),
            s@ == v@.subrange(lo as int, i as int),
        decreases hi - i,
    {
        push_char(&mut s, v[i]);
        i += 1;
    }
    s
}

/// Builds the string that holds the characters of `v`.
pub fn from_chars(v: &Vec<char>) -> (s: String)
    ensures
        s@ == v@,
{
    let s = string_of(v, 0, v.len());
    assert(v@.subrange(0, v.len() as int) == v@);
    s
}

/// Copies `v[lo..hi]` into a vector of its own.
pub fn slice_chars(v: &Vec<char>, lo: usize, hi: usize) -> (r: Vec<char>)
    requires
        lo <= hi <= v.len(),
    ensures
        r@ == v@.subrange(lo as int, hi as int),
{
    let mut r: Vec<char> = Vec::new();
    let mut i: usize = lo;
    while i < hi
        invariant
            lo <= i <= hi <= v.len(),
            r@ == v@.subrange(lo as int, i as int),
        decreases hi - i,
    {
        r.push(v[i]);
        i += 1;
    }
    r
}

/// The bounds of `v[lo..hi]` without its leading and trailing spaces.
pub fn trim_bounds(v: &Vec<char>, lo: usize, hi: usize) -> (r: (usize, usize))
    requires
        lo <= hi <= v.len(),
    ensures
        lo <= r.0 <= r.1 <= hi,
        v@.subrange(r.0 as int, r.1 as int) == trim(v@.subrange(lo as int, hi as int)),
{
    let ghost s = v@.subrange(lo as int, hi as int);
    let mut a: usize = lo;
    while a < hi && is_space_char(v[a])
        invariant
            lo <= a <= hi <= v.len(),
            s == v@.subrange(lo as int, hi as int),
            skip_spaces(s, 0) == skip_spaces(s, a - lo),
        decreases hi - a,
    {
        a += 1;
    }
    let mut b: usize = hi;
    while a < b && is_space_char(v[b - 1])
        invariant
            lo <= a <= b <= hi <= v.len(),
            s == v@.subrange(lo as int, hi as int),
            drop_spaces(s, a - lo, s.len() as int) == drop_spaces(s, a - lo, b - lo),
        decreases b - a,
    {
        b -= 1;
    }
    assert(s.subrange(a - lo, b - lo) == v@.subrange(a as int, b as int));
    (a, b)
}

/// Whether `v[lo..hi]` begins with `lit` once its ASCII letters are lowered.
pub fn starts_with_lowered_at(v: &Vec<char>, lo: usize, hi: usize, lit: &Vec<char>) -> (b: bool)
    requires
        lo <= hi <= v.len(),
    ensures
        b == starts_with_lowered(v@.subrange(lo as int, hi as int), lit@),
{
    let ghost s = v@.subrange(lo as int, hi as int);
    if lit.len() > hi - lo {
        return false;
    }
    let mut i: usize = 0;
    while i < lit.len()
        invariant
            lo <= hi <= v.len(),
            i <= lit.len() <= hi - lo,
            s == v@.subrange(lo as int, hi as int),
            forall|j: int| 0 <= j < i ==> ascii_lower(#[trigger] s[j]) == lit@[j],
        decreases lit.len() - i,
    {
        if lower_char(v[lo + i]) != lit[i] {
            assert(ascii_lower(s[i as int]) != lit@[i as int]);
            return false;
        }
        i += 1;
    }
    true
}

/// The parts of `text` between its separators `sep`.
pub fn split_chars(text: &Vec<char>, sep: char) -> (parts: Vec<Vec<char>>)
    ensures
        rows(parts@) == split(text@, sep),
{
    let mut parts: Vec<Vec<char>> = Vec::new();
    let mut cur: Vec<char> = Vec::new();
    let mut i: usize = 0;
    assert(text@.take(0) =~= Seq::<char>::empty());
    assert(rows(parts@).push(cur@) =~= seq![Seq::<char>::empty()]);
    while i < text.len()
        invariant
            i <= text.len(),
            rows(parts@).push(cur@) == split(text@.take(i as int), sep),
        decreases text.len() - i,
    {
        let c = text[i];
        let ghost before = rows(parts@).push(cur@);
        assert(text@.take(i + 1).drop_last() =~= text@.take(i as int));
        if c == sep {
            parts.push(cur);
            cur = Vec::new();
            assert(rows(parts@).push(cur@) =~= before.push(Seq::<char>::empty()));
        } else {
            cur.push(c);
            assert(rows(parts@).push(cur@) =~= before.update(
                before.len() - 1,
                before.last().push(c),
            ));
        }
        i += 1;
    }
    assert(text@.take(text.len() as int) =~= text@);
    let ghost before = rows(parts@).push(cur@);
    parts.push(cur);
    assert(rows(parts@) =~= before);
    parts
}

/// The text whose parts are `parts`, with `sep` between each two.
pub fn join_parts(parts: &Vec<Vec<char>>, sep: char) -> (r: Vec<char>)
    ensures
        r@ == join(rows(parts@), sep),
{
    let mut r: Vec<char> = Vec::new();
    let mut n: usize = 0;
    while n < parts.len()
        invariant
            n <= parts.len(),
            r@ == join(rows(parts@).take(n as int), sep),
        decreases parts.len() - n,
    {
        let ghost done = rows(parts@).take(n as int);
        let ghost more = rows(parts@).take(n + 1);
        assert(more.drop_last() =~= done);
        assert(more.last() == parts@[n as int]@);
        if n > 0 {
            r.push(sep);
        }
        let part = &parts[n];
        let ghost start = r@;
        let mut k: usize = 0;
        while k < part.len()
            invariant
                k <= part.len(),
                r@ == start + part@.take(k as int),
            decreases part.len() - k,
        {
            r.push(part[k]);
            k += 1;
        }
        assert(part@.take(part.len() as int) =~= part@);
        assert(r@ =~= join(more, sep));
        n += 1;
    }
    assert(rows(parts@).take(parts.len() as int) =~= rows(parts@));
    r
}

/// Whether `a` and `b` hold the same characters.
pub fn same_text(a: &str, b: &str) -> (r: bool)
    ensures
        r == (a@ == b@),
{
    let x = to_chars(a);
    let y = to_chars(b);
    if x.len() != y.len() {
        return false;
    }
    let mut i: usize = 0;
    while i < x.len()
        invariant
            i <= x.len() == y.len(),
            x@ == a@,
            y@ == b@,
            forall|j: int| 0 <= j < i ==> x@[j] == y@[j],
        decreases x.len() - i,
    {
        if x[i] != y[i] {
            assert(a@[i as int] != b@[i as int]);
            return false;
        }
        i += 1;
    }
    assert(x@ =~= y@);
    true
}

/// A string of its own with the characters of `s`.
pub fn copy_text(s: &str) -> (r: String)
    ensures
        r@ == s@,
{
    s.to_owned()
}

/// Whether `p` is a prefix of `s`.
pub fn has_prefix(s: &Vec<char>, p: &Vec<char>) -> (b: bool)
    ensures
        b == p@.is_prefix_of(s@),
{
    if p.len() > s.len() {
        return false;
    }
    let mut i: usize = 0;
    while i < p.len()
        invariant
            i <= p.len() <= s.len(),
            forall|j: int| 0 <= j < i ==> s@[j] == p@[j],
        decreases p.len() - i,
    {
        if s[i] != p[i] {
            assert(p@[i as int] != s@.subrange(0, p@.len() as int)[i as int]);
            return false;
        }
        i += 1;
    }
    assert(p@ =~= s@.subrange(0, p@.len() as int));
    true
}

} // verus!
