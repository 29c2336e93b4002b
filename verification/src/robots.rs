//! The exclusion rules of a `robots.txt` body.
//!
//! Only `User-agent` and `Disallow` lines are read. A `Disallow` line counts
//! when the nearest `User-agent` line above it names `*`; its value, when it
//! is not empty, is a path prefix that must not be fetched.

use vstd::prelude::*;
use crate::text::{
    has_prefix, rows, split, split_chars, starts_with_lowered, starts_with_lowered_at,
    string_of, texts, to_chars, trim, trim_bounds,
};

verus! {

/// What one line of the body says.
pub enum Directive {
    /// A blank line, a comment, or a directive that is not read.
    Ignored,
    /// `User-agent:` with its trimmed value.
    UserAgent(Seq<char>),
    /// `Disallow:` with its trimmed value.
    Disallow(Seq<char>),
}

/// What has been read of a body so far.
pub struct RulesState {
    /// Whether the nearest `User-agent` line above names `*`.
    pub in_block: bool,
    /// The prefixes collected, in the order of their lines.
    pub rules: Seq<Seq<char>>,
}

/// The lines of `s`: the parts between its line feeds. A text with `n` line
/// feeds has `n + 1` lines, the last of which may be empty.
pub open spec fn split_lines(s: Seq<char>) -> Seq<Seq<char>> {
    split(s, '\n')
}

/// Reads one line. Names of directives match in any ASCII case.
pub open spec fn directive(line: Seq<char>) -> Directive {
    let t = trim(line);
    if t.len() == 0 || t[0] == '#' {
        Directive::Ignored
    } else if starts_with_lowered(t, "user-agent:"@) {
        Directive::UserAgent(trim(t.skip("user-agent:"@.len() as int)))
    } else if starts_with_lowered(t, "disallow:"@) {
        Directive::Disallow(trim(t.skip("disallow:"@.len() as int)))
    } else {
        Directive::Ignored
    }
}

/// The state after `line`, read in state `st`.
pub open spec fn apply_line(st: RulesState, line: Seq<char>) -> RulesState {
    match directive(line) {
        Directive::UserAgent(agent) => RulesState { in_block: agent == seq!['*'], rules: st.rules },
        Directive::Disallow(prefix) => if st.in_block && prefix.len() > 0 {
            RulesState { in_block: true, rules: st.rules.push(prefix) }
        } else {
            st
        },
        Directive::Ignored => st,
    }
}

/// The state after the first `n` of `lines`.
pub open spec fn rules_after(lines: Seq<Seq<char>>, n: int) -> RulesState
    decreases n,
{
    if n <= 0 {
        RulesState { in_block: false, rules: Seq::empty() }
    } else {
        apply_line(rules_after(lines, n - 1), lines[n - 1])
    }
}

/// The disallowed prefixes that `body` lays down for every crawler.
pub open spec fn robots_rules(body: Seq<char>) -> Seq<Seq<char>> {
    let lines = split_lines(body);
    rules_after(lines, lines.len() as int).rules
}

/// Whether no rule is a prefix of `path`.
pub open spec fn path_allowed(path: Seq<char>, rules: Seq<Seq<char>>) -> bool {
    forall|i: int| 0 <= i < rules.len() ==> !(#[trigger] rules[i]).is_prefix_of(path)
}

/// Whether the nearest `User-agent` line among the first `n` of `lines`
/// names `*`.
pub open spec fn star_is_nearest(lines: Seq<Seq<char>>, n: int) -> bool {
    exists|j: int|
        0 <= j < n && #[trigger] directive(lines[j]) == Directive::UserAgent(seq!['*'])
            && forall|k: int| j < k < n ==> !(#[trigger] directive(lines[k]) is UserAgent)
}

/// A block is open exactly below a `User-agent: *` line that no other
/// `User-agent` line follows.
pub proof fn lemma_block_is_open_below_star(lines: Seq<Seq<char>>, n: int)
    requires
        0 <= n <= lines.len(),
    ensures
        rules_after(lines, n).in_block == star_is_nearest(lines, n),
    decreases n,
{
    if n > 0 {
        lemma_block_is_open_below_star(lines, n - 1);
        let last = directive(lines[n - 1]);
        if last is UserAgent {
            if star_is_nearest(lines, n) {
                let j = choose|j: int|
                    0 <= j < n && #[trigger] directive(lines[j]) == Directive::UserAgent(
                        seq!['*'],
                    ) && forall|k: int| j < k < n ==> !(#[trigger] directive(lines[k]) is UserAgent);
                if j < n - 1 {
                    assert(!(directive(lines[n - 1]) is UserAgent));
                }
            }
            if last == Directive::UserAgent(seq!['*']) {
                assert(0 <= n - 1 < n && directive(lines[n - 1]) == Directive::UserAgent(seq!['*'])
                    && forall|k: int|
                    n - 1 < k < n ==> !(#[trigger] directive(lines[k]) is UserAgent));
            }
        } else {
            if star_is_nearest(lines, n - 1) {
                let j = choose|j: int|
                    0 <= j < n - 1 && #[trigger] directive(lines[j]) == Directive::UserAgent(
                        seq!['*'],
                    ) && forall|k: int|
                        j < k < n - 1 ==> !(#[trigger] directive(lines[k]) is UserAgent);
                assert(0 <= j < n && directive(lines[j]) == Directive::UserAgent(seq!['*'])
                    && forall|k: int| j < k < n ==> !(#[trigger] directive(lines[k]) is UserAgent));
            }
            if star_is_nearest(lines, n) {
                let j = choose|j: int|
                    0 <= j < n && #[trigger] directive(lines[j]) == Directive::UserAgent(
                        seq!['*'],
                    ) && forall|k: int| j < k < n ==> !(#[trigger] directive(lines[k]) is UserAgent);
                assert(0 <= j < n - 1 && directive(lines[j]) == Directive::UserAgent(seq!['*'])
                    && forall|k: int|
                    j < k < n - 1 ==> !(#[trigger] directive(lines[k]) is UserAgent));
            }
        }
    }
}

/// Every collected prefix is the non-empty value of a `Disallow` line that
/// stands in an open block.
pub proof fn lemma_rules_come_from_lines(lines: Seq<Seq<char>>, n: int, k: int)
    requires
        0 <= n <= lines.len(),
        0 <= k < rules_after(lines, n).rules.len(),
    ensures
        rules_after(lines, n).rules[k].len() > 0,
        exists|i: int|
            0 <= i < n && star_is_nearest(lines, i) && #[trigger] directive(lines[i])
                == Directive::Disallow(rules_after(lines, n).rules[k]),
    decreases n,
{
    let prev = rules_after(lines, n - 1);
    if k < prev.rules.len() {
        lemma_rules_come_from_lines(lines, n - 1, k);
        let i = choose|i: int|
            0 <= i < n - 1 && star_is_nearest(lines, i) && #[trigger] directive(lines[i])
                == Directive::Disallow(prev.rules[k]);
        assert(rules_after(lines, n).rules[k] == prev.rules[k]);
        assert(0 <= i < n && star_is_nearest(lines, i) && directive(lines[i])
            == Directive::Disallow(rules_after(lines, n).rules[k]));
    } else {
        lemma_block_is_open_below_star(lines, n - 1);
        assert(0 <= n - 1 < n && star_is_nearest(lines, n - 1) && directive(lines[n - 1])
            == Directive::Disallow(rules_after(lines, n).rules[k]));
    }
}

/// What has been collected stays: later lines only add prefixes.
pub proof fn lemma_rules_only_grow(lines: Seq<Seq<char>>, m: int, n: int)
    requires
        0 <= m <= n <= lines.len(),
    ensures
        rules_after(lines, m).rules.is_prefix_of(rules_after(lines, n).rules),
    decreases n - m,
{
    if m < n {
        lemma_rules_only_grow(lines, m, n - 1);
    }
}

/// Every `Disallow` line in an open block counts: its value, when it is
/// not empty, is among the prefixes of the whole body, and no path that
/// begins with it is allowed.
pub proof fn lemma_lines_give_rules(lines: Seq<Seq<char>>, i: int, prefix: Seq<char>)
    requires
        0 <= i < lines.len(),
        star_is_nearest(lines, i),
        directive(lines[i]) == Directive::Disallow(prefix),
        prefix.len() > 0,
    ensures
        rules_after(lines, lines.len() as int).rules.contains(prefix),
        forall|path: Seq<char>|
            prefix.is_prefix_of(path) ==> !path_allowed(
                path,
                rules_after(lines, lines.len() as int).rules,
            ),
{
    let here = rules_after(lines, i + 1).rules;
    let all = rules_after(lines, lines.len() as int).rules;
    lemma_block_is_open_below_star(lines, i);
    lemma_rules_only_grow(lines, i + 1, lines.len() as int);
    let k = here.len() - 1;
    assert(here[k] == prefix);
    assert(all[k] == prefix);
}

/// The lines of `text`.
pub fn lines_of(text: &Vec<char>) -> (lines: Vec<Vec<char>>)
    ensures
        rows(lines@) == split_lines(text@),
{
    split_chars(text, '\n')
}

/// What a line says, with the bounds of its value inside the line.
pub enum LineKind {
    Ignored,
    UserAgent { lo: usize, hi: usize },
    Disallow { lo: usize, hi: usize },
}

/// Reads one line. `agent` and `disallow` hold the two directive names.
pub fn read_line(line: &Vec<char>, agent: &Vec<char>, disallow: &Vec<char>) -> (kind: LineKind)
    requires
        agent@ == "user-agent:"@,
        disallow@ == "disallow:"@,
    ensures
        match kind {
            LineKind::Ignored => directive(line@) == Directive::Ignored,
            LineKind::UserAgent { lo, hi } => lo <= hi <= line.len() && directive(line@)
                == Directive::UserAgent(line@.subrange(lo as int, hi as int)),
            LineKind::Disallow { lo, hi } => lo <= hi <= line.len() && directive(line@)
                == Directive::Disallow(line@.subrange(lo as int, hi as int)),
        },
{
    let (a, b) = trim_bounds(line, 0, line.len());
    assert(line@.subrange(0, line.len() as int) =~= line@);
    let ghost t = trim(line@);
    if a == b || line[a] == '#' {
        return LineKind::Ignored;
    }
    if starts_with_lowered_at(line, a, b, agent) {
        let (lo, hi) = trim_bounds(line, a + agent.len(), b);
        assert(t.skip(agent@.len() as int) =~= line@.subrange(a + agent.len(), b as int));
        return LineKind::UserAgent { lo, hi };
    }
    if starts_with_lowered_at(line, a, b, disallow) {
        let (lo, hi) = trim_bounds(line, a + disallow.len(), b);
        assert(t.skip(disallow@.len() as int) =~= line@.subrange(a + disallow.len(), b as int));
        return LineKind::Disallow { lo, hi };
    }
    LineKind::Ignored
}

/// Whether `v[lo..hi]` is the single character `*`.
fn is_star(v: &Vec<char>, lo: usize, hi: usize) -> (b: bool)
    requires
        lo <= hi <= v.len(),
    ensures
        b == (v@.subrange(lo as int, hi as int) == seq!['*']),
{
    let b = hi - lo == 1 && v[lo] == '*';
    let ghost s = v@.subrange(lo as int, hi as int);
    proof {
        if b {
            assert(s =~= seq!['*']);
        } else if hi - lo == 1 {
            assert(s[0] != seq!['*'][0]);
        } else {
            assert(s.len() != seq!['*'].len());
        }
    }
    b
}

/// Collects the disallowed prefixes that `body` lays down for every crawler.
pub fn parse_robots(body: &str) -> (rules: Vec<String>)
    ensures
        texts(rules@) == robots_rules(body@),
{
    let text = to_chars(body);
    let lines = lines_of(&text);
    let agent = to_chars("user-agent:");
    let disallow = to_chars("disallow:");
    let mut rules: Vec<String> = Vec::new();
    let mut in_block = false;
    let mut n: usize = 0;
    assert(texts(rules@) =~= Seq::<Seq<char>>::empty());
    while n < lines.len()
        invariant
            n <= lines.len(),
            agent@ == "user-agent:"@,
            disallow@ == "disallow:"@,
            rules_after(rows(lines@), n as int) == (RulesState {
                in_block,
                rules: texts(rules@),
            }),
        decreases lines.len() - n,
    {
        let line = &lines[n];
        assert(rows(lines@)[n as int] == line@);
        match read_line(line, &agent, &disallow) {
            LineKind::UserAgent { lo, hi } => {
                in_block = is_star(line, lo, hi);
            },
            LineKind::Disallow { lo, hi } => {
                if in_block && lo < hi {
                    let ghost before = texts(rules@);
                    let prefix = string_of(line, lo, hi);
                    rules.push(prefix);
                    assert(texts(rules@) =~= before.push(line@.subrange(lo as int, hi as int)));
                }
            },
            LineKind::Ignored => {},
        }
        n += 1;
    }
    rules
}

/// Whether none of `rules` is a prefix of `path`.
pub fn is_path_allowed(path: &Vec<char>, rules: &Vec<String>) -> (b: bool)
    ensures
        b == path_allowed(path@, texts(rules@)),
{
    let mut i: usize = 0;
    while i < rules.len()
        invariant
            i <= rules.len(),
            forall|j: int| 0 <= j < i ==> !(#[trigger] texts(rules@)[j]).is_prefix_of(path@),
        decreases rules.len() - i,
    {
        let rule = to_chars(rules[i].as_str());
        if has_prefix(path, &rule) {
            assert(texts(rules@)[i as int].is_prefix_of(path@));
            return false;
        }
        assert(texts(rules@)[i as int] == rule@);
        i += 1;
    }
    true
}

} // verus!
