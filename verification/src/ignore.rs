//! Ignore-rule evaluation: combines built-in, caller-supplied "global", and
//! per-directory "local" pattern lists and decides per-entry visibility.
//!
//! A pattern holding a path separator is matched against the entry's path
//! relative to the scan root; a pattern without one is matched against the
//! bare entry name. Evaluation order is defaults, then globals, then locals;
//! the first match wins, which for the boolean result is the same as asking
//! whether any pattern matches.

use vstd::prelude::*;

use crate::glob::glob_match_spec;
use crate::text::contains_char;

verus! {

/// The entry path relative to the scan root: the path with the root prefix
/// (and one following separator) stripped, or nothing when the path does not
/// start with the root.
pub open spec fn rel_path_spec(path: Seq<char>, root: Seq<char>) -> Option<Seq<char>> {
    if path.len() >= root.len() && path.subrange(0, root.len() as int) == root {
        let rest = path.skip(root.len() as int);
        if rest.len() > 0 && rest[0] == '/' {
            Some(rest.skip(1))
        } else {
            Some(rest)
        }
    } else {
        None
    }
}

/// Computes the path of an entry relative to the scan root.
pub fn rel_path<'a>(path: &'a str, root: &str) -> (r: Option<&'a str>)
    ensures
        match r {
            Some(s) => rel_path_spec(path@, root@) == Some(s@),
            None => rel_path_spec(path@, root@) is None,
        },
{
    let pl = path.unicode_len();
    let rl = root.unicode_len();
    if rl > pl {
        return None;
    }
    let mut i: usize = 0;
    while i < rl
        invariant
            pl == path@.len(),
            rl == root@.len(),
            rl <= pl,
            i <= rl,
            forall|k: int| 0 <= k < i ==> path@[k] == root@[k],
        decreases rl - i,
    {
        if path.get_char(i) != root.get_char(i) {
            assert(path@.subrange(0, rl as int)[i as int] == path@[i as int]);
            return None;
        }
        i = i + 1;
    }
    assert(path@.subrange(0, rl as int) =~= root@);
    let ghost rest = path@.skip(rl as int);
    if pl > rl && path.get_char(rl) == '/' {
        assert(rest[0] == path@[rl as int]);
        let s = path.substring_char(rl + 1, pl);
        assert(s@ =~= rest.skip(1));
        Some(s)
    } else {
        let s = path.substring_char(rl, pl);
        assert(s@ =~= rest);
        Some(s)
    }
}

/// Whether one ignore pattern hides the entry: name-only matching for plain
/// patterns, root-relative path matching for patterns with a separator.
pub open spec fn pattern_hits_spec(
    p: Seq<char>,
    name: Seq<char>,
    path: Seq<char>,
    root: Seq<char>,
) -> bool {
    if p.contains('/') {
        match rel_path_spec(path, root) {
            Some(rel) => glob_match_spec(p, rel),
            None => false,
        }
    } else {
        glob_match_spec(p, name)
    }
}

/// Evaluates one ignore pattern against an entry.
pub fn pattern_hits(p: &str, name: &str, path: &str, root: &str) -> (r: bool)
    ensures
        r == pattern_hits_spec(p@, name@, path@, root@),
{
    if contains_char(p, '/') {
        match rel_path(path, root) {
            Some(rel) => crate::glob::matches(p, rel),
            None => false,
        }
    } else {
        crate::glob::matches(p, name)
    }
}

/// The views of a list of pattern strings.
pub open spec fn pattern_views(ps: Seq<String>) -> Seq<Seq<char>> {
    ps.map_values(|s: String| s@)
}

/// Whether any pattern in the list hides the entry.
pub open spec fn any_hits_spec(
    ps: Seq<Seq<char>>,
    name: Seq<char>,
    path: Seq<char>,
    root: Seq<char>,
) -> bool {
    exists|i: int| 0 <= i < ps.len() && pattern_hits_spec(ps[i], name, path, root)
}

fn any_hits(ps: &Vec<String>, name: &str, path: &str, root: &str) -> (r: bool)
    ensures
        r == any_hits_spec(pattern_views(ps@), name@, path@, root@),
{
    let mut i: usize = 0;
    while i < ps.len()
        invariant
            i <= ps@.len(),
            forall|k: int|
                0 <= k < i ==> !pattern_hits_spec(
                    #[trigger] pattern_views(ps@)[k],
                    name@,
                    path@,
                    root@,
                ),
        decreases ps@.len() - i,
    {
        if pattern_hits(ps[i].as_str(), name, path, root) {
            assert(pattern_hits_spec(pattern_views(ps@)[i as int], name@, path@, root@));
            return true;
        }
        i = i + 1;
    }
    false
}

/// Whether the entry is hidden by the built-in defaults, the global
/// patterns, or the local patterns.
pub open spec fn ignored_spec(
    name: Seq<char>,
    path: Seq<char>,
    root: Seq<char>,
    globals: Seq<Seq<char>>,
    locals: Seq<Seq<char>>,
) -> bool {
    ||| glob_match_spec(".DS_Store"@, name)
    ||| glob_match_spec("Thumbs.db"@, name)
    ||| any_hits_spec(globals, name, path, root)
    ||| any_hits_spec(locals, name, path, root)
}

/// Decides whether an entry is hidden by ignore rules. Defaults are checked
/// first, then global patterns, then local patterns; the first match wins.
pub fn is_ignored(
    name: &str,
    full_path: &str,
    root: &str,
    user_patterns: &Vec<String>,
    local_patterns: &Vec<String>,
) -> (r: bool)
    ensures
        r == ignored_spec(
            name@,
            full_path@,
            root@,
            pattern_views(user_patterns@),
            pattern_views(local_patterns@),
        ),
{
    if crate::glob::matches(".DS_Store", name) {
        return true;
    }
    if crate::glob::matches("Thumbs.db", name) {
        return true;
    }
    if any_hits(user_patterns, name, full_path, root) {
        return true;
    }
    any_hits(local_patterns, name, full_path, root)
}

/// Characters trimmed from the ends of an ignore-file line.
pub open spec fn is_space(c: char) -> bool {
    c == ' ' || c == '\t' || c == '\r'
}

/// The line with leading and trailing whitespace removed.
pub open spec fn trim_spec(s: Seq<char>) -> Seq<char>
    decreases s.len(),
{
    if s.len() == 0 {
        s
    } else if is_space(s[0]) {
        trim_spec(s.skip(1))
    } else if is_space(s.last()) {
        trim_spec(s.drop_last())
    } else {
        s
    }
}

fn is_space_char(c: char) -> (r: bool)
    ensures
        r == is_space(c),
{
    c == ' ' || c == '\t' || c == '\r'
}

/// Trims ASCII spaces, tabs and carriage returns from both ends.
pub fn trim(s: &str) -> (r: &str)
    ensures
        r@ == trim_spec(s@),
{
    let l = s.unicode_len();
    let mut lo: usize = 0;
    proof {
        assert(s@.subrange(0, l as int) =~= s@);
    }
    while lo < l && is_space_char(s.get_char(lo))
        invariant
            l == s@.len(),
            lo <= l,
            trim_spec(s@) == trim_spec(s@.subrange(lo as int, l as int)),
        decreases l - lo,
    {
        proof {
            let piece = s@.subrange(lo as int, l as int);
            assert(is_space(piece[0]));
            assert(piece.skip(1) =~= s@.subrange(lo as int + 1, l as int));
        }
        lo = lo + 1;
    }
    let mut hi: usize = l;
    while hi > lo && is_space_char(s.get_char(hi - 1))
        invariant
            l == s@.len(),
            lo <= hi <= l,
            lo == l || !is_space(s@[lo as int]),
            trim_spec(s@) == trim_spec(s@.subrange(lo as int, hi as int)),
        decreases hi,
    {
        proof {
            let piece = s@.subrange(lo as int, hi as int);
            assert(!is_space(piece[0]));
            assert(is_space(piece.last()));
            assert(piece.drop_last() =~= s@.subrange(lo as int, hi as int - 1));
        }
        hi = hi - 1;
    }
    let r = s.substring_char(lo, hi);
    proof {
        let piece = s@.subrange(lo as int, hi as int);
        assert(r@ == piece);
        if piece.len() > 0 {
            assert(!is_space(piece[0]));
            assert(!is_space(piece.last()));
        }
    }
    r
}

/// Number of characters before the first line break, or the whole length.
pub open spec fn line_len(s: Seq<char>) -> int
    decreases s.len(),
{
    if s.len() == 0 {
        0
    } else if s[0] == '\n' {
        0
    } else {
        1 + line_len(s.skip(1))
    }
}

proof fn lemma_line_len_scan(s: Seq<char>, n: int)
    requires
        0 <= n <= s.len(),
        forall|k: int| 0 <= k < n ==> s[k] != '\n',
        n < s.len() ==> s[n] == '\n',
    ensures
        line_len(s) == n,
    decreases n,
{
    if n == 0 {
    } else {
        assert(s[0] != '\n');
        let t = s.skip(1);
        assert(forall|k: int| 0 <= k < n - 1 ==> t[k] == s[k + 1]);
        lemma_line_len_scan(t, n - 1);
    }
}

/// The text split at line breaks, the way an ignore file is read: no final
/// empty line when the text ends with a break.
pub open spec fn split_lines_spec(s: Seq<char>) -> Seq<Seq<char>>
    decreases s.len(),
        via split_lines_decreases
{
    if s.len() == 0 {
        Seq::empty()
    } else {
        let l = line_len(s);
        if l >= s.len() {
            seq![s]
        } else {
            seq![s.subrange(0, l)] + split_lines_spec(s.skip(l + 1))
        }
    }
}

#[via_fn]
proof fn split_lines_decreases(s: Seq<char>) {
    lemma_line_len_scan_bounds(s);
}

proof fn lemma_line_len_scan_bounds(s: Seq<char>)
    ensures
        0 <= line_len(s) <= s.len(),
    decreases s.len(),
{
    if s.len() == 0 {
    } else if s[0] == '\n' {
    } else {
        lemma_line_len_scan_bounds(s.skip(1));
    }
}

/// An ignore-file line is kept when, after trimming, it is neither empty
/// nor a comment.
pub open spec fn keep_line(t: Seq<char>) -> bool {
    t.len() > 0 && t[0] != '#'
}

/// The trimming step, as a function value.
pub open spec fn trim_fn() -> spec_fn(Seq<char>) -> Seq<char> {
    |t: Seq<char>| trim_spec(t)
}

/// The keep test, as a function value.
pub open spec fn keep_fn() -> spec_fn(Seq<char>) -> bool {
    |t: Seq<char>| keep_line(t)
}

/// The patterns an ignore file's text yields: each line trimmed, with empty
/// lines and `#` comments dropped.
pub open spec fn ignore_patterns_spec(s: Seq<char>) -> Seq<Seq<char>> {
    split_lines_spec(s).map_values(trim_fn()).filter(keep_fn())
}

proof fn lemma_patterns_cat(a: Seq<Seq<char>>, b: Seq<Seq<char>>)
    ensures
        (a + b).map_values(trim_fn()).filter(keep_fn()) == a.map_values(trim_fn()).filter(
            keep_fn(),
        ) + b.map_values(trim_fn()).filter(keep_fn()),
{
    assert((a + b).map_values(trim_fn()) =~= a.map_values(trim_fn()) + b.map_values(trim_fn()));
    Seq::filter_distributes_over_add(a.map_values(trim_fn()), b.map_values(trim_fn()), keep_fn());
}

proof fn lemma_patterns_single(u: Seq<char>)
    ensures
        seq![u].map_values(trim_fn()).filter(keep_fn()) == (if keep_line(trim_spec(u)) {
            seq![trim_spec(u)]
        } else {
            Seq::<Seq<char>>::empty()
        }),
{
    reveal(Seq::filter);
    let m = seq![u].map_values(trim_fn());
    assert(m =~= seq![trim_spec(u)]);
    assert(m.drop_last() =~= Seq::<Seq<char>>::empty());
    assert(m.drop_last().filter(keep_fn()) =~= Seq::<Seq<char>>::empty());
    assert(m.last() == trim_spec(u));
    if keep_line(trim_spec(u)) {
        assert(m.filter(keep_fn()) =~= seq![trim_spec(u)]);
    } else {
        assert(m.filter(keep_fn()) =~= Seq::<Seq<char>>::empty());
    }
}

/// Reads ignore-file text into its pattern list: one pattern per line,
/// trimmed, skipping blank lines and `#` comments.
pub fn parse_ignore_lines(contents: &str) -> (r: Vec<String>)
    ensures
        pattern_views(r@) == ignore_patterns_spec(contents@),
{
    let l = contents.unicode_len();
    let mut out: Vec<String> = Vec::new();
    let mut pos: usize = 0;
    proof {
        reveal(Seq::filter);
        assert(contents@.skip(0) =~= contents@);
        assert(pattern_views(out@) =~= Seq::<Seq<char>>::empty());
    }
    while pos < l
        invariant
            l == contents@.len(),
            pos <= l,
            ignore_patterns_spec(contents@) == pattern_views(out@) + ignore_patterns_spec(
                contents@.skip(pos as int),
            ),
        decreases l - pos,
    {
        let mut nl: usize = pos;
        while nl < l && contents.get_char(nl) != '\n'
            invariant
                l == contents@.len(),
                pos <= nl <= l,
                forall|k: int| pos <= k < nl ==> contents@[k] != '\n',
            decreases l - nl,
        {
            nl = nl + 1;
        }
        let ghost rest = contents@.skip(pos as int);
        proof {
            assert(forall|k: int| 0 <= k < nl - pos ==> rest[k] == contents@[k + pos]);
            if nl < l {
                assert(contents@[nl as int] == '\n');
                assert(rest[nl - pos] == '\n');
            }
            lemma_line_len_scan(rest, nl - pos);
        }
        let line = contents.substring_char(pos, nl);
        proof {
            assert(line@ =~= rest.subrange(0, nl - pos));
        }
        let t = trim(line);
        let keep = t.unicode_len() > 0 && t.get_char(0) != '#';
        proof {
            assert(keep == keep_line(trim_spec(line@)));
        }
        if keep {
            let ghost old_out = out@;
            out.push(t.to_owned());
            proof {
                assert(pattern_views(out@) =~= pattern_views(old_out).push(t@));
            }
        }
        proof {
            reveal(Seq::filter);
            let lines = split_lines_spec(rest);
            if nl == l {
                assert(line@ =~= rest);
                assert(lines == seq![rest]);
                lemma_patterns_single(rest);
            } else {
                assert(lines == seq![rest.subrange(0, nl - pos)] + split_lines_spec(
                    rest.skip(nl - pos + 1),
                ));
                assert(rest.skip(nl - pos + 1) =~= contents@.skip(nl as int + 1));
                lemma_patterns_cat(
                    seq![rest.subrange(0, nl - pos)],
                    split_lines_spec(rest.skip(nl - pos + 1)),
                );
                lemma_patterns_single(rest.subrange(0, nl - pos));
            }
        }
        if nl == l {
            pos = nl;
            proof {
                assert(contents@.skip(pos as int).len() == 0);
                assert(split_lines_spec(contents@.skip(pos as int)) =~= Seq::<Seq<char>>::empty());
                assert(ignore_patterns_spec(contents@.skip(pos as int)) =~= Seq::<
                    Seq<char>,
                >::empty());
            }
        } else {
            pos = nl + 1;
        }
    }
    proof {
        reveal(Seq::filter);
        assert(contents@.skip(pos as int).len() == 0);
        assert(split_lines_spec(contents@.skip(pos as int)) =~= Seq::<Seq<char>>::empty());
        assert(ignore_patterns_spec(contents@.skip(pos as int)) =~= Seq::<Seq<char>>::empty());
        assert(pattern_views(out@) + Seq::<Seq<char>>::empty() =~= pattern_views(out@));
    }
    out
}

} // verus!
