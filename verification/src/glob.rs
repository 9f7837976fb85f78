//! Minimal shell-style pattern matcher used for ignore-rule evaluation.
//!
//! The pattern alphabet is `*` (zero or more of any character), `?` (exactly
//! one character), and literal characters. Matching is anchored at both ends:
//! the whole text must match the whole pattern. There is no escaping and no
//! character classes; every pattern string is syntactically valid.

use vstd::prelude::*;

verus! {

/// Whether pattern `p` matches the whole of text `t`.
///
/// `*` is resolved by trying a zero-length match first and otherwise
/// consuming one text character and retrying, which covers every split
/// point between zero and the remaining text length.
pub open spec fn glob_match_spec(p: Seq<char>, t: Seq<char>) -> bool
    decreases p.len(), t.len(),
{
    if p.len() == 0 {
        t.len() == 0
    } else if p[0] == '*' {
        glob_match_spec(p.skip(1), t) || (t.len() > 0 && glob_match_spec(p, t.skip(1)))
    } else if t.len() == 0 {
        false
    } else {
        (p[0] == '?' || p[0] == t[0]) && glob_match_spec(p.skip(1), t.skip(1))
    }
}

/// Backtracking matcher over the suffixes of `p` and `t` that begin at
/// `pi` and `ti`.
fn glob_match_at(p: &str, pi: usize, pl: usize, t: &str, ti: usize, tl: usize) -> (r: bool)
    requires
        pl == p@.len(),
        tl == t@.len(),
        pi <= pl,
        ti <= tl,
    ensures
        r == glob_match_spec(p@.skip(pi as int), t@.skip(ti as int)),
    decreases pl - pi, tl - ti,
{
    let ghost ps = p@.skip(pi as int);
    let ghost ts = t@.skip(ti as int);
    if pi == pl {
        assert(ps.len() == 0);
        return ti == tl;
    }
    let c = p.get_char(pi);
    assert(c == ps[0]);
    assert(ps.skip(1) =~= p@.skip(pi as int + 1));
    if c == '*' {
        if glob_match_at(p, pi + 1, pl, t, ti, tl) {
            true
        } else if ti < tl {
            assert(ts.skip(1) =~= t@.skip(ti as int + 1));
            glob_match_at(p, pi, pl, t, ti + 1, tl)
        } else {
            false
        }
    } else if ti == tl {
        assert(ts.len() == 0);
        false
    } else {
        let tc = t.get_char(ti);
        assert(tc == ts[0]);
        assert(ts.skip(1) =~= t@.skip(ti as int + 1));
        if c == '?' || c == tc {
            glob_match_at(p, pi + 1, pl, t, ti + 1, tl)
        } else {
            false
        }
    }
}

/// Whether `pattern` matches the whole of `text`.
///
/// Deterministic, side-effect free, and total: a pattern that matches
/// nothing simply never returns true.
pub fn matches(pattern: &str, text: &str) -> (r: bool)
    ensures
        r == glob_match_spec(pattern@, text@),
{
    let pl = pattern.unicode_len();
    let tl = text.unicode_len();
    assert(pattern@.skip(0) =~= pattern@);
    assert(text@.skip(0) =~= text@);
    glob_match_at(pattern, 0, pl, text, 0, tl)
}

} // verus!
