//! Deterministic ordering of scan results: descending by modification time,
//! with ties broken by ascending name, so that runs over identical
//! directories always list entries the same way.

use vstd::prelude::*;

use crate::model::FileEntry;
use crate::text::{lemma_lex_le_total, lemma_lex_le_trans, lex_le, str_le};

verus! {

/// Scanner order: `a` comes no later than `b` when `a` is more recently
/// modified, or equally recent with a name that is not lexicographically
/// greater.
pub open spec fn entry_le(a: FileEntry, b: FileEntry) -> bool {
    a.mtime > b.mtime || (a.mtime == b.mtime && lex_le(a.name@, b.name@))
}

/// The whole sequence is in scanner order; by transitivity this pins the
/// relative position of every pair of entries.
pub open spec fn entries_sorted(s: Seq<FileEntry>) -> bool {
    forall|i: int, j: int| 0 <= i < j < s.len() ==> entry_le(s[i], s[j])
}

/// Any two entries compare in at least one direction.
pub proof fn lemma_entry_le_total(a: FileEntry, b: FileEntry)
    ensures
        entry_le(a, b) || entry_le(b, a),
{
    lemma_lex_le_total(a.name@, b.name@);
}

/// Scanner order is transitive.
pub proof fn lemma_entry_le_trans(a: FileEntry, b: FileEntry, c: FileEntry)
    requires
        entry_le(a, b),
        entry_le(b, c),
    ensures
        entry_le(a, c),
{
    if a.mtime == b.mtime && b.mtime == c.mtime {
        lemma_lex_le_trans(a.name@, b.name@, c.name@);
    }
}

/// Compares two entries in scanner order.
pub fn entry_before(a: &FileEntry, b: &FileEntry) -> (r: bool)
    ensures
        r == entry_le(*a, *b),
{
    if a.mtime > b.mtime {
        true
    } else if a.mtime < b.mtime {
        false
    } else {
        str_le(a.name.as_str(), b.name.as_str())
    }
}

proof fn lemma_insert_to_multiset(s: Seq<FileEntry>, pos: int, x: FileEntry)
    requires
        0 <= pos <= s.len(),
    ensures
        s.insert(pos, x).to_multiset() =~= s.to_multiset().insert(x),
{
    broadcast use vstd::seq_lib::group_to_multiset_ensures;
    broadcast use vstd::multiset::group_multiset_axioms;

    let t = s.insert(pos, x);
    assert(t.remove(pos) =~= s);
    assert(t[pos] == x);
    assert(t.remove(pos).to_multiset() =~= t.to_multiset().remove(x));
    assert(t.contains(x));
    assert(t.to_multiset().count(x) > 0);
}

proof fn lemma_remove_to_multiset(s: Seq<FileEntry>, pos: int)
    requires
        0 <= pos < s.len(),
    ensures
        s.to_multiset() =~= s.remove(pos).to_multiset().insert(s[pos]),
{
    broadcast use vstd::seq_lib::group_to_multiset_ensures;
    broadcast use vstd::multiset::group_multiset_axioms;

    assert(s.remove(pos).to_multiset() =~= s.to_multiset().remove(s[pos]));
    assert(s.contains(s[pos]));
    assert(s.to_multiset().count(s[pos]) > 0);
}

/// Sorts the entries in place into scanner order, keeping exactly the same
/// entries: descending by modification time, ascending by name on ties.
pub fn sort_entries(v: &mut Vec<FileEntry>)
    ensures
        entries_sorted(final(v)@),
        final(v)@.to_multiset() == old(v)@.to_multiset(),
{
    if v.len() <= 1 {
        return ;
    }
    let mut i: usize = 1;
    while i < v.len()
        invariant
            1 <= i <= v@.len(),
            v@.len() == old(v)@.len(),
            v@.to_multiset() == old(v)@.to_multiset(),
            forall|a: int, b: int| 0 <= a < b < i ==> entry_le(v@[a], v@[b]),
        decreases v@.len() - i,
    {
        let ghost before = v@;
        let x = v.remove(i);
        let ghost mid = v@;
        proof {
            lemma_remove_to_multiset(before, i as int);
            assert(forall|k: int| 0 <= k < i ==> mid[k] == before[k]);
        }
        let mut j: usize = 0;
        while j < i && entry_before(&v[j], &x)
            invariant
                j <= i,
                i < before.len(),
                v@ == mid,
                mid.len() == before.len() - 1,
                forall|k: int| 0 <= k < i ==> mid[k] == before[k],
                forall|k: int| 0 <= k < j ==> entry_le(mid[k], x),
            decreases i - j,
        {
            j = j + 1;
        }
        proof {
            if j < i {
                assert(!entry_le(mid[j as int], x));
                lemma_entry_le_total(mid[j as int], x);
                assert(entry_le(x, mid[j as int]));
            }
        }
        v.insert(j, x);
        proof {
            let after = v@;
            assert(after == mid.insert(j as int, x));
            lemma_insert_to_multiset(mid, j as int, x);
            assert(after.to_multiset() =~= before.to_multiset());
            // The prefix of length i + 1 is sorted again.
            assert forall|a: int, b: int| 0 <= a < b < i + 1 implies entry_le(after[a], after[b]) by {
                if b < j {
                    assert(after[a] == mid[a] && after[b] == mid[b]);
                } else if b == j {
                    assert(after[a] == mid[a]);
                    assert(after[b] == x);
                } else {
                    // b > j, so after[b] == mid[b - 1]
                    if a < j {
                        assert(after[a] == mid[a]);
                        assert(after[b] == mid[b - 1]);
                    } else if a == j {
                        assert(after[a] == x);
                        assert(after[b] == mid[b - 1]);
                        if j < i {
                            assert(entry_le(x, mid[j as int]));
                            if b - 1 > j {
                                assert(entry_le(mid[j as int], mid[b - 1]));
                                lemma_entry_le_trans(x, mid[j as int], mid[b - 1]);
                            }
                        }
                    } else {
                        assert(after[a] == mid[a - 1]);
                        assert(after[b] == mid[b - 1]);
                    }
                }
            }
        }
        i = i + 1;
    }
}

} // verus!
