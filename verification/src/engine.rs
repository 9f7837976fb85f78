//! The scan-filter-classify engine: per-entry visibility (hidden-file
//! policy, ignore rules, extension filter), deterministic ordering, and the
//! partition of a sorted listing into the four time buckets.

use vstd::prelude::*;

use crate::ignore::{ignored_spec, is_ignored, pattern_views};
use crate::model::{FileEntry, Label, TimeBucket};
use crate::sort::{entries_sorted, sort_entries};
use crate::text::{ascii_lower, lower_eq};
use crate::time::{bucket_spec, classify_bucket_at, classify_label, label_spec, start_of_day};

verus! {

/// Caller-supplied policy for one scan, immutable for its duration.
pub struct ScanOptions {
    /// Show entries whose name starts with a dot.
    pub include_hidden: bool,
    /// When present: only plain files whose lower-cased extension is in this
    /// list pass; directories and symlinks are excluded outright.
    pub ext_filter: Option<Vec<String>>,
    /// Disable all ignore-pattern evaluation, built-in defaults included.
    pub no_ignore: bool,
    /// Ordered user-global ignore patterns.
    pub ignore_patterns: Vec<String>,
    /// Ordered per-directory ignore patterns.
    pub local_ignore_patterns: Vec<String>,
    /// Suppress freshness-label computation.
    pub no_labels: bool,
}

/// What one scan hands downstream: the filtered, sorted listing and the one
/// snapshot timestamp every later classification must reuse.
pub struct ScanResult {
    pub entries: Vec<FileEntry>,
    pub now: i64,
}

/// The sorted entry list partitioned into the four buckets, each preserving
/// the scan's order.
pub struct Bucketed {
    pub active: Vec<FileEntry>,
    pub today: Vec<FileEntry>,
    pub week: Vec<FileEntry>,
    pub history: Vec<FileEntry>,
}

/// Index of the last `.` in `name`, or -1 when there is none.
pub open spec fn last_dot_index(name: Seq<char>) -> int
    decreases name.len(),
{
    if name.len() == 0 {
        -1
    } else if name.last() == '.' {
        name.len() - 1
    } else {
        last_dot_index(name.drop_last())
    }
}

/// The extension of a name: what follows the last `.`, provided that dot is
/// neither the first character nor absent.
pub open spec fn ext_of(name: Seq<char>) -> Option<Seq<char>> {
    let i = last_dot_index(name);
    if i >= 1 {
        Some(name.skip(i + 1))
    } else {
        None
    }
}

/// Whether the name's lower-cased extension is one of the allowed ones.
pub open spec fn ext_allowed_spec(name: Seq<char>, allowed: Seq<Seq<char>>) -> bool {
    match ext_of(name) {
        Some(e) => allowed.contains(ascii_lower(e)),
        None => false,
    }
}

/// Finds the extension's starting index in `name`, if it has one.
fn find_ext_start(name: &str) -> (r: Option<usize>)
    ensures
        match r {
            Some(i) => last_dot_index(name@) == i - 1 && i >= 2 && i <= name@.len(),
            None => ext_of(name@) is None,
        },
{
    let l = name.unicode_len();
    let mut k: usize = l;
    proof {
        assert(name@.subrange(0, l as int) =~= name@);
    }
    while k > 0
        invariant
            l == name@.len(),
            k <= l,
            last_dot_index(name@) == last_dot_index(name@.subrange(0, k as int)),
        decreases k,
    {
        let ghost piece = name@.subrange(0, k as int);
        if name.get_char(k - 1) == '.' {
            assert(piece.last() == '.');
            assert(last_dot_index(piece) == k - 1);
            if k >= 2 {
                return Some(k);
            } else {
                return None;
            }
        }
        proof {
            assert(piece.last() != '.');
            assert(piece.drop_last() =~= name@.subrange(0, k as int - 1));
            assert(last_dot_index(piece) == last_dot_index(piece.drop_last()));
        }
        k = k - 1;
    }
    assert(last_dot_index(name@.subrange(0, 0)) == -1);
    None
}

/// Whether `name` passes the extension allow-list, case-insensitively.
fn ext_allowed(name: &str, allowed: &Vec<String>) -> (r: bool)
    ensures
        r == ext_allowed_spec(name@, pattern_views(allowed@)),
{
    let start = match find_ext_start(name) {
        Some(i) => i,
        None => {
            return false;
        },
    };
    let l = name.unicode_len();
    let e = name.substring_char(start, l);
    proof {
        assert(e@ =~= name@.skip(start as int));
        assert(ext_of(name@) == Some(e@));
    }
    let ghost target = ascii_lower(e@);
    let mut i: usize = 0;
    while i < allowed.len()
        invariant
            target == ascii_lower(e@),
            ext_of(name@) == Some(e@),
            i <= allowed@.len(),
            forall|m: int| 0 <= m < i ==> #[trigger] pattern_views(allowed@)[m] != target,
        decreases allowed@.len() - i,
    {
        if lower_eq(e, allowed[i].as_str()) {
            assert(pattern_views(allowed@)[i as int] == target);
            assert(pattern_views(allowed@).contains(target));
            assert(ext_of(name@) == Some(e@));
            return true;
        }
        i = i + 1;
    }
    assert(!pattern_views(allowed@).contains(target));
    false
}

/// Whether the entry survives the scan's filter chain: the ignore rules
/// (unless disabled), then the hidden-name policy, then the extension
/// filter.
pub open spec fn visible_spec(e: FileEntry, opts: ScanOptions, root: Seq<char>) -> bool {
    &&& (opts.no_ignore || !ignored_spec(
        e.name@,
        e.path@,
        root,
        pattern_views(opts.ignore_patterns@),
        pattern_views(opts.local_ignore_patterns@),
    ))
    &&& (opts.include_hidden || !(e.name@.len() > 0 && e.name@[0] == '.'))
    &&& match opts.ext_filter {
        Some(list) => !e.is_dir && !e.is_symlink && ext_allowed_spec(
            e.name@,
            pattern_views(list@),
        ),
        None => true,
    }
}

/// The visibility predicate for one scan's options.
pub open spec fn visible_pred(opts: ScanOptions, root: Seq<char>) -> spec_fn(FileEntry) -> bool {
    |e: FileEntry| visible_spec(e, opts, root)
}

/// Decides whether one entry is visible under the scan's configuration.
pub fn is_visible(entry: &FileEntry, root: &str, opts: &ScanOptions) -> (r: bool)
    ensures
        r == visible_spec(*entry, *opts, root@),
{
    if !opts.no_ignore && is_ignored(
        entry.name.as_str(),
        entry.path.as_str(),
        root,
        &opts.ignore_patterns,
        &opts.local_ignore_patterns,
    ) {
        return false;
    }
    if !opts.include_hidden {
        let name = entry.name.as_str();
        if name.unicode_len() > 0 && name.get_char(0) == '.' {
            return false;
        }
    }
    match &opts.ext_filter {
        Some(list) => {
            if entry.is_dir || entry.is_symlink {
                false
            } else {
                ext_allowed(entry.name.as_str(), list)
            }
        },
        None => true,
    }
}

proof fn lemma_filter_push<A>(s: Seq<A>, x: A, pred: spec_fn(A) -> bool)
    ensures
        (s.push(x)).filter(pred) == (if pred(x) {
            s.filter(pred).push(x)
        } else {
            s.filter(pred)
        }),
{
    reveal(Seq::filter);
    assert((s.push(x)).drop_last() =~= s);
}

/// Applies the visibility filters to a raw listing and sorts the survivors
/// into scanner order: exactly the visible entries come back, most recent
/// first, names ascending on ties.
pub fn process_entries(entries: Vec<FileEntry>, root: &str, opts: &ScanOptions) -> (r: Vec<
    FileEntry,
>)
    ensures
        r@.to_multiset() == entries@.filter(visible_pred(*opts, root@)).to_multiset(),
        entries_sorted(r@),
{
    let ghost orig = entries@;
    let ghost pred = visible_pred(*opts, root@);
    let mut src = entries;
    let mut kept: Vec<FileEntry> = Vec::new();
    let ghost mut done: int = 0;
    proof {
        assert(orig.subrange(0, 0).filter(pred) =~= Seq::<FileEntry>::empty());
        assert(src@ =~= orig.skip(0));
    }
    while src.len() > 0
        invariant
            0 <= done <= orig.len(),
            done + src@.len() == orig.len(),
            src@ == orig.skip(done),
            kept@ == orig.subrange(0, done).filter(pred),
            pred == visible_pred(*opts, root@),
        decreases src@.len(),
    {
        let e = src.remove(0);
        proof {
            assert(e == orig[done]);
            assert(src@ =~= orig.skip(done + 1));
        }
        let keep = is_visible(&e, root, opts);
        proof {
            assert(orig.subrange(0, done + 1).drop_last() =~= orig.subrange(0, done));
            assert(orig.subrange(0, done + 1) =~= orig.subrange(0, done).push(orig[done]));
            lemma_filter_push(orig.subrange(0, done), orig[done], pred);
        }
        if keep {
            kept.push(e);
        }
        proof {
            done = done + 1;
        }
    }
    proof {
        assert(orig.subrange(0, orig.len() as int) =~= orig);
    }
    sort_entries(&mut kept);
    kept
}

/// The entry as the bucketizer hands it on: its freshness label is computed
/// and attached unless labels are disabled or one is already present.
pub open spec fn with_label(e: FileEntry, now: int, no_labels: bool) -> FileEntry {
    if no_labels || e.label is Some {
        e
    } else {
        FileEntry { label: label_spec(now, e.mtime as int), ..e }
    }
}

/// The listing after label attachment, in unchanged order.
pub open spec fn labeled_entries(s: Seq<FileEntry>, now: int, no_labels: bool) -> Seq<FileEntry> {
    s.map_values(|e: FileEntry| with_label(e, now, no_labels))
}

proof fn lemma_labeled_push(s: Seq<FileEntry>, x: FileEntry, now: int, no_labels: bool)
    ensures
        labeled_entries(s.push(x), now, no_labels) == labeled_entries(s, now, no_labels).push(
            with_label(x, now, no_labels),
        ),
{
    let f = |e: FileEntry| with_label(e, now, no_labels);
    let a = s.push(x).map_values(f);
    let b = s.map_values(f).push(f(x));
    assert forall|m: int| 0 <= m < a.len() implies a[m] == b[m] by {
        if m < s.len() {
            assert(s.push(x)[m] == s[m]);
        } else {
            assert(s.push(x)[m] == x);
        }
    }
    assert(a =~= b);
}

/// The predicate selecting the entries of one bucket.
pub open spec fn in_bucket(now: int, day_start: int, b: TimeBucket) -> spec_fn(FileEntry) -> bool {
    |e: FileEntry| bucket_spec(now, e.mtime as int, day_start) == b
}

/// The four bucket sequences are exactly the labeled listing split by
/// classification, each in the listing's own order.
pub open spec fn is_bucketization(
    r: Bucketed,
    entries: Seq<FileEntry>,
    now: int,
    day_start: int,
    no_labels: bool,
) -> bool {
    let labeled = labeled_entries(entries, now, no_labels);
    &&& r.active@ == labeled.filter(in_bucket(now, day_start, TimeBucket::Active))
    &&& r.today@ == labeled.filter(in_bucket(now, day_start, TimeBucket::Today))
    &&& r.week@ == labeled.filter(in_bucket(now, day_start, TimeBucket::ThisWeek))
    &&& r.history@ == labeled.filter(in_bucket(now, day_start, TimeBucket::History))
}

/// Law: for an entry that reaches the bucketizer without a label, labelling
/// attaches Fresh exactly when no more than five minutes have elapsed, a
/// future timestamp counting as zero elapsed; with labels disabled, no
/// entry gets one, whatever its age.
pub proof fn lemma_label_rule(e: FileEntry, now: int)
    requires
        e.label is None,
    ensures
        with_label(e, now, false).label == (if now - e.mtime <= 300 {
            Some(Label::Fresh)
        } else {
            None::<Label>
        }),
        with_label(e, now, true).label == None::<Label>,
{
}

fn attach_label(e: FileEntry, now: i64, no_labels: bool) -> (r: FileEntry)
    ensures
        r == with_label(e, now as int, no_labels),
{
    if no_labels {
        e
    } else if e.label.is_some() {
        e
    } else {
        let l = classify_label(now, e.mtime);
        let FileEntry { path, name, is_dir, mtime, is_symlink, symlink_target, label: _ } = e;
        FileEntry { path, name, is_dir, mtime, is_symlink, symlink_target, label: l }
    }
}

/// Partitions the listing into buckets against an explicitly supplied day
/// boundary: labels are attached, every entry lands in exactly the bucket
/// its timestamp classifies to, order is preserved within each bucket, and
/// the four lengths add up to the input length.
pub fn bucketize_at(entries: Vec<FileEntry>, now: i64, day_start: i64, opts: &ScanOptions) -> (r:
    Bucketed)
    ensures
        is_bucketization(r, entries@, now as int, day_start as int, opts.no_labels),
        r.active@.len() + r.today@.len() + r.week@.len() + r.history@.len() == entries@.len(),
{
    let ghost orig = entries@;
    let ghost nowi = now as int;
    let ghost dsi = day_start as int;
    let ghost pa = in_bucket(nowi, dsi, TimeBucket::Active);
    let ghost pt = in_bucket(nowi, dsi, TimeBucket::Today);
    let ghost pw = in_bucket(nowi, dsi, TimeBucket::ThisWeek);
    let ghost ph = in_bucket(nowi, dsi, TimeBucket::History);
    let mut src = entries;
    let mut active: Vec<FileEntry> = Vec::new();
    let mut today: Vec<FileEntry> = Vec::new();
    let mut week: Vec<FileEntry> = Vec::new();
    let mut history: Vec<FileEntry> = Vec::new();
    let ghost mut done: int = 0;
    proof {
        assert(src@ =~= orig.skip(0));
        assert(labeled_entries(orig.subrange(0, 0), nowi, opts.no_labels) =~= Seq::<
            FileEntry,
        >::empty());
        assert(Seq::<FileEntry>::empty().filter(pa) =~= Seq::<FileEntry>::empty());
        assert(Seq::<FileEntry>::empty().filter(pt) =~= Seq::<FileEntry>::empty());
        assert(Seq::<FileEntry>::empty().filter(pw) =~= Seq::<FileEntry>::empty());
        assert(Seq::<FileEntry>::empty().filter(ph) =~= Seq::<FileEntry>::empty());
    }
    while src.len() > 0
        invariant
            0 <= done <= orig.len(),
            done + src@.len() == orig.len(),
            src@ == orig.skip(done),
            nowi == now as int,
            dsi == day_start as int,
            pa == in_bucket(nowi, dsi, TimeBucket::Active),
            pt == in_bucket(nowi, dsi, TimeBucket::Today),
            pw == in_bucket(nowi, dsi, TimeBucket::ThisWeek),
            ph == in_bucket(nowi, dsi, TimeBucket::History),
            active@ == labeled_entries(orig.subrange(0, done), nowi, opts.no_labels).filter(pa),
            today@ == labeled_entries(orig.subrange(0, done), nowi, opts.no_labels).filter(pt),
            week@ == labeled_entries(orig.subrange(0, done), nowi, opts.no_labels).filter(pw),
            history@ == labeled_entries(orig.subrange(0, done), nowi, opts.no_labels).filter(ph),
            active@.len() + today@.len() + week@.len() + history@.len() == done,
        decreases src@.len(),
    {
        let e = src.remove(0);
        proof {
            assert(e == orig[done]);
            assert(src@ =~= orig.skip(done + 1));
        }
        let le = attach_label(e, now, opts.no_labels);
        let b = classify_bucket_at(now, le.mtime, day_start);
        proof {
            let prev = labeled_entries(orig.subrange(0, done), nowi, opts.no_labels);
            let next = labeled_entries(orig.subrange(0, done + 1), nowi, opts.no_labels);
            assert(le == with_label(orig[done], nowi, opts.no_labels));
            assert(orig.subrange(0, done + 1) =~= orig.subrange(0, done).push(orig[done]));
            lemma_labeled_push(orig.subrange(0, done), orig[done], nowi, opts.no_labels);
            assert(next == prev.push(le));
            lemma_filter_push(prev, le, pa);
            lemma_filter_push(prev, le, pt);
            lemma_filter_push(prev, le, pw);
            lemma_filter_push(prev, le, ph);
        }
        match b {
            TimeBucket::Active => active.push(le),
            TimeBucket::Today => today.push(le),
            TimeBucket::ThisWeek => week.push(le),
            TimeBucket::History => history.push(le),
        }
        proof {
            done = done + 1;
        }
    }
    proof {
        assert(orig.subrange(0, orig.len() as int) =~= orig);
    }
    Bucketed { active, today, week, history }
}

/// Partitions the listing into the four buckets. The local day boundary is
/// sampled once from the calendar, so the whole partition is judged against
/// a single boundary at or before `now`; no entry is dropped or duplicated.
pub fn bucketize(entries: Vec<FileEntry>, now: i64, opts: &ScanOptions) -> (r: Bucketed)
    ensures
        exists|ds: int|
            ds <= now && is_bucketization(r, entries@, now as int, ds, opts.no_labels),
        r.active@.len() + r.today@.len() + r.week@.len() + r.history@.len() == entries@.len(),
{
    // The calendar's reading of midnight can fall after `now` around a
    // daylight-saving fold; the boundary used is never after `now`.
    let ds = start_of_day(now);
    let ds2 = if ds > now {
        now
    } else {
        ds
    };
    let ghost snap = entries@;
    let r = bucketize_at(entries, now, ds2, opts);
    proof {
        assert(ds2 as int <= now as int && is_bucketization(
            r,
            snap,
            now as int,
            ds2 as int,
            opts.no_labels,
        ));
    }
    r
}

impl Bucketed {
    /// Total number of entries across the four buckets; for a result of
    /// `bucketize` this equals the number of entries handed in.
    pub fn total(&self) -> (r: usize)
        requires
            self.active@.len() + self.today@.len() + self.week@.len() + self.history@.len()
                <= usize::MAX,
        ensures
            r == self.active@.len() + self.today@.len() + self.week@.len() + self.history@.len(),
    {
        self.active.len() + self.today.len() + self.week.len() + self.history.len()
    }
}

} // verus!
