//! Time classification: maps an elapsed duration plus local calendar context
//! to one of four buckets, computes the short-lived freshness label, and
//! renders a human-readable relative-time string.
//!
//! The snapshot time `now` and every modification time are whole seconds
//! since the Unix epoch. Only the local-midnight computation and the
//! calendar-date rendering touch the system's time zone; both sit behind
//! trusted wrappers, and everything else is judged purely from the numbers.

use vstd::prelude::*;

use crate::model::{Label, TimeBucket};

verus! {

/// Which bucket a modification time falls in, judged against the snapshot
/// `now` and the start of `now`'s local calendar day. A future timestamp is
/// Active, as is anything under an hour old; anything at or after the day
/// boundary is Today; the rest splits at seven days.
pub open spec fn bucket_spec(now: int, mtime: int, day_start: int) -> TimeBucket {
    if mtime > now {
        TimeBucket::Active
    } else if now - mtime < 3600 {
        TimeBucket::Active
    } else if mtime >= day_start {
        TimeBucket::Today
    } else if now - mtime < 604800 {
        TimeBucket::ThisWeek
    } else {
        TimeBucket::History
    }
}

/// The freshness label: present exactly when no more than five minutes have
/// elapsed, a future timestamp counting as zero elapsed.
pub open spec fn label_spec(now: int, mtime: int) -> Option<Label> {
    if now - mtime <= 300 {
        Some(Label::Fresh)
    } else {
        None
    }
}

/// Buckets a modification time against an explicitly supplied day boundary.
pub fn classify_bucket_at(now: i64, mtime: i64, day_start: i64) -> (r: TimeBucket)
    ensures
        r == bucket_spec(now as int, mtime as int, day_start as int),
{
    if mtime > now {
        TimeBucket::Active
    } else {
        let elapsed: i128 = now as i128 - mtime as i128;
        if elapsed < 3600 {
            TimeBucket::Active
        } else if mtime >= day_start {
            TimeBucket::Today
        } else if elapsed < 604800 {
            TimeBucket::ThisWeek
        } else {
            TimeBucket::History
        }
    }
}

/// Relies on chrono's `Local::timestamp_opt`, `Local::with_ymd_and_hms` and
/// `DateTime::timestamp`: the result is chrono's `earliest()` reading of
/// midnight of `ts`'s local calendar day; where that midnight does not exist
/// or `ts` is outside the calendar's range, `ts` itself comes back. Around a
/// daylight-saving fold that reading can land after `ts` itself, so nothing
/// is promised here; verified callers clamp the result to `ts`.
#[verifier::external_body]
pub fn start_of_day(ts: i64) -> (r: i64) {
    let dt = match chrono::TimeZone::timestamp_opt(&chrono::Local, ts, 0).earliest() {
        Some(t) => t,
        None => return ts,
    };
    let (y, m, d) = (
        chrono::Datelike::year(&dt),
        chrono::Datelike::month(&dt),
        chrono::Datelike::day(&dt),
    );
    match chrono::TimeZone::with_ymd_and_hms(&chrono::Local, y, m, d, 0, 0, 0).earliest() {
        Some(t) => t.timestamp(),
        None => ts,
    }
}

/// Relies on chrono's `DateTime::format` with `%Y-%m-%d`: renders the
/// timestamp as a calendar date in the machine's local time zone, or as an
/// empty string where the timestamp is outside the calendar's range. A
/// rendered date is at least ten characters: the year four or more, the
/// month and day two each, and two dashes.
#[verifier::external_body]
fn format_local_date(ts: i64) -> (r: String)
    ensures
        r@.len() == 0 || r@.len() >= 10,
{
    match chrono::TimeZone::timestamp_opt(&chrono::Local, ts, 0).earliest() {
        Some(dt) => dt.format("%Y-%m-%d").to_string(),
        None => String::new(),
    }
}

/// Buckets a modification time, computing the local day boundary from the
/// calendar. The boundary is sampled once per call, so every clause below
/// holds for one single boundary at or before `now`.
pub fn classify_bucket(now: i64, mtime: i64) -> (r: TimeBucket)
    ensures
        exists|ds: int| ds <= now && r == bucket_spec(now as int, mtime as int, ds),
        r is Active <==> (mtime > now || now - mtime < 3600),
        r is Today ==> mtime <= now && now - mtime >= 3600,
        r is ThisWeek ==> 3600 <= now - mtime < 604800,
        r is History ==> now - mtime >= 604800,
{
    // The calendar's reading of midnight can fall after `now` around a
    // daylight-saving fold; the boundary used is never after `now`.
    let ds = start_of_day(now);
    let ds2 = if ds > now {
        now
    } else {
        ds
    };
    let r = classify_bucket_at(now, mtime, ds2);
    proof {
        assert(ds2 as int <= now as int && r == bucket_spec(now as int, mtime as int, ds2 as int));
    }
    r
}

/// Computes the freshness label for a modification time.
pub fn classify_label(now: i64, mtime: i64) -> (r: Option<Label>)
    ensures
        r == label_spec(now as int, mtime as int),
{
    if mtime > now {
        Some(Label::Fresh)
    } else {
        let elapsed: i128 = now as i128 - mtime as i128;
        if elapsed <= 300 {
            Some(Label::Fresh)
        } else {
            None
        }
    }
}

/// Law: classification is total — every timestamp lands in one of the four
/// buckets — and under an hour of elapsed time the bucket is Active no
/// matter where the calendar puts the day boundary.
pub proof fn lemma_bucket_partition(now: int, mtime: int, day_start: int)
    ensures
        bucket_spec(now, mtime, day_start) is Active || bucket_spec(now, mtime, day_start) is Today
            || bucket_spec(now, mtime, day_start) is ThisWeek || bucket_spec(
            now,
            mtime,
            day_start,
        ) is History,
        now - mtime < 3600 ==> bucket_spec(now, mtime, day_start) is Active,
        bucket_spec(now, mtime, day_start) is Active <==> (mtime > now || now - mtime < 3600),
{
}

/// Law: a timestamp exactly at the local midnight of `now`'s day is Today,
/// and one second before that midnight falls to ThisWeek or History by the
/// seven-day rule. Requires at least an hour elapsed since midnight: closer
/// to `now` than that, everything is Active.
pub proof fn lemma_midnight_boundary(now: int, day_start: int)
    requires
        day_start <= now,
        now - day_start >= 3600,
    ensures
        bucket_spec(now, day_start, day_start) is Today,
        bucket_spec(now, day_start - 1, day_start) == (if now - (day_start - 1) < 604800 {
            TimeBucket::ThisWeek
        } else {
            TimeBucket::History
        }),
{
}

/// Law: for an entry older than the day boundary, an elapsed time one second
/// under seven days is ThisWeek and one second over is History.
pub proof fn lemma_week_boundary(now: int, mtime: int, day_start: int)
    requires
        mtime < day_start,
    ensures
        now - mtime == 604799 ==> bucket_spec(now, mtime, day_start) is ThisWeek,
        now - mtime == 604801 ==> bucket_spec(now, mtime, day_start) is History,
{
}

/// The decimal digit character for `d`.
pub open spec fn dec_digit(d: int) -> char {
    ((d + 48) as u8) as char
}

/// The decimal numeral of a nonnegative integer.
pub open spec fn dec_str(n: int) -> Seq<char>
    decreases n,
{
    if n < 0 {
        Seq::empty()
    } else if n < 10 {
        seq![dec_digit(n)]
    } else {
        dec_str(n / 10).push(dec_digit(n % 10))
    }
}

/// A decimal numeral is never empty.
pub proof fn lemma_dec_str_len(n: int)
    requires
        n >= 0,
    ensures
        dec_str(n).len() >= 1,
    decreases n,
{
    if n >= 10 {
        lemma_dec_str_len(n / 10);
    }
}

fn digit_str(d: u64) -> (r: &'static str)
    requires
        d < 10,
    ensures
        r@ == seq![dec_digit(d as int)],
{
    proof {
        reveal_strlit("0");
        reveal_strlit("1");
        reveal_strlit("2");
        reveal_strlit("3");
        reveal_strlit("4");
        reveal_strlit("5");
        reveal_strlit("6");
        reveal_strlit("7");
        reveal_strlit("8");
        reveal_strlit("9");
    }
    match d {
        0 => "0",
        1 => "1",
        2 => "2",
        3 => "3",
        4 => "4",
        5 => "5",
        6 => "6",
        7 => "7",
        8 => "8",
        _ => "9",
    }
}

/// Appends the decimal numeral of `n` to `s`.
fn push_dec(s: &mut String, n: u64)
    ensures
        final(s)@ == old(s)@ + dec_str(n as int),
    decreases n,
{
    if n < 10 {
        s.append(digit_str(n));
        assert(old(s)@ + seq![dec_digit(n as int)] =~= old(s)@ + dec_str(n as int));
    } else {
        push_dec(s, n / 10);
        s.append(digit_str(n % 10));
        assert(old(s)@ + dec_str(n as int / 10) + seq![dec_digit(n as int % 10)] =~= old(s)@
            + dec_str(n as int));
    }
}

/// The human-readable relative-time string for elapsed times under seven
/// days: thresholds go by truncated division of elapsed seconds, and a
/// future timestamp reads "just now".
pub open spec fn rel_time_spec(now: int, mtime: int) -> Seq<char> {
    let e = now - mtime;
    if e < 60 {
        "just now"@
    } else if e < 120 {
        "1 min ago"@
    } else if e < 3600 {
        dec_str(e / 60) + " mins ago"@
    } else if e < 7200 {
        "1 hour ago"@
    } else if e < 86400 {
        dec_str(e / 3600) + " hours ago"@
    } else if e < 172800 {
        "Yesterday"@
    } else {
        dec_str(e / 86400) + " days ago"@
    }
}

/// Renders the relative age of a modification time. Under seven days the
/// result is fully determined by the two timestamps; from seven days on it
/// is `mtime`'s calendar date as the machine's local time zone renders it,
/// which is never mistakable for the relative phrases.
pub fn relative_time(now: i64, mtime: i64) -> (r: String)
    ensures
        now - mtime < 604800 ==> r@ == rel_time_spec(now as int, mtime as int),
        now - mtime >= 604800 ==> r@.len() == 0 || r@.len() >= 10,
        (r@ == "just now"@) <==> now - mtime < 60,
{
    proof {
        reveal_strlit("just now");
        reveal_strlit("1 min ago");
        reveal_strlit(" mins ago");
        reveal_strlit("1 hour ago");
        reveal_strlit(" hours ago");
        reveal_strlit("Yesterday");
        reveal_strlit(" days ago");
        assert("just now"@.len() == 8);
    }
    let e: i128 = now as i128 - mtime as i128;
    if e < 60 {
        let s = String::from_str("just now");
        assert(s@ == "just now"@);
        s
    } else if e < 120 {
        let s = String::from_str("1 min ago");
        assert(s@.len() == 9);
        s
    } else if e < 3600 {
        let mut s = String::new();
        push_dec(&mut s, (e / 60) as u64);
        s.append(" mins ago");
        proof {
            lemma_dec_str_len(e as int / 60);
        }
        assert(s@.len() >= 10);
        s
    } else if e < 7200 {
        let s = String::from_str("1 hour ago");
        assert(s@.len() == 10);
        s
    } else if e < 86400 {
        let mut s = String::new();
        push_dec(&mut s, (e / 3600) as u64);
        s.append(" hours ago");
        proof {
            lemma_dec_str_len(e as int / 3600);
        }
        assert(s@.len() >= 11);
        s
    } else if e < 172800 {
        let s = String::from_str("Yesterday");
        assert(s@.len() == 9);
        s
    } else if e < 604800 {
        let mut s = String::new();
        push_dec(&mut s, (e / 86400) as u64);
        s.append(" days ago");
        proof {
            lemma_dec_str_len(e as int / 86400);
        }
        assert(s@.len() >= 10);
        s
    } else {
        let s = format_local_date(mtime);
        assert(s@.len() == 0 || s@.len() >= 10);
        s
    }
}

} // verus!
