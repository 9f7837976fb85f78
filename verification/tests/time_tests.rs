use ftime::model::{Label, TimeBucket};
use ftime::time::{classify_bucket, classify_label, relative_time, start_of_day};

// A fixed snapshot well away from any local midnight: noon UTC.
const NOW: i64 = 1_699_963_200;

#[test]
fn test_classify_bucket_boundaries() {
    let now = NOW;
    assert_eq!(classify_bucket(now, now - 10), TimeBucket::Active);
    assert_eq!(classify_bucket(now, now - 3599), TimeBucket::Active);

    // Today boundary
    let today_start = start_of_day(now);
    assert_eq!(classify_bucket(now, today_start + 10), TimeBucket::Today);

    // This week boundary
    assert_eq!(classify_bucket(now, now - 2 * 86_400), TimeBucket::ThisWeek);
    assert_eq!(classify_bucket(now, now - 6 * 86_400), TimeBucket::ThisWeek);
    assert_eq!(classify_bucket(now, now - 8 * 86_400), TimeBucket::History);
}

#[test]
fn test_relative_time_strings() {
    let now = NOW;
    let m = now - 30;
    assert_eq!(relative_time(now, m), "just now");
    let m = now - 5 * 60;
    assert_eq!(relative_time(now, m), "5 mins ago");
    let m = now - 3600;
    assert_eq!(relative_time(now, m), "1 hour ago");
    let m = now - 3 * 3600;
    assert_eq!(relative_time(now, m), "3 hours ago");
    let m = now - 86_400;
    assert_eq!(relative_time(now, m), "Yesterday");
    let m = now - 3 * 86_400;
    assert_eq!(relative_time(now, m), "3 days ago");
}

#[test]
fn bucket_boundary_at_exact_midnight() {
    let today_start = start_of_day(NOW);
    // Exactly at the day boundary: Today. One second before: ThisWeek,
    // since less than seven days have elapsed.
    assert_eq!(classify_bucket(NOW, today_start), TimeBucket::Today);
    assert_eq!(classify_bucket(NOW, today_start - 1), TimeBucket::ThisWeek);
}

#[test]
fn bucket_boundary_at_seven_days() {
    assert_eq!(classify_bucket(NOW, NOW - (7 * 86_400 - 1)), TimeBucket::ThisWeek);
    assert_eq!(classify_bucket(NOW, NOW - (7 * 86_400 + 1)), TimeBucket::History);
}

#[test]
fn future_mtime_is_active() {
    assert_eq!(classify_bucket(NOW, NOW + 50_000), TimeBucket::Active);
}

#[test]
fn label_window_is_five_minutes() {
    assert_eq!(classify_label(NOW, NOW - 300), Some(Label::Fresh));
    assert_eq!(classify_label(NOW, NOW - 301), None);
    // A future timestamp counts as zero elapsed, so it is Fresh.
    assert_eq!(classify_label(NOW, NOW + 10), Some(Label::Fresh));
}

#[test]
fn relative_time_singular_and_plural() {
    assert_eq!(relative_time(NOW, NOW - 60), "1 min ago");
    assert_eq!(relative_time(NOW, NOW - 120), "2 mins ago");
    assert_eq!(relative_time(NOW, NOW - 59), "just now");
    assert_eq!(relative_time(NOW, NOW + 500), "just now");
    assert_eq!(relative_time(NOW, NOW - 2 * 86_400), "2 days ago");
    assert_eq!(relative_time(NOW, NOW - 6 * 86_400), "6 days ago");
}

#[test]
fn relative_time_far_past_is_a_calendar_date() {
    // NOW is 2023-11-14 12:00:00 UTC; ten days earlier is rendered as an
    // absolute local date.
    let r = relative_time(NOW, NOW - 10 * 86_400);
    assert_eq!(r.len(), 10);
    assert!(r.contains('-'));
    assert_ne!(r, "just now");
}

#[test]
fn start_of_day_is_recent_and_not_after_noon() {
    // Noon does not sit inside a daylight-saving fold in this machine's
    // zone, so the computed boundary lies at most a day back and not after
    // the snapshot.
    let ds = start_of_day(NOW);
    assert!(ds <= NOW);
    assert!(NOW - ds < 2 * 86_400);
}
