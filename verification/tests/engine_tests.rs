use ftime::engine::{bucketize, is_visible, process_entries, ScanOptions};
use ftime::model::{bucket_key, FileEntry, Label, TimeBucket};
use ftime::sort::sort_entries;
use ftime::icon::{DefaultIconProvider, IconProvider, NerdIconProvider};

// A fixed snapshot well away from any local midnight: noon UTC.
const NOW: i64 = 1_699_963_200;

fn entry(name: &str, mtime: i64) -> FileEntry {
    FileEntry {
        path: format!("/t/{}", name),
        name: name.to_string(),
        is_dir: false,
        mtime,
        is_symlink: false,
        symlink_target: None,
        label: None,
    }
}

fn default_opts() -> ScanOptions {
    ScanOptions {
        include_hidden: false,
        ext_filter: None,
        no_ignore: false,
        ignore_patterns: Vec::new(),
        local_ignore_patterns: Vec::new(),
        no_labels: false,
    }
}

#[test]
fn bucketize_groups_correctly() {
    let now = NOW;
    let mk = |delta_secs: i64| entry("x", now - delta_secs);
    let entries = vec![
        mk(10),            // active
        mk(4000),          // today (~1.1h)
        mk(2 * 24 * 3600), // week
        mk(8 * 24 * 3600), // history
    ];
    let b = bucketize(entries, now, &default_opts());
    assert_eq!(b.active.len(), 1);
    assert_eq!(b.today.len(), 1);
    assert_eq!(b.week.len(), 1);
    assert_eq!(b.history.len(), 1);
}

#[test]
fn bucketize_total_counts_every_entry() {
    let entries = vec![
        entry("a", NOW - 5),
        entry("b", NOW - 5000),
        entry("c", NOW - 3 * 86_400),
        entry("d", NOW - 9 * 86_400),
        entry("e", NOW - 20 * 86_400),
    ];
    let n = entries.len();
    let b = bucketize(entries, NOW, &default_opts());
    assert_eq!(b.total(), n);
}

#[test]
fn bucketize_attaches_fresh_label_within_window() {
    let entries = vec![entry("new", NOW - 300), entry("older", NOW - 301)];
    let b = bucketize(entries, NOW, &default_opts());
    assert_eq!(b.active.len(), 2);
    let new_entry = b.active.iter().find(|e| e.name == "new").unwrap();
    let older_entry = b.active.iter().find(|e| e.name == "older").unwrap();
    assert_eq!(new_entry.label, Some(Label::Fresh));
    assert_eq!(older_entry.label, None);
}

#[test]
fn bucketize_no_labels_suppresses_all_labels() {
    let entries = vec![entry("new", NOW - 10), entry("old", NOW - 9 * 86_400)];
    let mut opts = default_opts();
    opts.no_labels = true;
    let b = bucketize(entries, NOW, &opts);
    for e in b.active.iter().chain(b.history.iter()) {
        assert_eq!(e.label, None);
    }
    assert_eq!(b.total(), 2);
}

#[test]
fn sort_is_mtime_descending_with_name_tiebreak() {
    let mut v = vec![
        entry("zeta", NOW - 100),
        entry("alpha", NOW - 100),
        entry("old", NOW - 5000),
        entry("newest", NOW - 1),
    ];
    sort_entries(&mut v);
    let names: Vec<&str> = v.iter().map(|e| e.name.as_str()).collect();
    assert_eq!(names, vec!["newest", "alpha", "zeta", "old"]);
}

#[test]
fn process_entries_hides_dotfiles_by_default() {
    let raw = vec![entry("visible", NOW - 10), entry(".hidden", NOW - 10)];
    let got = process_entries(raw, "/t", &default_opts());
    assert_eq!(got.len(), 1);
    assert_eq!(got[0].name, "visible");

    let raw = vec![entry("visible", NOW - 10), entry(".hidden", NOW - 10)];
    let mut opts = default_opts();
    opts.include_hidden = true;
    let got = process_entries(raw, "/t", &opts);
    assert_eq!(got.len(), 2);
}

#[test]
fn process_entries_ignore_precedence_and_no_ignore() {
    let raw = || vec![entry("keep.log", NOW - 10), entry("skip.tmp", NOW - 10)];
    let mut opts = default_opts();
    opts.ignore_patterns = vec!["*.tmp".to_string()];
    let got = process_entries(raw(), "/t", &opts);
    assert_eq!(got.len(), 1);
    assert_eq!(got[0].name, "keep.log");

    // Disabling ignore evaluation reveals the entry again.
    opts.no_ignore = true;
    let got = process_entries(raw(), "/t", &opts);
    assert_eq!(got.len(), 2);
}

#[test]
fn process_entries_default_ignores_survive_include_hidden() {
    let raw = vec![
        entry("visible", NOW - 10),
        entry(".DS_Store", NOW - 10),
        entry("Thumbs.db", NOW - 10),
        entry(".hidden", NOW - 10),
    ];
    let mut opts = default_opts();
    opts.include_hidden = true;
    let got = process_entries(raw, "/t", &opts);
    let names: Vec<&str> = got.iter().map(|e| e.name.as_str()).collect();
    assert!(names.contains(&"visible"));
    assert!(names.contains(&".hidden"));
    assert!(!names.contains(&".DS_Store"));
    assert!(!names.contains(&"Thumbs.db"));
}

#[test]
fn ext_filter_is_case_insensitive_and_files_only() {
    let mut dir = entry("keepdir.rs", NOW - 10);
    dir.is_dir = true;
    let mut link = entry("keeplink.rs", NOW - 10);
    link.is_symlink = true;
    let raw = vec![
        entry("keep.rs", NOW - 10),
        entry("keep.RS", NOW - 10),
        entry("drop.txt", NOW - 10),
        entry("noext", NOW - 10),
        dir,
        link,
    ];
    let mut opts = default_opts();
    opts.ext_filter = Some(vec!["rs".to_string()]);
    let got = process_entries(raw, "/t", &opts);
    let mut names: Vec<&str> = got.iter().map(|e| e.name.as_str()).collect();
    names.sort();
    assert_eq!(names, vec!["keep.RS", "keep.rs"]);
}

#[test]
fn is_visible_applies_the_filter_chain() {
    let opts = default_opts();
    assert!(is_visible(&entry("a.txt", NOW), "/t", &opts));
    assert!(!is_visible(&entry(".dot", NOW), "/t", &opts));
    let mut opts2 = default_opts();
    opts2.ignore_patterns = vec!["a.*".to_string()];
    assert!(!is_visible(&entry("a.txt", NOW), "/t", &opts2));
}

#[test]
fn bucket_key_names_are_stable() {
    assert_eq!(bucket_key(TimeBucket::Active), "active");
    assert_eq!(bucket_key(TimeBucket::Today), "today");
    assert_eq!(bucket_key(TimeBucket::ThisWeek), "this_week");
    assert_eq!(bucket_key(TimeBucket::History), "history");
}

#[test]
fn buckets_preserve_scan_order() {
    // All four entries land in History; their relative order must match the
    // input order.
    let entries = vec![
        entry("b", NOW - 9 * 86_400),
        entry("a", NOW - 9 * 86_400),
        entry("c", NOW - 10 * 86_400),
    ];
    let b = bucketize(entries, NOW, &default_opts());
    let names: Vec<&str> = b.history.iter().map(|e| e.name.as_str()).collect();
    assert_eq!(names, vec!["b", "a", "c"]);
}

#[test]
fn default_icons_cover_every_bucket() {
    for b in [TimeBucket::Active, TimeBucket::Today, TimeBucket::ThisWeek, TimeBucket::History] {
        assert_eq!(DefaultIconProvider.bucket_icon(b).chars().count(), 1);
        assert_eq!(NerdIconProvider.bucket_icon(b).chars().count(), 1);
    }
    assert_eq!(DefaultIconProvider.bucket_icon(TimeBucket::Active), "\u{1F525}");
    assert_eq!(DefaultIconProvider.bucket_icon(TimeBucket::Today), "\u{2615}");
    assert_eq!(DefaultIconProvider.bucket_icon(TimeBucket::ThisWeek), "\u{1F4C5}");
    assert_eq!(DefaultIconProvider.bucket_icon(TimeBucket::History), "\u{1F4A4}");
}
