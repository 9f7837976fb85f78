//! Core data model: entries, time buckets, and labels.

use vstd::prelude::*;

verus! {

/// One of the four mutually exclusive freshness categories assigned per entry.
#[derive(Clone, Copy, PartialEq, Eq, Structural, Debug)]
pub enum TimeBucket {
    Active,
    Today,
    ThisWeek,
    History,
}

/// A secondary, optional freshness annotation, independent of the bucket.
#[derive(Clone, Copy, PartialEq, Eq, Structural, Debug)]
pub enum Label {
    Fresh,
}

/// One filesystem object at the scanned directory's top level.
///
/// The modification timestamp is in whole seconds since the Unix epoch,
/// captured once at scan time; after the scan the entry is immutable except
/// for label attachment.
#[derive(Clone, Debug)]
pub struct FileEntry {
    pub path: String,
    pub name: String,
    pub is_dir: bool,
    pub mtime: i64,
    pub is_symlink: bool,
    pub symlink_target: Option<String>,
    pub label: Option<Label>,
}

/// The stable lower-case key each bucket is reported under.
pub open spec fn bucket_key_spec(bucket: TimeBucket) -> Seq<char> {
    match bucket {
        TimeBucket::Active => "active"@,
        TimeBucket::Today => "today"@,
        TimeBucket::ThisWeek => "this_week"@,
        TimeBucket::History => "history"@,
    }
}

/// Machine-readable name of a bucket.
pub fn bucket_key(bucket: TimeBucket) -> (r: String)
    ensures
        r@ == bucket_key_spec(bucket),
{
    match bucket {
        TimeBucket::Active => String::from_str("active"),
        TimeBucket::Today => String::from_str("today"),
        TimeBucket::ThisWeek => String::from_str("this_week"),
        TimeBucket::History => String::from_str("history"),
    }
}

} // verus!
