//! Icon sets for the four buckets, used by interactive renderers.

use vstd::prelude::*;

use crate::model::TimeBucket;

verus! {

/// Supplies the glyph shown in front of a bucket's header.
pub trait IconProvider {
    /// One glyph per bucket.
    fn bucket_icon(&self, bucket: TimeBucket) -> (r: &'static str)
        ensures
            r@.len() == 1,
    ;
}

/// The default emoji icon set.
pub struct DefaultIconProvider;

/// The glyph `DefaultIconProvider` assigns to each bucket: fire, coffee,
/// calendar, and sleep.
pub open spec fn default_glyph(bucket: TimeBucket) -> Seq<char> {
    match bucket {
        TimeBucket::Active => "\u{1F525}"@,
        TimeBucket::Today => "\u{2615}"@,
        TimeBucket::ThisWeek => "\u{1F4C5}"@,
        TimeBucket::History => "\u{1F4A4}"@,
    }
}

impl DefaultIconProvider {
    /// The emoji for one bucket.
    pub fn glyph(bucket: TimeBucket) -> (r: &'static str)
        ensures
            r@ == default_glyph(bucket),
            r@.len() == 1,
    {
        proof {
            reveal_strlit("\u{1F525}");
            reveal_strlit("\u{2615}");
            reveal_strlit("\u{1F4C5}");
            reveal_strlit("\u{1F4A4}");
        }
        match bucket {
            TimeBucket::Active => "\u{1F525}",
            TimeBucket::Today => "\u{2615}",
            TimeBucket::ThisWeek => "\u{1F4C5}",
            TimeBucket::History => "\u{1F4A4}",
        }
    }
}

impl IconProvider for DefaultIconProvider {
    fn bucket_icon(&self, bucket: TimeBucket) -> (r: &'static str) {
        DefaultIconProvider::glyph(bucket)
    }
}

/// An icon set of Nerd Font glyphs, for terminals with such a font.
pub struct NerdIconProvider;

/// The glyph `NerdIconProvider` assigns to each bucket.
pub open spec fn nerd_glyph(bucket: TimeBucket) -> Seq<char> {
    match bucket {
        TimeBucket::Active => "\u{F0E7}"@,
        TimeBucket::Today => "\u{F08FF}"@,
        TimeBucket::ThisWeek => "\u{F1781}"@,
        TimeBucket::History => "\u{F1393}"@,
    }
}

impl NerdIconProvider {
    /// The Nerd Font glyph for one bucket.
    pub fn glyph(bucket: TimeBucket) -> (r: &'static str)
        ensures
            r@ == nerd_glyph(bucket),
            r@.len() == 1,
    {
        proof {
            reveal_strlit("\u{F0E7}");
            reveal_strlit("\u{F08FF}");
            reveal_strlit("\u{F1781}");
            reveal_strlit("\u{F1393}");
        }
        match bucket {
            TimeBucket::Active => "\u{F0E7}",
            TimeBucket::Today => "\u{F08FF}",
            TimeBucket::ThisWeek => "\u{F1781}",
            TimeBucket::History => "\u{F1393}",
        }
    }
}

impl IconProvider for NerdIconProvider {
    fn bucket_icon(&self, bucket: TimeBucket) -> (r: &'static str) {
        NerdIconProvider::glyph(bucket)
    }
}

} // verus!
