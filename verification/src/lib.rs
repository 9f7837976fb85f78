//! Directory-freshness engine: decides which entries of a directory listing
//! are visible, attaches freshness metadata, and produces a deterministically
//! ordered, bucketed result.

pub mod engine;
pub mod glob;
pub mod icon;
pub mod ignore;
pub mod model;
pub mod sort;
pub mod text;
pub mod time;
