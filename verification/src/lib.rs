//! Feed ingestion core.
//!
//! Normalizes raw syndication documents (RSS/Atom-style) into a stable entry
//! shape and upserts batches of normalized entries into a relational store,
//! keyed by the natural identity `(feed_id, guid)`.

pub mod dedup;
pub mod feed;
pub mod store;
pub mod time_parse;
pub mod views;
