//! Core of a comic-archive proxy: a time-bounded, single-flight memoizing
//! cache, page-extraction classification, max-id derivation from the
//! archive's "previous" link, and a deterministic date-seeded feed
//! synthesizer.
//!
//! The cache (`cache`) is a sequential state machine driven in steps around
//! the caller's own I/O; `service` gives it the service's keys and plans the
//! background warmer's sweeps.  `dom` and `extract` turn an upstream page
//! into a comic record's fields or a structural error, `maxid` reads the
//! previous id out of a navigation link, `comic` assembles the served
//! record, and `feed` selects one comic per recent day — seeded by the day
//! number alone — and renders the feed document.

pub mod cache;
pub mod comic;
pub mod dom;
pub mod errors;
pub mod extract;
pub mod feed;
pub mod maxid;
pub mod service;
pub mod text;
