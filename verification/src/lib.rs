//! Media acquisition and delivery pipeline.
//!
//! The crate resolves a user-supplied link to a canonical source descriptor,
//! drives a two-phase acquisition protocol against an external extraction
//! tool, deduplicates repeat deliveries through a destination-identifier
//! cache, and sequences cache lookup, acquisition, upload and cleanup in a
//! per-request state machine.

pub mod cache;
pub mod delivery;
pub mod download;
pub mod strutil;
pub mod telegram;
pub mod utils;
pub mod website;
pub mod yt_dlp;
