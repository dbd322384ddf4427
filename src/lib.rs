//! Keeps a local game installation in sync with a remote release feed:
//! decides between no update, a full download and a chain of patches, and
//! carries the per-download bookkeeping (names, links, progress).

pub mod api;
pub mod config;
pub mod download;
pub mod progress;
pub mod query;
pub mod resolve;
pub mod screens;
pub mod structs;
pub mod version;
