//! A step-driven scrape pipeline and download execution engine.
//!
//! A scraper definition names a destination root, seed URLs and an ordered
//! list of steps. Each fetched page is processed against the first remaining
//! step: either its links are expanded into new crawl tasks (one directory
//! level per hop), or its resource URLs are collected into an ordered batch
//! of download tasks. Paths that already exist on disk are skipped, so a
//! re-run over a completed tree does no new work.

pub mod config;
pub mod executor;
pub mod laws;
pub mod naming;
pub mod pipeline;
pub mod trusted;
