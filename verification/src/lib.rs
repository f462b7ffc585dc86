//! Incremental ingestion pipeline for locally stored AI coding-assistant
//! activity logs: directory-scan filtering, per-format log normalization,
//! an mtime-keyed record cache, and per-day heatmap aggregation.
#![verifier::loop_isolation(false)]

pub mod agents;
pub mod aggregate;
pub mod cache;
pub mod domain;
pub mod heatmap;
pub mod json;
pub mod scanner;
pub mod text;
pub mod watch;
