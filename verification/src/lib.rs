//! Deterministic core of a batch track downloader: file naming, the
//! completion index, the streaming bridge, the per-track pipeline and the
//! bounded-concurrency batch scheduler.

pub mod text;
pub mod error;
pub mod options;
pub mod metadata;
pub mod naming;
pub mod index;
pub mod bridge;
pub mod pipeline;
pub mod batch;
