//! Synchronization and relevance engine for a tracker of remote work items.
//!
//! The crate scores issues, decides when an issue becomes important enough to
//! notify about, reconciles freshly fetched issues with the local issue table,
//! and drives one synchronization round per workspace.

pub mod notify;
pub mod model;
pub mod text;
pub mod clock;
pub mod scoring;
pub mod rate_limit;
pub mod store;
pub mod sync;
pub mod scheduler;
pub mod greeting;
pub mod registry;
