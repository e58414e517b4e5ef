//! A polite feed polling scheduler: per-feed link state and cadence, the
//! interpretation of HEAD and GET replies, admission control per origin and
//! overall, tick planning, feed ingest and configuration checks.
pub mod clock;
pub mod concurrency;
pub mod config;
pub mod due;
pub mod fetch;
pub mod ingest;
pub mod link_state;
pub mod paging;
pub mod scheduler;
pub mod text;
pub mod tick;
