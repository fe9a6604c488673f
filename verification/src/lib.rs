//! Sync and delivery orchestration for an end-to-end-encrypted group
//! messaging client: event classification, the unwrap/decrypt pipeline,
//! per-group sync cursors, the incremental sync engine and the watch loop.

pub mod config;
pub mod cursor;
pub mod engine;
pub mod event;
pub mod groups;
pub mod hexcode;
pub mod identity;
pub mod output;
pub mod pipeline;
pub mod plan;
pub mod since;
pub mod sorting;
pub mod sync;
pub mod text;
pub mod watch;
pub mod welcome;
