//! Client-side persistent storage engine for a data-notebook application.
//!
//! The core is the cache subsystem: content-addressable storage of fetched
//! files keyed by source URL, validity tracking against server-provided cache
//! tokens, and a quota-aware eviction policy.  Around it sit plain record
//! stores for notebook documents and user preferences, and a command
//! dispatcher that routes tagged commands to the owning store and emits
//! exactly one event per command.

pub mod cache;
pub mod chart;
pub mod data;
pub mod editor;
pub mod engine;
pub mod eviction;
pub mod integrity;
pub mod messages;
pub mod notes;
pub mod quota;
pub mod storage;
pub mod text;
