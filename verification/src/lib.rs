//! A verified core for a local activity-tracking agent.
//!
//! The agent samples the active desktop window and the browsers' visit
//! history, appends one timestamped line per observation to a log, and
//! re-parses that log into structured events for transport. This crate
//! holds the logic of that pipeline: the log grammar and its parser,
//! the epoch conversions, the per-source watermarks, the window dedup,
//! and the sync batching, with contracts proved by Verus. The thin
//! shell around it (file, database and network access) stays outside.

pub mod event;
pub mod logfmt;
pub mod parse;
pub mod roundtrip;
pub mod sync;
pub mod text;
pub mod visits;
pub mod watermark;
pub mod window;
