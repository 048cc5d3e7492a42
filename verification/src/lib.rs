//! A verified core for an in-process HTTP relay with a streaming path.
//!
//! The streaming path ingests an upstream response as arbitrary byte chunks,
//! reassembles newline-terminated lines across chunk boundaries, extracts the
//! SSE `data:` field (merging labels and values that arrive on separate
//! lines), and hands normalized records to an event sink together with
//! exactly one terminal signal per stream.

pub mod ids;
pub mod lines;
pub mod permissions;
pub mod pipeline;
pub mod relay;
pub mod request;
pub mod sse;
pub mod text;
