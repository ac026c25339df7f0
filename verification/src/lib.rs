//! Diagnostics and configuration core of a chat bot.
//!
//! The library gathers the logic behind the bot's runtime diagnostics report
//! (latency rendering, process-memory sampling, source-tree line metrics and
//! the composed snapshot) and per-guild command-prefix resolution, together
//! with the small text utilities the commands share.  All I/O — the gateway,
//! the REST client, subprocess spawning, file reads and the backing store —
//! stays outside; the library works on plain values handed in by its caller.

pub mod basic_functions;
pub mod config;
pub mod digits;
pub mod errors;
pub mod latency;
pub mod manifest;
pub mod memory;
pub mod payload;
pub mod snapshot;
pub mod source_metrics;
pub mod strutil;
