//! Building blocks of a concurrent endpoint health checker: response
//! validation, the retry policy, the round scheduler and per-URL statistics,
//! together with a handful of small numeric and text utilities.

pub mod analyzer;
pub mod book;
pub mod config;
pub mod engine;
pub mod guess;
pub mod header;
pub mod parity;
pub mod retry;
pub mod scheduler;
pub mod stats;
pub mod status;
pub mod stepsum;
pub mod text;
pub mod words;
