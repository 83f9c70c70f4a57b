//! Cache-aware execution pipeline for an external line-oriented search
//! backend: command composition, cache-entry naming and decoding, bounded
//! previews of cached results, and the policy that decides when to reuse a
//! cached result, when to run the backend live, and when to warm the cache
//! speculatively.

pub mod cache;
pub mod command;
pub mod forerunner;
pub mod gate;
pub mod preview;
pub mod source;
