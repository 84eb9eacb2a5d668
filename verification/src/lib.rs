//! Request-shielding primitives for a record service: configuration, trusted
//! proxy networks, a sliding-window rate limiter, idempotency deduplication,
//! request coalescing and a two-level cache.
pub mod api;
pub mod cache;
pub mod coalescer;
pub mod config;
pub mod deduper;
pub mod limiters;
pub mod text;
