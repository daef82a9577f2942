//! A stream aggregation and batching engine for trade events.
//!
//! Trade records arrive in order from a durable log. For each record the
//! engine slides a bounded per-symbol window of recent prices, builds the
//! update that goes out to the cache and to live subscribers, and queues the
//! record for the time-series store. The queue is flushed when it reaches its
//! size bound or when the flush timer expires, whichever comes first.
//!
//! Prices and quantities are IEEE-754 binary64 numbers. The engine carries
//! them as their 64-bit patterns, exactly as they stand on the wire, and never
//! computes with them: it says which prices a moving average is taken over,
//! and leaves the floating-point sum and division to its caller.

pub mod aggregator;
pub mod batch;
pub mod codec;
pub mod config;
pub mod engine;
pub mod flush;
pub mod instant;
pub mod publish;
pub mod record;
pub mod relay;
pub mod replay;
pub mod signal;
pub mod supervisor;
pub mod timer;
pub mod window;
pub mod wire;
