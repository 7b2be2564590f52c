//! Rate-controlled load-generation core: a token-bucket rate limiter,
//! weighted target selection, an outcome-persistence sink backed by SQLite,
//! and the dispatcher state machine that ties them together.
//!
//! The dispatcher does not bound the number of in-flight attempts, so a
//! slow or failing target can grow resource usage without limit; callers
//! accept that trade-off for a poll loop that never blocks on the network.

pub mod bucket;
pub mod config;
pub mod dispatch;
pub mod select;
pub mod sink;
pub mod textfmt;
