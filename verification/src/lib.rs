//! A verified core for a command-line time tracker.
//!
//! The library records completed work "sessions" (half-open time intervals
//! with free-text notes) per named activity, keeps each activity's ledger
//! sorted and free of overlaps, resolves fuzzy user time expressions into
//! concrete instants, and computes range-scoped statistics.

pub mod calendar;
pub mod clock;
pub mod commands;
pub mod duration;
pub mod error;
pub mod instant;
pub mod ledger;
pub mod parse;
pub mod registry;
pub mod resolve;
pub mod stats;

pub use calendar::Date;
pub use calendar::Time;
pub use error::TrackError;
pub use instant::Instant;
