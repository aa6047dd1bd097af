//! Time-based rolling log-file writer core.
//!
//! The library computes, for a configured rotation period, when a log file
//! becomes stale and what the next file should be called, and tracks the
//! writer state across rotations.  All calendar arithmetic and file-name
//! derivation is verified; the surrounding process does the actual file I/O.

pub mod names;
pub mod rotation;
pub mod time;
pub mod writer;
