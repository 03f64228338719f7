//! Client-side counters kept in a versioned key-value table.
//!
//! The decisions of every counter operation (what to read, what to write,
//! when to wait and when to give up) are made here; whoever drives the
//! table performs the reads, the conditional writes and the waits.
pub mod backoff;
pub mod retry;
pub mod counter;
pub mod laws;
