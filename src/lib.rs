//! Per-match kill statistics from a game-server event log.
//!
//! The log grammar and the aggregation of its events into per-match
//! snapshots are verified; reading files and rendering reports are left to
//! the caller.
use vstd::prelude::*;

pub mod death_cause;
pub mod errors;
pub mod frag_tally;
pub mod parser;
pub mod report;
pub mod scan;

verus! {

} // verus!
