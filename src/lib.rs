//! Time-proportional value streams between two parties.
//!
//! A sender locks an amount up front; the recipient accrues a claimable
//! buffer linearly over a fixed window, at a fixed rate, subject to pausing,
//! top-up, cancellation and one-shot milestones. The ledger owns every
//! stream record and keeps value conserved across every operation: what has
//! been released never exceeds what is locked, and what has left a stream's
//! buffer is exactly what was claimed or reclaimed.

pub mod principal;
pub mod stream;
pub mod milestone;
pub mod notification;
pub mod stats;
pub mod template;
pub mod filter;
pub mod ledger;
pub mod laws;
