//! A per-user check-in ledger: every identity owns at most one record,
//! stored at an address derived deterministically from that identity.
//! The record tracks the slot and timestamp of the latest check-in and
//! an overflow-checked total count.

pub mod derivation;
pub mod errors;
pub mod identity;
pub mod laws;
pub mod ledger;
pub mod record;
