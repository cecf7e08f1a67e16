//! A royalty-distribution ledger.
//!
//! The ledger tracks payments flowing into a shared escrow, splits each one
//! proportionally among a bounded set of beneficiaries, and lets each
//! beneficiary withdraw its accrued share.  The core here is the in-memory
//! record and the four atomic operations on it — initialize, deposit,
//! collect, transfer-share; moving funds is left to the host's payment rail,
//! which each paying operation drives through a returned [`ids::Payment`]
//! instruction.

pub mod errors;
pub mod ids;
pub mod ledger;
pub mod recipient;
