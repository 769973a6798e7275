//! A pay-per-unlock content ledger.
//!
//! Creators publish priced records; readers unlock a record by paying and by
//! presenting a single-use unlock token (a nullifier); creators accumulate
//! earnings and withdraw them with a debit-before-transfer protocol.
pub mod types;
pub mod model;
pub mod ledger;
pub mod laws;

pub use ledger::{
    is_valid_content_ref, verify_payment_proof, PendingWithdrawal, WikiPayContract, MAX_PRICE,
    MIN_PRICE,
};
pub use model::LedgerView;
pub use types::{AccountId, LedgerError, Record, UnlockToken};
