//! A single-pass ledger: it folds an ordered list of client transactions
//! (deposits, withdrawals, disputes, resolutions and chargebacks) into the
//! final balance sheet of every client.

pub mod amount;
pub mod client;
pub mod laws;
pub mod ledger;
pub mod report;
pub mod transaction;

use vstd::prelude::*;

verus! {

/// The dispute status a record starts with: known, and not disputed.
pub fn default_dispute_status() -> (status: Option<bool>)
    ensures
        status == Some(false),
{
    Some(false)
}

} // verus!
