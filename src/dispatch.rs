//! The single entry point through which the host hands calls to the ledger.
use vstd::prelude::*;

use crate::model::{Call, LedgerState};
use crate::pallet::Pallet;
use crate::types::{Error, Event};

verus! {

/// Routes each call the host has decoded and authenticated to the ledger
/// operation it names.
pub struct ExecutorDispatch;

impl ExecutorDispatch {
    /// Performs `call` on `ledger` and reports its outcome.
    pub fn dispatch(ledger: &mut Pallet, call: Call) -> (r: Result<Event, Error>)
        requires
            old(ledger)@.wf(),
            old(ledger)@.admits(call),
        ensures
            (final(ledger)@, r) == old(ledger)@.step(call),
            final(ledger)@.wf(),
    {
        match call {
            Call::CreateProfile { who } => ledger.create_profile(who),
            Call::SubmitRating {
                caller,
                target,
                score,
                communication,
                reliability,
                quality,
                professionalism,
                review_hash,
            } => ledger.submit_rating(
                caller,
                target,
                score,
                communication,
                reliability,
                quality,
                professionalism,
                review_hash,
            ),
            Call::StakeReputation { who, amount } => ledger.stake_reputation(who, amount),
            Call::DeactivateProfile { who } => ledger.deactivate_profile(who),
        }
    }
}

} // verus!
