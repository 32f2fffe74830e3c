//! Routing of collected transaction fees into the treasury.

use vstd::prelude::*;
use crate::{AccountId, Balance};
use crate::ledger::{apply_credit, Ledger};

verus! {

/// Sends collected transaction fees to the treasury.
pub struct DealWithFees;

impl DealWithFees {
    /// Credits a nonzero collected fee — already withdrawn from its
    /// payer — to the treasury account. Returns whether the ledger
    /// could take it; refused funds stay unassigned for the caller to
    /// surface.
    pub fn on_nonzero_unbalanced(ledger: &mut Ledger, treasury: AccountId, amount: Balance) -> (ok:
        bool)
        requires
            old(ledger).wf(),
        ensures
            final(ledger).wf(),
            ok <==> old(ledger).is_account(treasury) && old(ledger).free_of(treasury) + old(
                ledger,
            ).reserved_of(treasury) + amount <= u128::MAX,
            ok ==> final(ledger).accounts_seq() == apply_credit(
                old(ledger).accounts_seq(),
                treasury,
                amount,
            ),
            !ok ==> final(ledger).accounts_seq() == old(ledger).accounts_seq(),
    {
        ledger.credit(treasury, amount)
    }
}

} // verus!
