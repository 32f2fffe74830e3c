//! The reservable-balance currency ledger.
//!
//! Each account holds free funds and reserved funds. A reservation moves
//! funds from free to reserved, where they cannot be spent until released
//! or transferred away. The ledger enforces no minimum balance, so a
//! transfer may always empty the payer's account (the "allow closure"
//! policy that settlement relies on).

use vstd::prelude::*;
use crate::{AccountId, Balance};

verus! {

/// Free and reserved funds of one account.
#[derive(Clone, Copy, PartialEq, Eq, Structural, Debug)]
pub struct AccountState {
    pub free: Balance,
    pub reserved: Balance,
}

/// The ledger: account states keyed by `AccountId`, ids handed out in
/// order of account creation.
pub struct Ledger {
    accounts: Vec<AccountState>,
}

/// The account states after `amount` moved from `who`'s free funds into
/// reserve.
pub open spec fn apply_reserve(
    accounts: Seq<AccountState>,
    who: AccountId,
    amount: Balance,
) -> Seq<AccountState> {
    let a = accounts[who as int];
    accounts.update(
        who as int,
        AccountState {
            free: (a.free - amount) as Balance,
            reserved: (a.reserved + amount) as Balance,
        },
    )
}

/// The account states after releasing up to `amount` from `who`'s
/// reserve back into free funds; no more than the reserve itself moves.
pub open spec fn apply_unreserve(
    accounts: Seq<AccountState>,
    who: AccountId,
    amount: Balance,
) -> Seq<AccountState> {
    let a = accounts[who as int];
    let moved: int = if amount <= a.reserved { amount as int } else { a.reserved as int };
    accounts.update(
        who as int,
        AccountState {
            free: (a.free + moved) as Balance,
            reserved: (a.reserved - moved) as Balance,
        },
    )
}

/// The account states after `amount` of fresh funds were credited to
/// `who`'s free balance.
pub open spec fn apply_credit(
    accounts: Seq<AccountState>,
    who: AccountId,
    amount: Balance,
) -> Seq<AccountState> {
    let a = accounts[who as int];
    accounts.update(
        who as int,
        AccountState { free: (a.free + amount) as Balance, reserved: a.reserved },
    )
}

/// The account states after `amount` of free funds moved from `from` to
/// `to`. The payer is debited first, so a transfer to oneself is a no-op.
pub open spec fn apply_transfer(
    accounts: Seq<AccountState>,
    from: AccountId,
    to: AccountId,
    amount: Balance,
) -> Seq<AccountState> {
    let a = accounts[from as int];
    let debited = accounts.update(
        from as int,
        AccountState { free: (a.free - amount) as Balance, reserved: a.reserved },
    );
    let b = debited[to as int];
    debited.update(
        to as int,
        AccountState { free: (b.free + amount) as Balance, reserved: b.reserved },
    )
}

impl Ledger {
    /// The account states, in order of account creation.
    pub closed spec fn accounts_seq(&self) -> Seq<AccountState> {
        self.accounts@
    }

    /// Whether `who` names an existing account.
    pub open spec fn is_account(&self, who: AccountId) -> bool {
        (who as int) < self.accounts_seq().len()
    }

    /// The state of account `who`.
    pub open spec fn state_of(&self, who: AccountId) -> AccountState
        recommends
            self.is_account(who),
    {
        self.accounts_seq()[who as int]
    }

    /// Free funds of `who`; zero for an unknown account.
    pub open spec fn free_of(&self, who: AccountId) -> Balance {
        if self.is_account(who) {
            self.state_of(who).free
        } else {
            0
        }
    }

    /// Reserved funds of `who`; zero for an unknown account.
    pub open spec fn reserved_of(&self, who: AccountId) -> Balance {
        if self.is_account(who) {
            self.state_of(who).reserved
        } else {
            0
        }
    }

    /// Every account's total holding fits the balance type, so moving
    /// funds between the free and reserved sides can never overflow.
    pub open spec fn wf(&self) -> bool {
        forall|i: int|
            0 <= i < self.accounts_seq().len() ==> #[trigger] self.accounts_seq()[i].free
                + self.accounts_seq()[i].reserved <= u128::MAX
    }

    /// An empty ledger.
    pub fn new() -> (l: Ledger)
        ensures
            l.wf(),
            l.accounts_seq() == Seq::<AccountState>::empty(),
    {
        Ledger { accounts: Vec::new() }
    }

    /// Opens a new account endowed with `free` funds and returns its id.
    pub fn open_account(&mut self, free: Balance) -> (id: AccountId)
        requires
            old(self).wf(),
        ensures
            final(self).wf(),
            id == old(self).accounts_seq().len(),
            final(self).accounts_seq() == old(self).accounts_seq().push(
                AccountState { free, reserved: 0 },
            ),
    {
        let id = self.accounts.len() as u64;
        self.accounts.push(AccountState { free, reserved: 0 });
        proof {
            assert forall|i: int|
                0 <= i < self.accounts_seq().len() implies #[trigger] self.accounts_seq()[i].free
                + self.accounts_seq()[i].reserved <= u128::MAX by {
                if i < old(self).accounts_seq().len() {
                    assert(old(self).accounts_seq()[i].free + old(self).accounts_seq()[i].reserved
                        <= u128::MAX);
                }
            }
        }
        id
    }

    /// How many accounts exist.
    pub fn account_count(&self) -> (n: usize)
        ensures
            n == self.accounts_seq().len(),
    {
        self.accounts.len()
    }

    /// Reads the free funds of `who`.
    pub fn free_balance(&self, who: AccountId) -> (r: Balance)
        ensures
            r == self.free_of(who),
    {
        if who >= self.accounts.len() as u64 {
            return 0;
        }
        self.accounts[who as usize].free
    }

    /// Reads the reserved funds of `who`.
    pub fn reserved_balance(&self, who: AccountId) -> (r: Balance)
        ensures
            r == self.reserved_of(who),
    {
        if who >= self.accounts.len() as u64 {
            return 0;
        }
        self.accounts[who as usize].reserved
    }

    /// Credits `amount` of fresh funds to `who`'s free balance.
    /// Succeeds exactly when the account exists and its holding stays
    /// within the balance type; on failure the ledger is untouched.
    pub fn credit(&mut self, who: AccountId, amount: Balance) -> (ok: bool)
        requires
            old(self).wf(),
        ensures
            final(self).wf(),
            ok <==> old(self).is_account(who) && old(self).free_of(who) + old(self).reserved_of(
                who,
            ) + amount <= u128::MAX,
            ok ==> final(self).accounts_seq() == apply_credit(
                old(self).accounts_seq(),
                who,
                amount,
            ),
            !ok ==> final(self).accounts_seq() == old(self).accounts_seq(),
    {
        if who >= self.accounts.len() as u64 {
            return false;
        }
        let i = who as usize;
        let a = self.accounts[i];
        proof {
            assert(self.accounts_seq()[who as int].free + self.accounts_seq()[who as int].reserved
                <= u128::MAX);
        }
        if amount > u128::MAX - a.free - a.reserved {
            return false;
        }
        self.accounts.set(i, AccountState { free: a.free + amount, reserved: a.reserved });
        proof {
            self.lemma_wf_after(*old(self));
        }
        true
    }

    /// Locks `amount` of `who`'s free funds in reserve. Succeeds exactly
    /// when the account exists and has that much free; on failure the
    /// ledger is untouched.
    pub fn reserve(&mut self, who: AccountId, amount: Balance) -> (ok: bool)
        requires
            old(self).wf(),
        ensures
            final(self).wf(),
            ok <==> old(self).is_account(who) && amount <= old(self).free_of(who),
            ok ==> final(self).accounts_seq() == apply_reserve(
                old(self).accounts_seq(),
                who,
                amount,
            ),
            !ok ==> final(self).accounts_seq() == old(self).accounts_seq(),
    {
        if who >= self.accounts.len() as u64 {
            return false;
        }
        let i = who as usize;
        let a = self.accounts[i];
        if amount > a.free {
            return false;
        }
        proof {
            assert(self.accounts_seq()[who as int].free + self.accounts_seq()[who as int].reserved
                <= u128::MAX);
        }
        self.accounts.set(i, AccountState { free: a.free - amount, reserved: a.reserved + amount });
        proof {
            self.lemma_wf_after(*old(self));
        }
        true
    }

    /// Releases up to `amount` from `who`'s reserve back into free funds
    /// and returns how much actually moved (never more than the reserve;
    /// zero for an unknown account).
    pub fn unreserve(&mut self, who: AccountId, amount: Balance) -> (released: Balance)
        requires
            old(self).wf(),
        ensures
            final(self).wf(),
            old(self).is_account(who) ==> {
                &&& released == if amount <= old(self).reserved_of(who) {
                    amount
                } else {
                    old(self).reserved_of(who)
                }
                &&& final(self).accounts_seq() == apply_unreserve(
                    old(self).accounts_seq(),
                    who,
                    amount,
                )
            },
            !old(self).is_account(who) ==> released == 0 && final(self).accounts_seq() == old(
                self,
            ).accounts_seq(),
    {
        if who >= self.accounts.len() as u64 {
            return 0;
        }
        let i = who as usize;
        let a = self.accounts[i];
        let moved = if amount <= a.reserved {
            amount
        } else {
            a.reserved
        };
        proof {
            assert(self.accounts_seq()[who as int].free + self.accounts_seq()[who as int].reserved
                <= u128::MAX);
        }
        self.accounts.set(i, AccountState { free: a.free + moved, reserved: a.reserved - moved });
        proof {
            self.lemma_wf_after(*old(self));
        }
        moved
    }

    /// Moves `amount` of free funds from `from` to `to`. Succeeds exactly
    /// when both accounts exist, the payer has the funds free, and the
    /// payee's holding stays within the balance type; on failure the
    /// ledger is untouched.
    pub fn transfer(&mut self, from: AccountId, to: AccountId, amount: Balance) -> (ok: bool)
        requires
            old(self).wf(),
        ensures
            final(self).wf(),
            ok <==> {
                &&& old(self).is_account(from)
                &&& old(self).is_account(to)
                &&& amount <= old(self).free_of(from)
                &&& (from == to || old(self).free_of(to) + old(self).reserved_of(to) + amount
                    <= u128::MAX)
            },
            ok ==> final(self).accounts_seq() == apply_transfer(
                old(self).accounts_seq(),
                from,
                to,
                amount,
            ),
            !ok ==> final(self).accounts_seq() == old(self).accounts_seq(),
    {
        if from >= self.accounts.len() as u64 || to >= self.accounts.len() as u64 {
            return false;
        }
        let fi = from as usize;
        let ti = to as usize;
        let a = self.accounts[fi];
        if amount > a.free {
            return false;
        }
        if from != to {
            let b = self.accounts[ti];
            if amount > u128::MAX - b.free - b.reserved {
                return false;
            }
        }
        proof {
            assert(self.accounts_seq()[from as int].free
                + self.accounts_seq()[from as int].reserved <= u128::MAX);
            assert(self.accounts_seq()[to as int].free + self.accounts_seq()[to as int].reserved
                <= u128::MAX);
        }
        self.accounts.set(fi, AccountState { free: a.free - amount, reserved: a.reserved });
        let b = self.accounts[ti];
        self.accounts.set(ti, AccountState { free: b.free + amount, reserved: b.reserved });
        proof {
            self.lemma_wf_after(*old(self));
        }
        true
    }

    /// Every account's holding still fits the balance type when each
    /// account either kept its state or its new total stays in bounds.
    proof fn lemma_wf_after(&self, prior: Ledger)
        requires
            prior.wf(),
            self.accounts_seq().len() == prior.accounts_seq().len(),
            forall|i: int|
                0 <= i < self.accounts_seq().len() ==> #[trigger] self.accounts_seq()[i]
                    == prior.accounts_seq()[i] || self.accounts_seq()[i].free
                    + self.accounts_seq()[i].reserved <= u128::MAX,
        ensures
            self.wf(),
    {
        assert forall|i: int|
            0 <= i < self.accounts_seq().len() implies #[trigger] self.accounts_seq()[i].free
            + self.accounts_seq()[i].reserved <= u128::MAX by {
            assert(prior.accounts_seq()[i].free + prior.accounts_seq()[i].reserved <= u128::MAX);
        }
    }
}

} // verus!
