//! The auction market: listing, bid handling, and settlement.
//!
//! The market composes the asset registry, the balance ledger, and the
//! auction registry, and owns them so that its invariants hold between
//! calls: while an auction is open its token sits in the custody of the
//! escrow account, and every account's reserved funds equal the sum of
//! the current winning bids that account holds, so the funds escrowed
//! for one auction are exactly its current winning bid and nothing of
//! any outbid bidder stays locked.

use vstd::prelude::*;
use crate::{AccountId, AuctionId, Balance, BlockNumber, ClassId, TokenId};
use crate::assets::{owned_count, AssetError, AssetRegistry, TokenInfo};
use crate::ledger::{apply_reserve, apply_transfer, apply_unreserve, Ledger};

verus! {

/// Why the market refused an operation.
#[derive(Clone, Copy, PartialEq, Eq, Structural, Debug)]
pub enum Error {
    /// The listing caller does not hold the asset.
    NotOwner,
    /// The asset could not be moved into escrow custody.
    CustodyTransferFailed,
    /// The auction clock could not open a slot for the listing.
    SchedulingFailed,
    /// No open auction exists under the identifier.
    AuctionNotFound,
    /// The bid does not strictly exceed both the reserve price and the
    /// current winning bid.
    BidTooLow,
    /// The bidder's funds could not be locked in escrow.
    ReservationFailed,
}

/// A bid: who placed it and how much is escrowed for it.
#[derive(Clone, Copy, PartialEq, Eq, Structural, Debug)]
pub struct Bid {
    pub bidder: AccountId,
    pub amount: Balance,
}

/// One open auction: seller, reserve price, the asset under escrow
/// custody, and the current winning bid, if any.
#[derive(Clone, Copy, PartialEq, Eq, Debug)]
pub struct AuctionRecord {
    pub seller: AccountId,
    pub reserve_price: Balance,
    pub class: ClassId,
    pub token: TokenId,
    pub current_bid: Option<Bid>,
}

/// What settlement did for an auction identifier.
#[derive(Clone, Copy, PartialEq, Eq, Structural, Debug)]
pub enum SettlementOutcome {
    /// The winning funds went to the seller and the token to the winner.
    Settled,
    /// No bid qualified: the token went back to the seller.
    Returned,
    /// No open auction exists under the identifier; nothing happened.
    NoAuction,
    /// The winning funds cannot be delivered to the seller. Nothing
    /// happened: the condition is surfaced for manual intervention
    /// rather than dropping the asset or the funds.
    DeliveryFailed,
}

/// The auction market.
pub struct Market {
    escrow: AccountId,
    assets: AssetRegistry,
    ledger: Ledger,
    lots: Vec<Option<AuctionRecord>>,
}

/// Whether `amount` strictly exceeds both the record's reserve price
/// and its current winning bid; a bid that does not is too low.
pub open spec fn outbids(rec: AuctionRecord, amount: Balance) -> bool {
    amount > rec.reserve_price && (rec.current_bid matches Some(b) ==> amount > b.amount)
}

/// How much of `who`'s funds one auction slot escrows: the amount of its
/// current winning bid when `who` placed it, otherwise nothing.
pub open spec fn bid_contrib(slot: Option<AuctionRecord>, who: AccountId) -> int {
    match slot {
        Some(rec) => match rec.current_bid {
            Some(b) => if b.bidder == who {
                b.amount as int
            } else {
                0
            },
            None => 0,
        },
        None => 0,
    }
}

/// The sum of `who`'s current winning bids over all auction slots.
pub open spec fn bids_total(lots: Seq<Option<AuctionRecord>>, who: AccountId) -> int
    decreases lots.len(),
{
    if lots.len() == 0 {
        0
    } else {
        bids_total(lots.drop_last(), who) + bid_contrib(lots.last(), who)
    }
}

/// A sum of bid contributions is never negative.
proof fn lemma_bids_total_nonneg(lots: Seq<Option<AuctionRecord>>, who: AccountId)
    ensures
        bids_total(lots, who) >= 0,
    decreases lots.len(),
{
    if lots.len() > 0 {
        lemma_bids_total_nonneg(lots.drop_last(), who);
    }
}

/// Appending a slot adds exactly its contribution to the sum.
proof fn lemma_bids_total_push(lots: Seq<Option<AuctionRecord>>, slot: Option<AuctionRecord>, who: AccountId)
    ensures
        bids_total(lots.push(slot), who) == bids_total(lots, who) + bid_contrib(slot, who),
{
    assert(lots.push(slot).drop_last() =~= lots);
}

/// Replacing one slot changes the sum by the difference of the two
/// contributions.
proof fn lemma_bids_total_update(
    lots: Seq<Option<AuctionRecord>>,
    i: int,
    slot: Option<AuctionRecord>,
    who: AccountId,
)
    requires
        0 <= i < lots.len(),
    ensures
        bids_total(lots.update(i, slot), who) == bids_total(lots, who) - bid_contrib(
            lots[i],
            who,
        ) + bid_contrib(slot, who),
    decreases lots.len(),
{
    let upd = lots.update(i, slot);
    if i == lots.len() - 1 {
        assert(upd.drop_last() =~= lots.drop_last());
    } else {
        assert(upd.drop_last() =~= lots.drop_last().update(i, slot));
        lemma_bids_total_update(lots.drop_last(), i, slot, who);
    }
}

/// One slot's contribution never exceeds the whole sum.
proof fn lemma_bids_total_le(lots: Seq<Option<AuctionRecord>>, i: int, who: AccountId)
    requires
        0 <= i < lots.len(),
    ensures
        bid_contrib(lots[i], who) <= bids_total(lots, who),
    decreases lots.len(),
{
    if i == lots.len() - 1 {
        lemma_bids_total_nonneg(lots.drop_last(), who);
    } else {
        lemma_bids_total_le(lots.drop_last(), i, who);
    }
}

/// The invariant survives any step that keeps the auction slots, keeps
/// every already-registered token entry, keeps every account and its
/// reserve, and leaves both components in order.
proof fn lemma_wf_frame(pre: Market, post: Market)
    requires
        pre.wf(),
        post.registry_spec().wf(),
        post.ledger_spec().wf(),
        post.lots_seq() == pre.lots_seq(),
        post.escrow_spec() == pre.escrow_spec(),
        post.registry_spec().tokens_seq().len() >= pre.registry_spec().tokens_seq().len(),
        forall|t: int|
            0 <= t < pre.registry_spec().tokens_seq().len() ==> #[trigger] post.registry_spec().tokens_seq()[t]
                == pre.registry_spec().tokens_seq()[t],
        forall|a: AccountId|
            pre.ledger_spec().is_account(a) ==> #[trigger] post.ledger_spec().is_account(a),
        forall|a: AccountId|
            #[trigger] post.ledger_spec().reserved_of(a) == pre.ledger_spec().reserved_of(a),
    ensures
        post.wf(),
{
    assert forall|i: int| 0 <= i < post.lots_seq().len() implies #[trigger] post.lot_ok(i) by {
        assert(pre.lot_ok(i));
        match post.lots_seq()[i] {
            Some(rec) => {
                assert(post.registry_spec().tokens_seq()[rec.token as int]
                    == pre.registry_spec().tokens_seq()[rec.token as int]);
                match rec.current_bid {
                    Some(b) => {
                        assert(post.ledger_spec().is_account(b.bidder));
                    },
                    None => {},
                }
            },
            None => {},
        }
    }
    assert forall|who: AccountId| #[trigger] post.ledger_spec().reserved_of(who) == bids_total(
        post.lots_seq(),
        who,
    ) by {
        assert(pre.ledger_spec().reserved_of(who) == bids_total(pre.lots_seq(), who));
    }
}

impl Market {
    /// The escrow account that holds listed assets in custody.
    pub closed spec fn escrow_spec(&self) -> AccountId {
        self.escrow
    }

    /// The asset registry the market trades in.
    pub closed spec fn registry_spec(&self) -> AssetRegistry {
        self.assets
    }

    /// The balance ledger the market escrows funds in.
    pub closed spec fn ledger_spec(&self) -> Ledger {
        self.ledger
    }

    /// The auction slots, in order of listing; a settled slot is `None`
    /// and stays so forever.
    pub closed spec fn lots_seq(&self) -> Seq<Option<AuctionRecord>> {
        self.lots@
    }

    /// Whether an open auction exists under `id`.
    pub open spec fn is_open(&self, id: AuctionId) -> bool {
        (id as int) < self.lots_seq().len() && self.lots_seq()[id as int] is Some
    }

    /// The record of auction `id`, when one is open.
    pub open spec fn record_spec(&self, id: AuctionId) -> Option<AuctionRecord> {
        if (id as int) < self.lots_seq().len() {
            self.lots_seq()[id as int]
        } else {
            None
        }
    }

    /// The current winning bid of auction `id`, if any.
    pub open spec fn winning_bid(&self, id: AuctionId) -> Option<Bid> {
        match self.record_spec(id) {
            Some(rec) => rec.current_bid,
            None => None,
        }
    }

    /// The holder of a token, per the registry.
    pub open spec fn owner_spec(&self, class: ClassId, token: TokenId) -> Option<AccountId> {
        self.registry_spec().owner_spec(class, token)
    }

    /// Free funds of an account, per the ledger.
    pub open spec fn free_of(&self, who: AccountId) -> Balance {
        self.ledger_spec().free_of(who)
    }

    /// Reserved funds of an account, per the ledger.
    pub open spec fn reserved_of(&self, who: AccountId) -> Balance {
        self.ledger_spec().reserved_of(who)
    }

    /// One open slot is in order: its token exists, sits in escrow
    /// custody, and its current bid, if any, is by an existing account
    /// for strictly more than the reserve price.
    pub open spec fn lot_ok(&self, i: int) -> bool {
        self.lots_seq()[i] matches Some(rec) ==> {
            &&& (rec.token as int) < self.registry_spec().tokens_seq().len()
            &&& self.registry_spec().tokens_seq()[rec.token as int].class == rec.class
            &&& self.registry_spec().tokens_seq()[rec.token as int].owner == self.escrow_spec()
            &&& (rec.current_bid matches Some(b) ==> {
                &&& self.ledger_spec().is_account(b.bidder)
                &&& b.amount > rec.reserve_price
            })
        }
    }

    /// The market's invariant: components in order, every open slot in
    /// order, no two open auctions over the same token, and every
    /// account's reserved funds equal to the sum of its current winning
    /// bids.
    pub open spec fn wf(&self) -> bool {
        &&& self.registry_spec().wf()
        &&& self.ledger_spec().wf()
        &&& forall|i: int| 0 <= i < self.lots_seq().len() ==> #[trigger] self.lot_ok(i)
        &&& forall|i: int, j: int|
            #![trigger self.lots_seq()[i], self.lots_seq()[j]]
            0 <= i < self.lots_seq().len() && 0 <= j < self.lots_seq().len() && i != j ==> (
            self.lots_seq()[i] matches Some(a) ==> (self.lots_seq()[j] matches Some(b)
                ==> a.token != b.token))
        &&& forall|who: AccountId|
            #[trigger] self.ledger_spec().reserved_of(who) == bids_total(self.lots_seq(), who)
    }

    /// A fresh market whose assets sit in the custody of `escrow` while
    /// they are under auction.
    pub fn new(escrow: AccountId) -> (m: Market)
        ensures
            m.wf(),
            m.escrow_spec() == escrow,
            m.lots_seq() == Seq::<Option<AuctionRecord>>::empty(),
            m.registry_spec().tokens_seq() == Seq::<TokenInfo>::empty(),
            m.registry_spec().class_owners_seq() == Seq::<AccountId>::empty(),
            m.ledger_spec().accounts_seq().len() == 0,
    {
        let m = Market {
            escrow,
            assets: AssetRegistry::new(),
            ledger: Ledger::new(),
            lots: Vec::new(),
        };
        proof {
            assert forall|who: AccountId| #[trigger] m.ledger_spec().reserved_of(who) == bids_total(
                m.lots_seq(),
                who,
            ) by {
                assert(bids_total(m.lots_seq(), who) == 0);
            }
        }
        m
    }

    /// The escrow account's identifier.
    pub fn escrow_account(&self) -> (r: AccountId)
        ensures
            r == self.escrow_spec(),
    {
        self.escrow
    }

    /// Opens a ledger account endowed with `free` funds and returns its
    /// id.
    pub fn open_account(&mut self, free: Balance) -> (id: AccountId)
        requires
            old(self).wf(),
        ensures
            final(self).wf(),
            id == old(self).ledger_spec().accounts_seq().len(),
            final(self).ledger_spec().accounts_seq() == old(self).ledger_spec().accounts_seq().push(
                crate::ledger::AccountState { free, reserved: 0 },
            ),
            final(self).lots_seq() == old(self).lots_seq(),
            final(self).registry_spec() == old(self).registry_spec(),
            final(self).escrow_spec() == old(self).escrow_spec(),
    {
        let id = self.ledger.open_account(free);
        proof {
            lemma_wf_frame(*old(self), *self);
        }
        id
    }

    /// Reads the free funds of `who`.
    pub fn free_balance(&self, who: AccountId) -> (r: Balance)
        ensures
            r == self.free_of(who),
    {
        self.ledger.free_balance(who)
    }

    /// Reads the reserved funds of `who`.
    pub fn reserved_balance(&self, who: AccountId) -> (r: Balance)
        ensures
            r == self.reserved_of(who),
    {
        self.ledger.reserved_balance(who)
    }

    /// The record of auction `id`, when one is open.
    pub fn auction(&self, id: AuctionId) -> (r: Option<AuctionRecord>)
        ensures
            r == self.record_spec(id),
    {
        if (id as usize) < self.lots.len() {
            self.lots[id as usize]
        } else {
            None
        }
    }

    /// How many auction slots were ever opened.
    pub fn auction_count(&self) -> (n: usize)
        ensures
            n == self.lots_seq().len(),
    {
        self.lots.len()
    }

    /// Creates the next token class, to be minted into by `owner`, and
    /// returns the new class identifier.
    pub fn create_class(&mut self, owner: AccountId) -> (r: Result<ClassId, AssetError>)
        requires
            old(self).wf(),
        ensures
            final(self).wf(),
            r matches Ok(id) ==> {
                &&& id == old(self).registry_spec().class_owners_seq().len()
                &&& final(self).registry_spec().class_owners_seq() == old(
                    self,
                ).registry_spec().class_owners_seq().push(owner)
            },
            r is Ok <==> old(self).registry_spec().class_owners_seq().len() < ClassId::MAX,
            r is Err ==> r == Err::<ClassId, AssetError>(AssetError::NoAvailableClassId)
                && final(self).registry_spec().class_owners_seq() == old(
                self,
            ).registry_spec().class_owners_seq(),
            final(self).registry_spec().tokens_seq() == old(self).registry_spec().tokens_seq(),
            final(self).lots_seq() == old(self).lots_seq(),
            final(self).ledger_spec() == old(self).ledger_spec(),
            final(self).escrow_spec() == old(self).escrow_spec(),
    {
        let r = self.assets.create_class(owner);
        proof {
            lemma_wf_frame(*old(self), *self);
        }
        r
    }

    /// Mints `quantity` fresh tokens of `class` to holder `to`, called
    /// by `who`; only the class's minting account may mint.
    pub fn mint(&mut self, who: AccountId, to: AccountId, class: ClassId, quantity: u32) -> (r:
        Result<(), AssetError>)
        requires
            old(self).wf(),
        ensures
            final(self).wf(),
            r == Err::<(), AssetError>(AssetError::InvalidQuantity) <==> quantity < 1,
            r == Err::<(), AssetError>(AssetError::ClassIdNotFound) <==> quantity >= 1 && (
            class as int) >= old(self).registry_spec().class_owners_seq().len(),
            r == Err::<(), AssetError>(AssetError::NoPermission) <==> quantity >= 1 && (
            class as int) < old(self).registry_spec().class_owners_seq().len() && who != old(
                self,
            ).registry_spec().class_owners_seq()[class as int],
            r is Ok <==> quantity >= 1 && (class as int) < old(
                self,
            ).registry_spec().class_owners_seq().len() && who == old(
                self,
            ).registry_spec().class_owners_seq()[class as int],
            r is Ok ==> final(self).registry_spec().tokens_seq() == old(
                self,
            ).registry_spec().tokens_seq() + Seq::new(
                quantity as nat,
                |j: int| TokenInfo { class, owner: to },
            ),
            r is Err ==> final(self).registry_spec().tokens_seq() == old(
                self,
            ).registry_spec().tokens_seq(),
            final(self).registry_spec().class_owners_seq() == old(
                self,
            ).registry_spec().class_owners_seq(),
            final(self).lots_seq() == old(self).lots_seq(),
            final(self).ledger_spec() == old(self).ledger_spec(),
            final(self).escrow_spec() == old(self).escrow_spec(),
    {
        let r = self.assets.mint(who, to, class, quantity);
        proof {
            lemma_wf_frame(*old(self), *self);
        }
        r
    }

    /// Moves custody of a token from `caller` to `to`. Only the current
    /// holder may move it, and the escrow account never originates a
    /// move: its holdings are auction custody.
    pub fn transfer(&mut self, caller: AccountId, to: AccountId, class: ClassId, token: TokenId)
        -> (r: Result<(), AssetError>)
        requires
            old(self).wf(),
        ensures
            final(self).wf(),
            r == Err::<(), AssetError>(AssetError::NoPermission) <==> caller == old(
                self,
            ).escrow_spec() || (old(self).is_asset(class, token) && old(self).owner_spec(
                class,
                token,
            ) != Some(caller)),
            r == Err::<(), AssetError>(AssetError::TokenIdNotFound) <==> caller != old(
                self,
            ).escrow_spec() && !old(self).is_asset(class, token),
            r is Ok <==> caller != old(self).escrow_spec() && old(self).owner_spec(class, token)
                == Some(caller),
            r is Ok ==> final(self).registry_spec().tokens_seq() == old(
                self,
            ).registry_spec().tokens_seq().update(token as int, TokenInfo { class, owner: to }),
            r is Ok ==> final(self).owner_spec(class, token) == Some(to),
            r is Err ==> final(self).registry_spec().tokens_seq() == old(
                self,
            ).registry_spec().tokens_seq(),
            final(self).registry_spec().class_owners_seq() == old(
                self,
            ).registry_spec().class_owners_seq(),
            final(self).lots_seq() == old(self).lots_seq(),
            final(self).ledger_spec() == old(self).ledger_spec(),
            final(self).escrow_spec() == old(self).escrow_spec(),
    {
        if caller == self.escrow {
            return Err(AssetError::NoPermission);
        }
        let r = self.assets.transfer(caller, to, class, token);
        proof {
            assert forall|i: int| 0 <= i < self.lots_seq().len() implies #[trigger] self.lot_ok(
                i,
            ) by {
                assert(old(self).lot_ok(i));
                match self.lots_seq()[i] {
                    Some(rec) => {
                        assert(old(self).registry_spec().tokens_seq()[rec.token as int].owner
                            == self.escrow_spec());
                        assert(rec.token != token || r is Err);
                    },
                    None => {},
                }
            }
            assert forall|who: AccountId| #[trigger] self.ledger_spec().reserved_of(who)
                == bids_total(self.lots_seq(), who) by {
                assert(old(self).ledger_spec().reserved_of(who) == bids_total(
                    old(self).lots_seq(),
                    who,
                ));
            }
        }
        r
    }

    /// Whether the pair names a registered token.
    pub open spec fn is_asset(&self, class: ClassId, token: TokenId) -> bool {
        self.registry_spec().is_asset(class, token)
    }

    /// Whether the auction clock can open a slot for `[start, end)`: the
    /// times must be in order and an auction identifier must be free.
    pub open spec fn can_schedule(&self, start: BlockNumber, end: BlockNumber) -> bool {
        start < end && self.lots_seq().len() < AuctionId::MAX
    }

    /// Lists a token for auction: after checking that `caller` holds
    /// it, moves it into escrow custody, opens the auction slot for
    /// `[start, end)` and records the listing with no bid yet.
    /// All-or-nothing: on any refusal nothing changes. The escrow
    /// account itself cannot list — the custody step cannot move a
    /// token into the hands that already hold it — and the clock
    /// refuses a slot whose end does not lie after its start.
    pub fn list(
        &mut self,
        caller: AccountId,
        class: ClassId,
        token: TokenId,
        reserve_price: Balance,
        start: BlockNumber,
        end: BlockNumber,
    ) -> (r: Result<AuctionId, Error>)
        requires
            old(self).wf(),
        ensures
            final(self).wf(),
            r == Err::<AuctionId, Error>(Error::NotOwner) <==> old(self).owner_spec(class, token)
                != Some(caller),
            r == Err::<AuctionId, Error>(Error::CustodyTransferFailed) <==> old(self).owner_spec(
                class,
                token,
            ) == Some(caller) && caller == old(self).escrow_spec(),
            r == Err::<AuctionId, Error>(Error::SchedulingFailed) <==> old(self).owner_spec(
                class,
                token,
            ) == Some(caller) && caller != old(self).escrow_spec() && !old(self).can_schedule(
                start,
                end,
            ),
            r is Ok <==> old(self).owner_spec(class, token) == Some(caller) && caller != old(
                self,
            ).escrow_spec() && old(self).can_schedule(start, end),
            r matches Ok(id) ==> {
                &&& id == old(self).lots_seq().len()
                &&& final(self).lots_seq() == old(self).lots_seq().push(
                    Some(
                        AuctionRecord {
                            seller: caller,
                            reserve_price,
                            class,
                            token,
                            current_bid: None,
                        },
                    ),
                )
                &&& final(self).record_spec(id) == Some(
                    AuctionRecord { seller: caller, reserve_price, class, token, current_bid: None },
                )
                &&& final(self).owner_spec(class, token) == Some(old(self).escrow_spec())
                &&& final(self).registry_spec().tokens_seq() == old(
                    self,
                ).registry_spec().tokens_seq().update(
                    token as int,
                    TokenInfo { class, owner: old(self).escrow_spec() },
                )
            },
            r is Err ==> final(self).lots_seq() == old(self).lots_seq()
                && final(self).registry_spec().tokens_seq() == old(
                self,
            ).registry_spec().tokens_seq(),
            final(self).registry_spec().class_owners_seq() == old(
                self,
            ).registry_spec().class_owners_seq(),
            final(self).ledger_spec() == old(self).ledger_spec(),
            final(self).escrow_spec() == old(self).escrow_spec(),
    {
        let held = match self.assets.owner(class, token) {
            Some(acc) => acc == caller,
            None => false,
        };
        if !held {
            return Err(Error::NotOwner);
        }
        if caller == self.escrow {
            return Err(Error::CustodyTransferFailed);
        }
        if start >= end || self.lots.len() >= AuctionId::MAX as usize {
            return Err(Error::SchedulingFailed);
        }
        let id = self.lots.len() as u32;
        let custody = self.assets.transfer(caller, self.escrow, class, token);
        if custody.is_err() {
            // Unreachable: the ownership check above is exactly the
            // registry's own refusal condition.
            return Err(Error::CustodyTransferFailed);
        }
        let rec = AuctionRecord { seller: caller, reserve_price, class, token, current_bid: None };
        self.lots.push(Some(rec));
        proof {
            let pre = *old(self);
            let newslot = Some(rec);
            assert forall|i: int| 0 <= i < self.lots_seq().len() implies #[trigger] self.lot_ok(
                i,
            ) by {
                if i < pre.lots_seq().len() {
                    assert(pre.lot_ok(i));
                    match self.lots_seq()[i] {
                        Some(lrec) => {
                            assert(pre.registry_spec().tokens_seq()[lrec.token as int].owner
                                == pre.escrow_spec());
                            assert(pre.registry_spec().tokens_seq()[token as int].owner == caller);
                            assert(self.registry_spec().tokens_seq()[lrec.token as int]
                                == pre.registry_spec().tokens_seq()[lrec.token as int]);
                        },
                        None => {},
                    }
                }
            }
            assert forall|i: int, j: int|
                #![trigger self.lots_seq()[i], self.lots_seq()[j]]
                0 <= i < self.lots_seq().len() && 0 <= j < self.lots_seq().len() && i
                    != j implies (self.lots_seq()[i] matches Some(a) ==> (
            self.lots_seq()[j] matches Some(b) ==> a.token != b.token)) by {
                let n = pre.lots_seq().len() as int;
                if i < n && j < n {
                    assert(pre.lots_seq()[i] matches Some(a) ==> (
                    pre.lots_seq()[j] matches Some(b) ==> a.token != b.token));
                } else if i < n {
                    assert(pre.lot_ok(i));
                    match pre.lots_seq()[i] {
                        Some(lrec) => {
                            assert(pre.registry_spec().tokens_seq()[lrec.token as int].owner
                                == pre.escrow_spec());
                            assert(pre.registry_spec().tokens_seq()[token as int].owner == caller);
                        },
                        None => {},
                    }
                } else if j < n {
                    assert(pre.lot_ok(j));
                    match pre.lots_seq()[j] {
                        Some(lrec) => {
                            assert(pre.registry_spec().tokens_seq()[lrec.token as int].owner
                                == pre.escrow_spec());
                            assert(pre.registry_spec().tokens_seq()[token as int].owner == caller);
                        },
                        None => {},
                    }
                }
            }
            assert forall|who: AccountId| #[trigger] self.ledger_spec().reserved_of(who)
                == bids_total(self.lots_seq(), who) by {
                assert(pre.ledger_spec().reserved_of(who) == bids_total(pre.lots_seq(), who));
                lemma_bids_total_push(pre.lots_seq(), newslot, who);
            }
        }
        Ok(id)
    }

    /// Handles a new bid on auction `id` by `bidder` over `amount`.
    ///
    /// The bid is rejected with no effect unless it strictly exceeds
    /// both the reserve price and the current winning bid — ties lose.
    /// Acceptance reserves the full amount from the bidder's free
    /// funds, and only then releases the previous bidder's escrow, so
    /// at every moment some bidder's funds secure the auction. Escrow
    /// state is authoritative: after acceptance the record's winning
    /// bid is exactly the reservation held.
    pub fn on_new_bid(&mut self, id: AuctionId, bidder: AccountId, amount: Balance) -> (r: Result<
        (),
        Error,
    >)
        requires
            old(self).wf(),
        ensures
            final(self).wf(),
            r == Err::<(), Error>(Error::AuctionNotFound) <==> !old(self).is_open(id),
            old(self).record_spec(id) matches Some(rec) ==> {
                &&& (r == Err::<(), Error>(Error::BidTooLow) <==> !outbids(rec, amount))
                &&& (r == Err::<(), Error>(Error::ReservationFailed) <==> outbids(rec, amount)
                    && !(old(self).ledger_spec().is_account(bidder) && amount <= old(self).free_of(
                    bidder,
                )))
                &&& (r is Ok <==> outbids(rec, amount) && old(self).ledger_spec().is_account(
                    bidder,
                ) && amount <= old(self).free_of(bidder))
                &&& (r is Ok ==> {
                    &&& final(self).lots_seq() == old(self).lots_seq().update(
                        id as int,
                        Some(
                            AuctionRecord {
                                seller: rec.seller,
                                reserve_price: rec.reserve_price,
                                class: rec.class,
                                token: rec.token,
                                current_bid: Some(Bid { bidder, amount }),
                            },
                        ),
                    )
                    &&& final(self).winning_bid(id) == Some(Bid { bidder, amount })
                    &&& final(self).ledger_spec().accounts_seq() == (match rec.current_bid {
                        Some(p) => apply_unreserve(
                            apply_reserve(
                                old(self).ledger_spec().accounts_seq(),
                                bidder,
                                amount,
                            ),
                            p.bidder,
                            p.amount,
                        ),
                        None => apply_reserve(
                            old(self).ledger_spec().accounts_seq(),
                            bidder,
                            amount,
                        ),
                    })
                })
            },
            r is Err ==> final(self).lots_seq() == old(self).lots_seq()
                && final(self).ledger_spec().accounts_seq() == old(
                self,
            ).ledger_spec().accounts_seq(),
            final(self).registry_spec() == old(self).registry_spec(),
            final(self).escrow_spec() == old(self).escrow_spec(),
    {
        if (id as usize) >= self.lots.len() {
            return Err(Error::AuctionNotFound);
        }
        let rec = match self.lots[id as usize] {
            Some(rec) => rec,
            None => { return Err(Error::AuctionNotFound) },
        };
        let too_low = if amount <= rec.reserve_price {
            true
        } else {
            match rec.current_bid {
                Some(b) => amount <= b.amount,
                None => false,
            }
        };
        if too_low {
            return Err(Error::BidTooLow);
        }
        if !self.ledger.reserve(bidder, amount) {
            proof {
                lemma_wf_frame(*old(self), *self);
            }
            return Err(Error::ReservationFailed);
        }
        proof {
            let pre = *old(self);
            assert(pre.lot_ok(id as int));
            match rec.current_bid {
                Some(p) => {
                    assert(pre.ledger_spec().reserved_of(p.bidder) == bids_total(
                        pre.lots_seq(),
                        p.bidder,
                    ));
                    lemma_bids_total_le(pre.lots_seq(), id as int, p.bidder);
                },
                None => {},
            }
        }
        match rec.current_bid {
            Some(prev) => {
                self.ledger.unreserve(prev.bidder, prev.amount);
            },
            None => {},
        }
        let newrec = AuctionRecord {
            seller: rec.seller,
            reserve_price: rec.reserve_price,
            class: rec.class,
            token: rec.token,
            current_bid: Some(Bid { bidder, amount }),
        };
        self.lots.set(id as usize, Some(newrec));
        proof {
            let pre = *old(self);
            let newslot = Some(newrec);
            assert forall|i: int| 0 <= i < self.lots_seq().len() implies #[trigger] self.lot_ok(
                i,
            ) by {
                assert(pre.lot_ok(i));
            }
            assert forall|i: int, j: int|
                #![trigger self.lots_seq()[i], self.lots_seq()[j]]
                0 <= i < self.lots_seq().len() && 0 <= j < self.lots_seq().len() && i
                    != j implies (self.lots_seq()[i] matches Some(a) ==> (
            self.lots_seq()[j] matches Some(b) ==> a.token != b.token)) by {
                assert(pre.lots_seq()[i] matches Some(a) ==> (
                pre.lots_seq()[j] matches Some(b) ==> a.token != b.token));
            }
            assert forall|who: AccountId| #[trigger] self.ledger_spec().reserved_of(who)
                == bids_total(self.lots_seq(), who) by {
                assert(pre.ledger_spec().reserved_of(who) == bids_total(pre.lots_seq(), who));
                lemma_bids_total_update(pre.lots_seq(), id as int, newslot, who);
            }
        }
        Ok(())
    }

    /// Whether the winning funds of bid `b` can be delivered to
    /// `seller`: the seller's account must exist and be able to take
    /// the amount. A winner paying themself always can.
    pub open spec fn can_deliver(&self, seller: AccountId, b: Bid) -> bool {
        b.bidder == seller || (self.ledger_spec().is_account(seller) && self.free_of(seller)
            + self.reserved_of(seller) + b.amount <= u128::MAX)
    }

    /// Decides `can_deliver` before settlement commits anything.
    fn delivery_ok(&self, seller: AccountId, b: Bid) -> (r: bool)
        requires
            self.ledger_spec().wf(),
        ensures
            r == self.can_deliver(seller, b),
    {
        if b.bidder == seller {
            return true;
        }
        if seller >= self.ledger.account_count() as u64 {
            return false;
        }
        let sf = self.ledger.free_balance(seller);
        let sr = self.ledger.reserved_balance(seller);
        proof {
            assert(self.ledger_spec().accounts_seq()[seller as int].free
                + self.ledger_spec().accounts_seq()[seller as int].reserved <= u128::MAX);
        }
        b.amount <= u128::MAX - sf - sr
    }

    /// Ends auction `id`: removes the record, then — when a winning
    /// bid exists — releases the winner's escrow, pays the seller and
    /// hands the token to the winner; with no bid the token goes back
    /// to the seller and no funds move. The whole settlement is
    /// all-or-nothing, and a second call for the same identifier finds
    /// no record and does nothing.
    pub fn on_auction_ended(&mut self, id: AuctionId) -> (r: SettlementOutcome)
        requires
            old(self).wf(),
        ensures
            final(self).wf(),
            r == SettlementOutcome::NoAuction <==> !old(self).is_open(id),
            old(self).record_spec(id) matches Some(rec) ==> {
                &&& (r == SettlementOutcome::Returned <==> rec.current_bid is None)
                &&& (rec.current_bid is None ==> {
                    &&& final(self).lots_seq() == old(self).lots_seq().update(
                        id as int,
                        None::<AuctionRecord>,
                    )
                    &&& final(self).registry_spec().tokens_seq() == old(
                        self,
                    ).registry_spec().tokens_seq().update(
                        rec.token as int,
                        TokenInfo { class: rec.class, owner: rec.seller },
                    )
                    &&& final(self).owner_spec(rec.class, rec.token) == Some(rec.seller)
                    &&& final(self).ledger_spec().accounts_seq() == old(
                        self,
                    ).ledger_spec().accounts_seq()
                })
                &&& (rec.current_bid matches Some(b) ==> {
                    &&& (r == SettlementOutcome::Settled <==> old(self).can_deliver(rec.seller, b))
                    &&& (r == SettlementOutcome::DeliveryFailed <==> !old(self).can_deliver(
                        rec.seller,
                        b,
                    ))
                    &&& (r == SettlementOutcome::Settled ==> {
                        &&& final(self).lots_seq() == old(self).lots_seq().update(
                            id as int,
                            None::<AuctionRecord>,
                        )
                        &&& final(self).registry_spec().tokens_seq() == old(
                            self,
                        ).registry_spec().tokens_seq().update(
                            rec.token as int,
                            TokenInfo { class: rec.class, owner: b.bidder },
                        )
                        &&& final(self).owner_spec(rec.class, rec.token) == Some(b.bidder)
                        &&& final(self).ledger_spec().accounts_seq() == apply_transfer(
                            apply_unreserve(
                                old(self).ledger_spec().accounts_seq(),
                                b.bidder,
                                b.amount,
                            ),
                            b.bidder,
                            rec.seller,
                            b.amount,
                        )
                        &&& final(self).reserved_of(b.bidder) == old(self).reserved_of(b.bidder)
                            - b.amount
                        &&& (b.bidder != rec.seller ==> final(self).free_of(rec.seller) == old(
                            self,
                        ).free_of(rec.seller) + b.amount)
                    })
                })
            },
            r == SettlementOutcome::Settled || r == SettlementOutcome::Returned
                ==> !(final(self).is_open(id)),
            r == SettlementOutcome::NoAuction || r == SettlementOutcome::DeliveryFailed ==> {
                &&& final(self).lots_seq() == old(self).lots_seq()
                &&& final(self).registry_spec().tokens_seq() == old(
                    self,
                ).registry_spec().tokens_seq()
                &&& final(self).ledger_spec().accounts_seq() == old(
                    self,
                ).ledger_spec().accounts_seq()
            },
            final(self).registry_spec().class_owners_seq() == old(
                self,
            ).registry_spec().class_owners_seq(),
            final(self).escrow_spec() == old(self).escrow_spec(),
    {
        if (id as usize) >= self.lots.len() {
            return SettlementOutcome::NoAuction;
        }
        let rec = match self.lots[id as usize] {
            Some(rec) => rec,
            None => { return SettlementOutcome::NoAuction },
        };
        proof {
            assert(old(self).lot_ok(id as int));
        }
        match rec.current_bid {
            None => {
                self.lots.set(id as usize, None);
                let custody = self.assets.transfer(self.escrow, rec.seller, rec.class, rec.token);
                if custody.is_err() {
                    // Unreachable: the invariant keeps the token in
                    // escrow custody while the record exists.
                    return SettlementOutcome::DeliveryFailed;
                }
                proof {
                    self.lemma_wf_after_settlement(*old(self), id, rec);
                }
                SettlementOutcome::Returned
            },
            Some(b) => {
                let deliverable = self.delivery_ok(rec.seller, b);
                if !deliverable {
                    return SettlementOutcome::DeliveryFailed;
                }
                self.lots.set(id as usize, None);
                proof {
                    let pre = *old(self);
                    assert(pre.ledger_spec().reserved_of(b.bidder) == bids_total(
                        pre.lots_seq(),
                        b.bidder,
                    ));
                    lemma_bids_total_le(pre.lots_seq(), id as int, b.bidder);
                }
                self.ledger.unreserve(b.bidder, b.amount);
                let paid = self.ledger.transfer(b.bidder, rec.seller, b.amount);
                if !paid {
                    // Unreachable: the delivery check above is exactly
                    // the ledger's refusal condition, and the released
                    // escrow covers the payment.
                    return SettlementOutcome::DeliveryFailed;
                }
                let custody = self.assets.transfer(self.escrow, b.bidder, rec.class, rec.token);
                if custody.is_err() {
                    // Unreachable: the invariant keeps the token in
                    // escrow custody while the record exists.
                    return SettlementOutcome::DeliveryFailed;
                }
                proof {
                    self.lemma_wf_after_settlement(*old(self), id, rec);
                }
                SettlementOutcome::Settled
            },
        }
    }

    /// Settlement preserves the invariant: the slot is cleared, its
    /// token moved out of escrow, the winner's escrow released, and
    /// every other slot untouched.
    proof fn lemma_wf_after_settlement(&self, pre: Market, id: AuctionId, rec: AuctionRecord)
        requires
            pre.wf(),
            (id as int) < pre.lots_seq().len(),
            pre.lots_seq()[id as int] == Some(rec),
            self.escrow_spec() == pre.escrow_spec(),
            self.registry_spec().wf(),
            self.ledger_spec().wf(),
            self.lots_seq() == pre.lots_seq().update(id as int, None::<AuctionRecord>),
            self.registry_spec().tokens_seq().len() == pre.registry_spec().tokens_seq().len(),
            forall|t: int|
                0 <= t < pre.registry_spec().tokens_seq().len() && t != rec.token as int
                    ==> #[trigger] self.registry_spec().tokens_seq()[t]
                    == pre.registry_spec().tokens_seq()[t],
            self.ledger_spec().accounts_seq().len() == pre.ledger_spec().accounts_seq().len(),
            forall|a: AccountId|
                #[trigger] self.ledger_spec().reserved_of(a) == pre.ledger_spec().reserved_of(a)
                    - bid_contrib(pre.lots_seq()[id as int], a),
        ensures
            self.wf(),
    {
        assert forall|i: int| 0 <= i < self.lots_seq().len() implies #[trigger] self.lot_ok(
            i,
        ) by {
            assert(pre.lot_ok(i));
            if i != id as int {
                match self.lots_seq()[i] {
                    Some(lrec) => {
                        assert(pre.lots_seq()[i] matches Some(a) ==> (
                        pre.lots_seq()[id as int] matches Some(b) ==> a.token != b.token));
                        assert(self.registry_spec().tokens_seq()[lrec.token as int]
                            == pre.registry_spec().tokens_seq()[lrec.token as int]);
                    },
                    None => {},
                }
            }
        }
        assert forall|i: int, j: int|
            #![trigger self.lots_seq()[i], self.lots_seq()[j]]
            0 <= i < self.lots_seq().len() && 0 <= j < self.lots_seq().len() && i != j implies (
        self.lots_seq()[i] matches Some(a) ==> (self.lots_seq()[j] matches Some(b) ==> a.token
            != b.token)) by {
            assert(pre.lots_seq()[i] matches Some(a) ==> (
            pre.lots_seq()[j] matches Some(b) ==> a.token != b.token));
        }
        assert forall|who: AccountId| #[trigger] self.ledger_spec().reserved_of(who) == bids_total(
            self.lots_seq(),
            who,
        ) by {
            assert(pre.ledger_spec().reserved_of(who) == bids_total(pre.lots_seq(), who));
            lemma_bids_total_update(pre.lots_seq(), id as int, None, who);
        }
    }

    /// The holder of a token, per the registry.
    pub fn owner(&self, class: ClassId, token: TokenId) -> (r: Option<AccountId>)
        ensures
            r == self.owner_spec(class, token),
    {
        self.assets.owner(class, token)
    }

    /// How many tokens `who` currently holds.
    pub fn balance(&self, who: AccountId) -> (r: u128)
        ensures
            r == owned_count(self.registry_spec().tokens_seq(), who),
    {
        self.assets.balance(who)
    }
}

/// Law: every account's reserved funds equal the sum of the current
/// winning bids that account holds across all auctions — no funds stay
/// locked for an outbid or settled auction.
pub proof fn lemma_reserves_match_bids(m: Market, who: AccountId)
    requires
        m.wf(),
    ensures
        m.reserved_of(who) == bids_total(m.lots_seq(), who),
{
}

/// Law: the funds escrowed for one auction are exactly its current
/// winning bid. The winner contributes the bid amount, every other
/// account contributes nothing to this auction, and the winner's
/// reserve covers the bid.
pub proof fn lemma_auction_escrow_exact(m: Market, id: AuctionId)
    requires
        m.wf(),
        m.winning_bid(id) is Some,
    ensures
        m.winning_bid(id) matches Some(b) ==> {
            &&& bid_contrib(m.record_spec(id), b.bidder) == b.amount
            &&& (forall|acc: AccountId|
                acc != b.bidder ==> #[trigger] bid_contrib(m.record_spec(id), acc) == 0)
            &&& m.reserved_of(b.bidder) == bids_total(m.lots_seq(), b.bidder)
            &&& m.reserved_of(b.bidder) >= b.amount
        },
{
    match m.winning_bid(id) {
        Some(b) => {
            assert(m.ledger_spec().reserved_of(b.bidder) == bids_total(m.lots_seq(), b.bidder));
            lemma_bids_total_le(m.lots_seq(), id as int, b.bidder);
        },
        None => {},
    }
}

/// Law: while an auction is open, its current winning bid — when one
/// exists — strictly exceeds the reserve price, and the auctioned
/// token sits in the custody of the escrow account.
pub proof fn lemma_open_auction_in_order(m: Market, id: AuctionId)
    requires
        m.wf(),
    ensures
        m.record_spec(id) matches Some(rec) ==> {
            &&& (rec.current_bid matches Some(b) ==> b.amount > rec.reserve_price)
            &&& m.owner_spec(rec.class, rec.token) == Some(m.escrow_spec())
        },
{
    if (id as int) < m.lots_seq().len() {
        assert(m.lot_ok(id as int));
    }
}

} // verus!
