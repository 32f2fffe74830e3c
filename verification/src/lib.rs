//! An English-auction market for non-fungible tokens.
//!
//! A seller locks a token into the custody of a dedicated escrow account,
//! bids run under strictly-increasing rules with currency escrow, and at
//! auction end the token and the winning funds are exchanged atomically
//! (or the token returns to the seller when no bid qualifies).
//!
//! The market composes three components: an asset registry that records
//! token custody, a reservable-balance ledger that holds each account's
//! free and reserved funds, and the auction registry itself.

pub mod assets;
pub mod constants;
pub mod fees;
pub mod ledger;
pub mod market;

use vstd::prelude::*;

verus! {

/// An account reference: an opaque key into the balance ledger.
pub type AccountId = u64;

/// A currency amount.
pub type Balance = u128;

/// Identifier of a token class.
pub type ClassId = u32;

/// Identifier of a token within the registry.
pub type TokenId = u64;

/// Identifier of an open auction.
pub type AuctionId = u32;

/// Block-denominated time, as the auction clock counts it.
pub type BlockNumber = u32;

} // verus!
