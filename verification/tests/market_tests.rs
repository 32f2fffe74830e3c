use kodadot_market::market::{Error, Market, SettlementOutcome};

/// A market with three funded accounts (seller, two bidders) and one
/// token (class 1, token 7) held by the seller.
fn market_with_listing_setup() -> (Market, u64, u64, u64) {
    let mut m = Market::new(999);
    let s = m.open_account(1000);
    let x = m.open_account(1000);
    let y = m.open_account(1000);
    let c0 = m.create_class(s).unwrap();
    let c1 = m.create_class(s).unwrap();
    assert_eq!(c0, 0);
    assert_eq!(c1, 1);
    // Seven tokens of class 0 first, so the eighth token — id 7 —
    // belongs to class 1.
    m.mint(s, s, 0, 7).unwrap();
    m.mint(s, s, 1, 1).unwrap();
    assert_eq!(m.owner(1, 7), Some(s));
    (m, s, x, y)
}

#[test]
fn scenario_full_auction() {
    let (mut m, s, x, y) = market_with_listing_setup();
    let id = m.list(s, 1, 7, 100, 0, 10).unwrap();
    assert_eq!(m.owner(1, 7), Some(m.escrow_account()));
    let rec = m.auction(id).unwrap();
    assert_eq!(rec.seller, s);
    assert_eq!(rec.reserve_price, 100);
    assert!(rec.current_bid.is_none());

    // A bid equal to the reserve price is not strictly greater: rejected.
    assert_eq!(m.on_new_bid(id, x, 100), Err(Error::BidTooLow));
    assert_eq!(m.reserved_balance(x), 0);

    // 101 is accepted and fully escrowed.
    assert_eq!(m.on_new_bid(id, x, 101), Ok(()));
    assert_eq!(m.reserved_balance(x), 101);
    assert_eq!(m.free_balance(x), 899);

    // 150 outbids: the prior escrow is released in the same step.
    assert_eq!(m.on_new_bid(id, y, 150), Ok(()));
    assert_eq!(m.reserved_balance(x), 0);
    assert_eq!(m.free_balance(x), 1000);
    assert_eq!(m.reserved_balance(y), 150);
    assert_eq!(m.free_balance(y), 850);

    // Settlement: the winner gets the token, the seller the funds.
    assert_eq!(m.on_auction_ended(id), SettlementOutcome::Settled);
    assert_eq!(m.owner(1, 7), Some(y));
    assert_eq!(m.free_balance(s), 1150);
    assert_eq!(m.reserved_balance(y), 0);
    assert_eq!(m.free_balance(y), 850);
    assert_eq!(m.free_balance(x), 1000);
    assert_eq!(m.reserved_balance(x), 0);
    assert!(m.auction(id).is_none());
}

#[test]
fn scenario_no_bids_returns_token() {
    let (mut m, s, x, _y) = market_with_listing_setup();
    let id = m.list(s, 1, 7, 50, 0, 10).unwrap();
    assert_eq!(m.owner(1, 7), Some(m.escrow_account()));
    assert_eq!(m.on_auction_ended(id), SettlementOutcome::Returned);
    assert_eq!(m.owner(1, 7), Some(s));
    assert_eq!(m.free_balance(s), 1000);
    assert_eq!(m.free_balance(x), 1000);
    assert!(m.auction(id).is_none());
}

#[test]
fn scenario_non_owner_cannot_list() {
    let (mut m, s, x, _y) = market_with_listing_setup();
    assert_eq!(m.list(x, 1, 7, 100, 0, 10), Err(Error::NotOwner));
    assert_eq!(m.owner(1, 7), Some(s));
    assert_eq!(m.auction_count(), 0);
}

#[test]
fn listing_missing_token_is_not_owner() {
    let (mut m, s, _x, _y) = market_with_listing_setup();
    assert_eq!(m.list(s, 1, 8, 100, 0, 10), Err(Error::NotOwner));
    assert_eq!(m.list(s, 0, 7, 100, 0, 10), Err(Error::NotOwner));
}

#[test]
fn listing_with_bad_schedule_fails_without_custody_move() {
    let (mut m, s, _x, _y) = market_with_listing_setup();
    assert_eq!(m.list(s, 1, 7, 100, 10, 10), Err(Error::SchedulingFailed));
    assert_eq!(m.list(s, 1, 7, 100, 11, 10), Err(Error::SchedulingFailed));
    assert_eq!(m.owner(1, 7), Some(s));
    assert_eq!(m.auction_count(), 0);
}

#[test]
fn escrow_account_cannot_list() {
    let mut m = Market::new(42);
    let s = m.open_account(100);
    m.create_class(s).unwrap();
    // A token minted straight to the escrow account.
    m.mint(s, 42, 0, 1).unwrap();
    assert_eq!(m.owner(0, 0), Some(42));
    assert_eq!(m.list(42, 0, 0, 10, 0, 5), Err(Error::CustodyTransferFailed));
    assert_eq!(m.owner(0, 0), Some(42));
    assert_eq!(m.auction_count(), 0);
}

#[test]
fn bids_must_strictly_increase() {
    let (mut m, s, x, y) = market_with_listing_setup();
    let id = m.list(s, 1, 7, 100, 0, 10).unwrap();
    assert_eq!(m.on_new_bid(id, x, 99), Err(Error::BidTooLow));
    assert_eq!(m.on_new_bid(id, x, 100), Err(Error::BidTooLow));
    assert_eq!(m.on_new_bid(id, x, 101), Ok(()));
    // A tie with the current winner is rejected, from anyone.
    assert_eq!(m.on_new_bid(id, y, 101), Err(Error::BidTooLow));
    assert_eq!(m.on_new_bid(id, x, 101), Err(Error::BidTooLow));
    assert_eq!(m.on_new_bid(id, y, 100), Err(Error::BidTooLow));
    // The winner may raise their own bid.
    assert_eq!(m.on_new_bid(id, x, 120), Ok(()));
    assert_eq!(m.reserved_balance(x), 120);
    assert_eq!(m.free_balance(x), 880);
}

#[test]
fn bid_on_unknown_auction_fails() {
    let (mut m, s, x, _y) = market_with_listing_setup();
    assert_eq!(m.on_new_bid(3, x, 500), Err(Error::AuctionNotFound));
    let id = m.list(s, 1, 7, 100, 0, 10).unwrap();
    m.on_auction_ended(id);
    // A settled identifier no longer accepts bids.
    assert_eq!(m.on_new_bid(id, x, 500), Err(Error::AuctionNotFound));
}

#[test]
fn bid_without_funds_is_rejected_with_no_effect() {
    let (mut m, s, x, _y) = market_with_listing_setup();
    let id = m.list(s, 1, 7, 100, 0, 10).unwrap();
    // More than the bidder's free funds.
    assert_eq!(m.on_new_bid(id, x, 1001), Err(Error::ReservationFailed));
    assert_eq!(m.free_balance(x), 1000);
    // An account id the ledger has never seen.
    assert_eq!(m.on_new_bid(id, 555, 200), Err(Error::ReservationFailed));
    // A failed bid leaves the current winner in place.
    assert_eq!(m.on_new_bid(id, x, 150), Ok(()));
    assert_eq!(m.on_new_bid(id, 555, 200), Err(Error::ReservationFailed));
    let rec = m.auction(id).unwrap();
    let bid = rec.current_bid.unwrap();
    assert_eq!(bid.bidder, x);
    assert_eq!(bid.amount, 150);
    assert_eq!(m.reserved_balance(x), 150);
}

#[test]
fn settlement_is_idempotent() {
    let (mut m, s, x, _y) = market_with_listing_setup();
    let id = m.list(s, 1, 7, 100, 0, 10).unwrap();
    assert_eq!(m.on_new_bid(id, x, 150), Ok(()));
    assert_eq!(m.on_auction_ended(id), SettlementOutcome::Settled);
    let owner_after = m.owner(1, 7);
    let seller_funds = m.free_balance(s);
    let bidder_funds = m.free_balance(x);
    // The second call finds no record and does nothing.
    assert_eq!(m.on_auction_ended(id), SettlementOutcome::NoAuction);
    assert_eq!(m.owner(1, 7), owner_after);
    assert_eq!(m.free_balance(s), seller_funds);
    assert_eq!(m.free_balance(x), bidder_funds);
    assert_eq!(m.reserved_balance(x), 0);
    assert_eq!(m.on_auction_ended(7), SettlementOutcome::NoAuction);
}

#[test]
fn escrow_tracks_exactly_the_current_bid_across_auctions() {
    let (mut m, s, x, y) = market_with_listing_setup();
    // Two auctions: token (0, 0) and token (1, 7), both sold by s.
    let a = m.list(s, 0, 0, 10, 0, 10).unwrap();
    let b = m.list(s, 1, 7, 20, 0, 10).unwrap();
    assert_eq!(m.on_new_bid(a, x, 11), Ok(()));
    assert_eq!(m.on_new_bid(b, x, 21), Ok(()));
    // One account's reserve is the sum of its current winning bids.
    assert_eq!(m.reserved_balance(x), 32);
    assert_eq!(m.on_new_bid(a, y, 12), Ok(()));
    assert_eq!(m.reserved_balance(x), 21);
    assert_eq!(m.reserved_balance(y), 12);
    assert_eq!(m.on_auction_ended(a), SettlementOutcome::Settled);
    assert_eq!(m.reserved_balance(y), 0);
    assert_eq!(m.reserved_balance(x), 21);
    assert_eq!(m.on_auction_ended(b), SettlementOutcome::Settled);
    assert_eq!(m.reserved_balance(x), 0);
    assert_eq!(m.free_balance(s), 1000 + 12 + 21);
}

#[test]
fn settlement_to_unknown_seller_is_surfaced_and_changes_nothing() {
    let mut m = Market::new(999);
    let minter = m.open_account(0);
    let x = m.open_account(1000);
    m.create_class(minter).unwrap();
    // The seller owns the token but has no ledger account.
    let seller: u64 = 777;
    m.mint(minter, seller, 0, 1).unwrap();
    let id = m.list(seller, 0, 0, 10, 0, 10).unwrap();
    assert_eq!(m.on_new_bid(id, x, 50), Ok(()));
    assert_eq!(m.on_auction_ended(id), SettlementOutcome::DeliveryFailed);
    // Nothing moved: the record, the escrowed funds and the custody
    // all survive for manual intervention.
    assert!(m.auction(id).is_some());
    assert_eq!(m.reserved_balance(x), 50);
    assert_eq!(m.owner(0, 0), Some(m.escrow_account()));
}

#[test]
fn settlement_overflowing_the_seller_is_surfaced() {
    let mut m = Market::new(999);
    let s = m.open_account(u128::MAX);
    let x = m.open_account(1000);
    m.create_class(s).unwrap();
    m.mint(s, s, 0, 1).unwrap();
    let id = m.list(s, 0, 0, 10, 0, 10).unwrap();
    assert_eq!(m.on_new_bid(id, x, 50), Ok(()));
    assert_eq!(m.on_auction_ended(id), SettlementOutcome::DeliveryFailed);
    assert!(m.auction(id).is_some());
    assert_eq!(m.reserved_balance(x), 50);
    assert_eq!(m.free_balance(s), u128::MAX);
}

#[test]
fn seller_may_win_their_own_auction() {
    let (mut m, s, _x, _y) = market_with_listing_setup();
    let id = m.list(s, 1, 7, 100, 0, 10).unwrap();
    assert_eq!(m.on_new_bid(id, s, 200), Ok(()));
    assert_eq!(m.reserved_balance(s), 200);
    assert_eq!(m.on_auction_ended(id), SettlementOutcome::Settled);
    // Paying oneself nets to zero.
    assert_eq!(m.free_balance(s), 1000);
    assert_eq!(m.reserved_balance(s), 0);
    assert_eq!(m.owner(1, 7), Some(s));
}

#[test]
fn listed_token_cannot_be_moved_while_under_auction() {
    let (mut m, s, x, _y) = market_with_listing_setup();
    m.list(s, 1, 7, 100, 0, 10).unwrap();
    // The seller no longer holds it, and nobody may move escrow custody.
    assert!(m.transfer(s, x, 1, 7).is_err());
    let escrow = m.escrow_account();
    assert!(m.transfer(escrow, x, 1, 7).is_err());
    assert_eq!(m.owner(1, 7), Some(escrow));
}

#[test]
fn relisting_after_return_works() {
    let (mut m, s, x, _y) = market_with_listing_setup();
    let first = m.list(s, 1, 7, 100, 0, 10).unwrap();
    assert_eq!(m.on_auction_ended(first), SettlementOutcome::Returned);
    let second = m.list(s, 1, 7, 60, 0, 10).unwrap();
    assert_ne!(first, second);
    assert_eq!(m.on_new_bid(second, x, 61), Ok(()));
    assert_eq!(m.on_auction_ended(second), SettlementOutcome::Settled);
    assert_eq!(m.owner(1, 7), Some(x));
}
