use kodadot_market::assets::{AssetError, AssetRegistry};
use kodadot_market::constants::{
    deposit, CENTS, DAYS, HOURS, MILLICENTS, MILLISECS_PER_BLOCK, MINUTES, SLOT_DURATION, UNITS,
};
use kodadot_market::fees::DealWithFees;
use kodadot_market::ledger::Ledger;

#[test]
fn deposit_formula_exact_values() {
    assert_eq!(deposit(0, 0), 0);
    assert_eq!(deposit(1, 0), 15 * CENTS);
    assert_eq!(deposit(0, 1), 6 * CENTS);
    assert_eq!(deposit(1, 88), 15 * CENTS + 88 * 6 * CENTS);
    assert_eq!(deposit(0, 32), 32 * 6 * CENTS);
    assert_eq!(deposit(u32::MAX, u32::MAX), 4294967295u128 * 21 * CENTS);
}

#[test]
fn time_and_currency_constants() {
    assert_eq!(MILLISECS_PER_BLOCK, 6000);
    assert_eq!(SLOT_DURATION, 6000);
    assert_eq!(MINUTES, 10);
    assert_eq!(HOURS, 600);
    assert_eq!(DAYS, 14400);
    assert_eq!(MILLICENTS, 1_000_000_000);
    assert_eq!(CENTS, 1_000_000_000_000);
    assert_eq!(UNITS, 100_000_000_000_000);
}

#[test]
fn ledger_reserve_and_unreserve() {
    let mut l = Ledger::new();
    let a = l.open_account(100);
    assert_eq!(l.free_balance(a), 100);
    assert_eq!(l.reserved_balance(a), 0);
    assert!(l.reserve(a, 40));
    assert_eq!(l.free_balance(a), 60);
    assert_eq!(l.reserved_balance(a), 40);
    // More than the free funds cannot be reserved.
    assert!(!l.reserve(a, 61));
    assert_eq!(l.free_balance(a), 60);
    // Unreserving releases at most what is reserved.
    assert_eq!(l.unreserve(a, 55), 40);
    assert_eq!(l.free_balance(a), 100);
    assert_eq!(l.reserved_balance(a), 0);
    // Unknown accounts hold nothing.
    assert!(!l.reserve(9, 1));
    assert_eq!(l.unreserve(9, 1), 0);
    assert_eq!(l.free_balance(9), 0);
}

#[test]
fn ledger_transfer_rules() {
    let mut l = Ledger::new();
    let a = l.open_account(100);
    let b = l.open_account(7);
    assert!(l.transfer(a, b, 30));
    assert_eq!(l.free_balance(a), 70);
    assert_eq!(l.free_balance(b), 37);
    // The payer's reserved funds are not spendable.
    assert!(l.reserve(a, 50));
    assert!(!l.transfer(a, b, 21));
    assert!(l.transfer(a, b, 20));
    assert_eq!(l.free_balance(a), 0);
    // A transfer may empty the payer's account entirely.
    assert_eq!(l.free_balance(b), 57);
    // Unknown parties are refused.
    assert!(!l.transfer(a, 9, 1));
    assert!(!l.transfer(9, a, 1));
    // Transfers to oneself change nothing.
    assert!(l.transfer(b, b, 57));
    assert_eq!(l.free_balance(b), 57);
}

#[test]
fn ledger_refuses_overflowing_payee() {
    let mut l = Ledger::new();
    let rich = l.open_account(u128::MAX);
    let a = l.open_account(10);
    assert!(!l.transfer(a, rich, 1));
    assert_eq!(l.free_balance(a), 10);
    assert_eq!(l.free_balance(rich), u128::MAX);
    assert!(l.transfer(rich, a, u128::MAX - 10));
    assert_eq!(l.free_balance(a), u128::MAX);
    assert_eq!(l.free_balance(rich), 10);
}

#[test]
fn fees_go_to_the_treasury() {
    let mut l = Ledger::new();
    let treasury = l.open_account(50);
    assert!(DealWithFees::on_nonzero_unbalanced(&mut l, treasury, 30));
    assert_eq!(l.free_balance(treasury), 80);
    // An unknown treasury account cannot take the fee.
    assert!(!DealWithFees::on_nonzero_unbalanced(&mut l, 9, 30));
    // Nor can one whose holding would no longer fit the balance type.
    assert!(!DealWithFees::on_nonzero_unbalanced(&mut l, treasury, u128::MAX));
    assert_eq!(l.free_balance(treasury), 80);
}

#[test]
fn registry_classes_and_minting() {
    let mut r = AssetRegistry::new();
    assert_eq!(r.create_class(5), Ok(0));
    assert_eq!(r.create_class(6), Ok(1));
    assert_eq!(r.class_owner(0), Some(5));
    assert_eq!(r.class_owner(2), None);
    assert_eq!(r.class_count(), 2);
    // Only the class's minting account may mint, of a positive quantity.
    assert_eq!(r.mint(5, 8, 0, 0), Err(AssetError::InvalidQuantity));
    assert_eq!(r.mint(5, 8, 2, 1), Err(AssetError::ClassIdNotFound));
    assert_eq!(r.mint(6, 8, 0, 1), Err(AssetError::NoPermission));
    assert_eq!(r.mint(5, 8, 0, 3), Ok(()));
    assert_eq!(r.mint(6, 9, 1, 1), Ok(()));
    assert_eq!(r.token_count(), 4);
    // Token identifiers are registry-wide and sequential.
    assert_eq!(r.owner(0, 0), Some(8));
    assert_eq!(r.owner(0, 2), Some(8));
    assert_eq!(r.owner(1, 3), Some(9));
    // The pair must name the token's own class.
    assert_eq!(r.owner(1, 0), None);
    assert_eq!(r.owner(0, 9), None);
    assert_eq!(r.balance(8), 3);
    assert_eq!(r.balance(9), 1);
    assert_eq!(r.balance(5), 0);
}

#[test]
fn registry_custody_transfer() {
    let mut r = AssetRegistry::new();
    r.create_class(5).unwrap();
    r.mint(5, 8, 0, 2).unwrap();
    assert_eq!(r.transfer(8, 9, 0, 0), Ok(()));
    assert_eq!(r.owner(0, 0), Some(9));
    assert_eq!(r.owner(0, 1), Some(8));
    assert_eq!(r.balance(8), 1);
    assert_eq!(r.balance(9), 1);
    // Only the holder may move a token.
    assert_eq!(r.transfer(8, 7, 0, 0), Err(AssetError::NoPermission));
    assert_eq!(r.transfer(8, 7, 0, 5), Err(AssetError::TokenIdNotFound));
    assert_eq!(r.transfer(8, 7, 1, 1), Err(AssetError::TokenIdNotFound));
    assert_eq!(r.owner(0, 0), Some(9));
}
