//! Chain-wide time and currency constants, and the storage-deposit formula.

use vstd::prelude::*;
use crate::{Balance, BlockNumber};

verus! {

/// Average expected block time, in milliseconds.
pub const MILLISECS_PER_BLOCK: u64 = 6000;

/// Slot duration equals the block time.
pub const SLOT_DURATION: u64 = MILLISECS_PER_BLOCK;

/// Blocks per minute, at one block every six seconds.
pub const MINUTES: BlockNumber = 60_000 / 6000;

/// Blocks per hour.
pub const HOURS: BlockNumber = MINUTES * 60;

/// Blocks per day.
pub const DAYS: BlockNumber = HOURS * 24;

/// One thousandth of a cent of the native currency.
pub const MILLICENTS: Balance = 1_000_000_000;

/// One cent of the native currency.
pub const CENTS: Balance = 1_000 * MILLICENTS;

/// One whole unit of the native currency.
pub const UNITS: Balance = 100 * CENTS;

/// Deposit charged for occupying chain storage: a per-item charge of
/// fifteen cents plus a per-byte charge of six cents.
pub fn deposit(items: u32, bytes: u32) -> (r: Balance)
    ensures
        r == items * 15 * (CENTS as int) + bytes * 6 * (CENTS as int),
{
    items as Balance * 15 * CENTS + (bytes as Balance) * 6 * CENTS
}

} // verus!
