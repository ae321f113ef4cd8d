//! Error values returned by validated constructors and by book updates.

use vstd::prelude::*;

verus! {

/// Why an event was rejected at construction.
#[derive(Debug, Clone, Copy, PartialEq, Eq, Structural)]
pub enum TransactionError {
    /// The side byte was neither 0 (bid) nor 1 (ask); carries the byte.
    InvalidSide(u8),
    /// The price was zero or negative; carries the price.
    NegativePrice(i64),
    /// The size was zero.
    ZeroSize,
}

/// Why a bundle was rejected at construction.
#[derive(Debug, Clone, Copy, PartialEq, Eq, Structural)]
pub enum BundleError {
    /// The count exceeds the bundle capacity.
    CountTooLarge { count: u32, max: usize },
}

/// Why a book update did not apply.
#[derive(Debug, Clone, Copy, PartialEq, Eq, Structural)]
pub enum OrderBookError {
    /// Adding the delta would leave the signed 64-bit range.
    QuantityOverflow,
    /// The compare-and-swap loop used up its retries.
    Timeout,
}

} // verus!
