//! Error taxonomy of the lending engine.

use vstd::prelude::*;

verus! {

/// Every failure the engine can report.  All errors are terminal for the
/// current operation: no state is mutated when one is returned.
#[derive(Clone, Copy, Debug, PartialEq, Eq, Structural)]
pub enum LendingError {
    /// An amount was zero where a positive amount is required.
    InvalidAmount,
    /// A checked arithmetic operation exceeded its representable range.
    Overflow,
    /// A division by zero was attempted.
    DivideByZero,
    /// A supplied account reference does not match the recorded one.
    InvalidAccountInput,
    /// The reserve was not accrued recently enough for the operation.
    StaleReserve,
    /// The obligation has no collateral deposited or no debt outstanding.
    ObligationEmpty,
    /// A borrow would drive the reserve's available liquidity negative.
    InsufficientLiquidity,
    /// No loan sizing satisfies the reserve's loan-to-value ratio.
    LoanToValueExceeded,
    /// The same reserve was supplied on both sides of an operation.
    DuplicateReserve,
    /// The two reserves share the same underlying liquidity mint.
    DuplicateReserveMint,
    /// No viable route exists between the two reserve assets.
    TradeSimulationError,
    /// The two reserves belong to different lending markets.
    LendingMarketMismatch,
    /// The cumulative borrow rate moved backwards: corrupted state.
    NegativeInterestRate,
    /// The deposit reserve's loan-to-value ratio is zero.
    ReserveCollateralDisabled,
}

} // verus!
