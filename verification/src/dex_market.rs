//! Price oracle adapter: the trade simulator.
//!
//! Given the two reserve assets and a snapshot of the price-reference
//! market's order book, the simulator estimates the execution rate and the
//! worst-case rate of a hypothetical trade, without moving any value.  The
//! estimate is advisory: loan sizing re-validates the loan-to-value bound
//! against whatever rate is supplied.

use vstd::prelude::*;

use crate::decimal::Decimal;
use crate::error::LendingError;
use crate::pubkey::Pubkey;

verus! {

/// One price level of an order-book snapshot: `quantity` base (borrow
/// asset) units offered at `rate` collateral tokens per base unit, scaled.
#[derive(Clone, Copy, Debug, PartialEq, Eq)]
pub struct OrderLevel {
    /// Exchange rate at this level: collateral tokens per base unit.
    pub rate: Decimal,
    /// Base units available at this rate.
    pub quantity: u64,
}

/// The simulator's estimate for one hypothetical trade.
#[derive(Clone, Copy, Debug, PartialEq, Eq)]
pub struct TradeEstimate {
    /// Average rate over the filled amount, truncated.
    pub execution_rate: Decimal,
    /// Highest rate any filled level carried: the conservative bound.
    pub worst_case_rate: Decimal,
}

/// A simulator for trades between two reserve assets through the market's
/// quote asset.
#[derive(Clone, Copy, Debug, PartialEq, Eq)]
pub struct TradeSimulator {
    /// The lending market's quote asset mint.
    pub quote_token_mint: Pubkey,
    /// Mint of the borrow reserve's liquidity.
    pub borrow_token_mint: Pubkey,
    /// Mint of the deposit reserve's liquidity.
    pub deposit_token_mint: Pubkey,
}

/// Walking the book: fills `remaining` base units front to back, keeping a
/// running scaled value and the highest rate touched.  Fails
/// `TradeSimulationError` when the book lacks depth and `Overflow` when the
/// running value leaves the representable range.
pub open spec fn spec_fill(levels: Seq<OrderLevel>, remaining: int, value: int, worst: int) -> Result<
    (int, int),
    LendingError,
>
    decreases levels.len(),
{
    if remaining == 0 {
        Ok((value, worst))
    } else if levels.len() == 0 {
        Err(LendingError::TradeSimulationError)
    } else {
        let take = if remaining < levels[0].quantity {
            remaining
        } else {
            levels[0].quantity as int
        };
        if value + take * levels[0].rate.wads > u128::MAX {
            Err(LendingError::Overflow)
        } else {
            spec_fill(
                levels.skip(1),
                remaining - take,
                value + take * levels[0].rate.wads,
                if take > 0 && levels[0].rate.wads > worst {
                    levels[0].rate.wads as int
                } else {
                    worst
                },
            )
        }
    }
}

/// What `TradeSimulator::simulate_trade` does: fills `amount` base units
/// against the snapshot and reports the average and worst rates.
pub open spec fn spec_simulate_trade(book: Seq<OrderLevel>, amount: u64) -> Result<
    TradeEstimate,
    LendingError,
> {
    if amount == 0 {
        Err(LendingError::InvalidAmount)
    } else {
        match spec_fill(book, amount as int, 0, 0) {
            Err(e) => Err(e),
            Ok(vw) => Ok(
                TradeEstimate {
                    execution_rate: (Decimal { wads: (vw.0 / (amount as int)) as u128 }),
                    worst_case_rate: (Decimal { wads: vw.1 as u128 }),
                },
            ),
        }
    }
}

impl TradeSimulator {
    /// Builds a simulator for converting between the two reserve assets.
    /// A viable route exists only through the market's quote asset, so one
    /// of the two mints must be the quote mint; otherwise the simulation
    /// fails `TradeSimulationError`.
    pub fn new(
        quote_token_mint: Pubkey,
        borrow_token_mint: Pubkey,
        deposit_token_mint: Pubkey,
    ) -> (r: Result<TradeSimulator, LendingError>)
        ensures
            borrow_token_mint != quote_token_mint && deposit_token_mint != quote_token_mint ==> r
                == Err::<TradeSimulator, LendingError>(LendingError::TradeSimulationError),
            borrow_token_mint == quote_token_mint || deposit_token_mint == quote_token_mint ==> r
                == Ok::<TradeSimulator, LendingError>(
                (TradeSimulator { quote_token_mint, borrow_token_mint, deposit_token_mint }),
            ),
    {
        if borrow_token_mint != quote_token_mint && deposit_token_mint != quote_token_mint {
            return Err(LendingError::TradeSimulationError);
        }
        Ok(TradeSimulator { quote_token_mint, borrow_token_mint, deposit_token_mint })
    }

    /// Estimates the execution of a trade of `amount` base units against
    /// the supplied order-book snapshot.  Returns the average rate over the
    /// filled amount and the worst (highest) rate touched; fails when the
    /// book lacks depth for the full amount.
    #[verifier::loop_isolation(false)]
    pub fn simulate_trade(&self, book: &Vec<OrderLevel>, amount: u64) -> (r: Result<
        TradeEstimate,
        LendingError,
    >)
        ensures
            r == spec_simulate_trade(book@, amount),
    {
        if amount == 0 {
            return Err(LendingError::InvalidAmount);
        }
        let mut remaining: u64 = amount;
        let mut value: u128 = 0;
        let mut worst: u128 = 0;
        let mut i: usize = 0;
        proof {
            assert(book@.skip(0) =~= book@);
        }
        while i < book.len() && remaining > 0
            invariant
                i <= book.len(),
                remaining <= amount,
                spec_fill(book@, amount as int, 0, 0) == spec_fill(
                    book@.skip(i as int),
                    remaining as int,
                    value as int,
                    worst as int,
                ),
            decreases book.len() - i,
        {
            let level = book[i];
            let take: u64 = if remaining < level.quantity {
                remaining
            } else {
                level.quantity
            };
            proof {
                assert(book@.skip(i as int)[0] == book@[i as int]);
                assert(book@.skip(i as int).skip(1) =~= book@.skip(i as int + 1));
            }
            let scaled = match (take as u128).checked_mul(level.rate.wads) {
                Some(s) => s,
                None => {
                    proof {
                        assert((value as int) + (take as int) * (level.rate.wads as int)
                            > u128::MAX) by (nonlinear_arith)
                            requires
                                (take as int) * (level.rate.wads as int) > u128::MAX,
                                value >= 0,
                        ;
                    }
                    return Err(LendingError::Overflow);
                },
            };
            value = match value.checked_add(scaled) {
                Some(v) => v,
                None => {
                    return Err(LendingError::Overflow);
                },
            };
            if take > 0 && level.rate.wads > worst {
                worst = level.rate.wads;
            }
            remaining = remaining - take;
            i = i + 1;
        }
        if remaining > 0 {
            return Err(LendingError::TradeSimulationError);
        }
        Ok(
            TradeEstimate {
                execution_rate: Decimal::from_scaled_val(value / (amount as u128)),
                worst_case_rate: Decimal::from_scaled_val(worst),
            },
        )
    }
}

} // verus!
