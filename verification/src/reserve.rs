//! Pooled-liquidity reserves: one market per asset.
//!
//! A reserve tracks available and borrowed liquidity, a cumulative borrow
//! rate index used to accrue compound interest, loan-to-value and fee
//! configuration, and an optional price-reference market.  Every mutation
//! either applies completely or fails with no change.

use vstd::prelude::*;

use vstd::arithmetic::div_mod::{
    lemma_div_is_ordered, lemma_div_multiples_vanish, lemma_fundamental_div_mod,
};
use vstd::arithmetic::mul::{lemma_mul_is_commutative, lemma_mul_upper_bound};

use crate::decimal::{
    ceil_div, lemma_wad_ceil_fraction, lemma_wad_floor_fraction, lemma_wad_mul_tokens, wad_ceil,
    wad_floor, wad_mul, Decimal, PERCENT_SCALER, WAD,
};
use crate::error::LendingError;
use crate::pubkey::Pubkey;

verus! {

/// Slots per year, used to scale the borrow rate to a per-slot factor.
pub const SLOTS_PER_YEAR: u64 = 78_840_000;

/// How many slots a reserve's accrual may lag before it is considered
/// stale and must be refreshed before any further accrual.
pub const STALE_SLOT_TOLERANCE: u64 = 64;

/// The liquidity side of a reserve.
#[derive(Clone, Copy, Debug, PartialEq, Eq)]
pub struct ReserveLiquidity {
    /// Mint of the liquidity token.
    pub mint_pubkey: Pubkey,
    /// Account holding the pooled liquidity.
    pub supply_pubkey: Pubkey,
    /// Liquidity available to borrow, in whole tokens.
    pub available_amount: u64,
    /// Liquidity lent out, principal plus accrued interest, scaled.
    pub borrowed_amount_wads: Decimal,
    /// Monotonically non-decreasing compound-interest index.
    pub cumulative_borrow_rate_wads: Decimal,
}

/// The collateral (receipt token) side of a reserve.
#[derive(Clone, Copy, Debug, PartialEq, Eq)]
pub struct ReserveCollateral {
    /// Mint of the receipt token.
    pub mint_pubkey: Pubkey,
    /// Account holding deposited receipt tokens.
    pub supply_pubkey: Pubkey,
    /// Account receiving origination fees.
    pub fees_receiver: Pubkey,
}

/// Risk and fee configuration of a reserve.
#[derive(Clone, Copy, Debug, PartialEq, Eq)]
pub struct ReserveConfig {
    /// Maximum borrow value per unit of collateral value, in percent.
    pub loan_to_value_ratio: u8,
    /// Fraction of the collateral charged as origination fee, scaled.
    pub origination_fee_rate: Decimal,
    /// Fraction of the origination fee paid to the host, scaled.
    pub host_fee_rate: Decimal,
}

/// A pooled-liquidity market for one asset.
#[derive(Clone, Copy, Debug, PartialEq, Eq)]
pub struct Reserve {
    /// The market grouping this reserve belongs to.
    pub lending_market: Pubkey,
    /// The liquidity side.
    pub liquidity: ReserveLiquidity,
    /// The receipt-token side.
    pub collateral: ReserveCollateral,
    /// Risk and fee configuration.
    pub config: ReserveConfig,
    /// Optional price-reference market for this asset.
    pub dex_market: Option<Pubkey>,
    /// Slot of the last interest accrual.
    pub last_update_slot: u64,
}

impl Reserve {
    /// Structural validity: the configured ratios are genuine fractions and
    /// the interest index never sits below one.
    pub open spec fn wf(self) -> bool {
        &&& self.config.loan_to_value_ratio <= 100
        &&& self.config.origination_fee_rate.wads <= WAD
        &&& self.config.host_fee_rate.wads <= WAD
        &&& self.liquidity.cumulative_borrow_rate_wads.wads >= WAD
    }
}

/// What `ReserveLiquidity::borrow` does: moves `amount` from available to
/// borrowed, or fails with no change.
pub open spec fn spec_liquidity_borrow(liq: ReserveLiquidity, amount: u64) -> Result<
    ReserveLiquidity,
    LendingError,
> {
    if amount > liq.available_amount {
        Err(LendingError::InsufficientLiquidity)
    } else if liq.borrowed_amount_wads.wads + amount * WAD > u128::MAX {
        Err(LendingError::Overflow)
    } else {
        Ok(
            ReserveLiquidity {
                available_amount: (liq.available_amount - amount) as u64,
                borrowed_amount_wads: (
                Decimal { wads: (liq.borrowed_amount_wads.wads + amount * WAD) as u128 }),
                ..liq
            },
        )
    }
}

/// What `ReserveLiquidity::repay` does: returns `integer_amount` to the
/// available pool and retires `decimal_amount` of debt, or fails with no
/// change.
pub open spec fn spec_liquidity_repay(
    liq: ReserveLiquidity,
    integer_amount: u64,
    decimal_amount: Decimal,
) -> Result<ReserveLiquidity, LendingError> {
    if liq.available_amount + integer_amount > u64::MAX {
        Err(LendingError::Overflow)
    } else if decimal_amount.wads > liq.borrowed_amount_wads.wads {
        Err(LendingError::Overflow)
    } else {
        Ok(
            ReserveLiquidity {
                available_amount: (liq.available_amount + integer_amount) as u64,
                borrowed_amount_wads: (
                Decimal { wads: (liq.borrowed_amount_wads.wads - decimal_amount.wads) as u128 }),
                ..liq
            },
        )
    }
}

impl ReserveLiquidity {
    /// Lends out `amount`: the available pool shrinks and the outstanding
    /// debt grows by exactly the same value.  Fails with
    /// `InsufficientLiquidity` when the pool cannot cover the amount, and
    /// with no change on any failure.
    pub fn borrow(&mut self, amount: u64) -> (r: Result<(), LendingError>)
        ensures
            match spec_liquidity_borrow(*old(self), amount) {
                Ok(l2) => r == Ok::<(), LendingError>(()) && *final(self) == l2,
                Err(e) => r == Err::<(), LendingError>(e) && *final(self) == *old(self),
            },
    {
        if amount > self.available_amount {
            return Err(LendingError::InsufficientLiquidity);
        }
        let debt = Decimal::from_tokens(amount);
        match self.borrowed_amount_wads.try_add(debt) {
            Ok(new_borrowed) => {
                self.available_amount = self.available_amount - amount;
                self.borrowed_amount_wads = new_borrowed;
                Ok(())
            },
            Err(e) => Err(e),
        }
    }

    /// Settles a repayment: `integer_amount` whole tokens return to the
    /// available pool and `decimal_amount` of scaled debt is retired.
    /// Fails with no change when either side would leave its range.
    pub fn repay(&mut self, integer_amount: u64, decimal_amount: Decimal) -> (r: Result<
        (),
        LendingError,
    >)
        ensures
            match spec_liquidity_repay(*old(self), integer_amount, decimal_amount) {
                Ok(l2) => r == Ok::<(), LendingError>(()) && *final(self) == l2,
                Err(e) => r == Err::<(), LendingError>(e) && *final(self) == *old(self),
            },
    {
        match self.available_amount.checked_add(integer_amount) {
            Some(new_available) => match self.borrowed_amount_wads.try_sub(decimal_amount) {
                Ok(new_borrowed) => {
                    self.available_amount = new_available;
                    self.borrowed_amount_wads = new_borrowed;
                    Ok(())
                },
                Err(e) => Err(e),
            },
            None => Err(LendingError::Overflow),
        }
    }
}

/// Fraction of the pooled liquidity currently lent out, scaled; zero for
/// an empty pool.  Outstanding debt is rounded up to whole tokens first,
/// so utilization is never understated.
pub open spec fn spec_utilization_rate(liq: ReserveLiquidity) -> Result<Decimal, LendingError> {
    let debt = wad_ceil(liq.borrowed_amount_wads.wads as int);
    if debt > u64::MAX {
        Err(LendingError::Overflow)
    } else if liq.available_amount + debt > u64::MAX {
        Err(LendingError::Overflow)
    } else if liq.available_amount + debt == 0 {
        Ok(Decimal { wads: 0 })
    } else {
        Ok(Decimal { wads: ((debt * WAD) / (liq.available_amount + debt)) as u128 })
    }
}

/// The interest index after compounding `factor` (a scaled per-slot growth
/// factor) onto `cum` once per elapsed slot, truncating after each step;
/// `None` when a step leaves the representable range.
pub open spec fn spec_compound(cum: int, factor: int, steps: nat) -> Option<int>
    decreases steps,
{
    if steps == 0 {
        Some(cum)
    } else {
        match spec_compound(cum, factor, (steps - 1) as nat) {
            Some(c) => if wad_mul(c, factor) <= u128::MAX {
                Some(wad_mul(c, factor))
            } else {
                None
            },
            None => None,
        }
    }
}

/// What `Reserve::accrue_interest` does: fails `StaleReserve` when the
/// reserve lags beyond tolerance, otherwise compounds the per-slot rate
/// implied by current utilization over the elapsed slots and stamps the
/// current slot.
pub open spec fn spec_accrue_interest(r: Reserve, current_slot: u64) -> Result<
    Reserve,
    LendingError,
> {
    if current_slot - r.last_update_slot > STALE_SLOT_TOLERANCE {
        Err(LendingError::StaleReserve)
    } else {
        match spec_utilization_rate(r.liquidity) {
            Err(e) => Err(e),
            Ok(util) => {
                let factor = WAD + util.wads / (SLOTS_PER_YEAR as u128);
                match spec_compound(
                    r.liquidity.cumulative_borrow_rate_wads.wads as int,
                    factor as int,
                    (current_slot - r.last_update_slot) as nat,
                ) {
                    None => Err(LendingError::Overflow),
                    Some(c) => Ok(
                        Reserve {
                            liquidity: ReserveLiquidity {
                                cumulative_borrow_rate_wads: (Decimal { wads: c as u128 }),
                                ..r.liquidity
                            },
                            last_update_slot: current_slot,
                            ..r
                        },
                    ),
                }
            },
        }
    }
}

/// A compounded index with a growth factor of one or more never shrinks.
pub proof fn lemma_compound_monotonic(cum: int, factor: int, steps: nat)
    requires
        0 <= cum,
        factor >= WAD,
    ensures
        spec_compound(cum, factor, steps) matches Some(c) ==> c >= cum,
    decreases steps,
{
    if steps > 0 {
        lemma_compound_monotonic(cum, factor, (steps - 1) as nat);
        let prev = spec_compound(cum, factor, (steps - 1) as nat);
        if prev is Some {
            let c = prev.unwrap();
            if wad_mul(c, factor) <= u128::MAX {
                assert(c * WAD <= c * factor) by (nonlinear_arith)
                    requires
                        0 <= c,
                        WAD <= factor,
                ;
                lemma_div_is_ordered((c * WAD) as int, (c * factor) as int, WAD as int);
                lemma_mul_is_commutative(c, WAD as int);
                lemma_div_multiples_vanish(c, WAD as int);
            }
        }
    }
}

impl ReserveLiquidity {
    /// Fraction of the pooled liquidity currently lent out.
    pub fn utilization_rate(&self) -> (r: Result<Decimal, LendingError>)
        ensures
            r == spec_utilization_rate(*self),
    {
        let debt = match self.borrowed_amount_wads.try_ceil_u64() {
            Ok(d) => d,
            Err(e) => {
                return Err(e);
            },
        };
        let total = match self.available_amount.checked_add(debt) {
            Some(t) => t,
            None => {
                return Err(LendingError::Overflow);
            },
        };
        if total == 0 {
            return Ok(Decimal::zero());
        }
        proof {
            assert((debt as int) * (WAD as int) <= (u64::MAX as int) * (WAD as int))
                by (nonlinear_arith)
                requires
                    debt <= u64::MAX,
            ;
            assert((u64::MAX as int) * (WAD as int) <= u128::MAX) by (nonlinear_arith);
        }
        let scaled: u128 = (debt as u128) * WAD / (total as u128);
        Ok(Decimal::from_scaled_val(scaled))
    }
}

impl Reserve {
    /// Compounds the reserve's interest-rate model over the slots elapsed
    /// since the last accrual and stamps `current_slot`.  The per-slot rate
    /// is the pool's utilization spread over a year of slots.  Fails
    /// `StaleReserve` when the reserve lags beyond `STALE_SLOT_TOLERANCE`;
    /// accrual is never silently skipped, and nothing changes on failure.
    /// The cumulative index never decreases.
    pub fn accrue_interest(&mut self, current_slot: u64) -> (r: Result<(), LendingError>)
        requires
            old(self).last_update_slot <= current_slot,
        ensures
            match spec_accrue_interest(*old(self), current_slot) {
                Ok(r2) => r == Ok::<(), LendingError>(()) && *final(self) == r2,
                Err(e) => r == Err::<(), LendingError>(e) && *final(self) == *old(self),
            },
            final(self).liquidity.cumulative_borrow_rate_wads.wads >= old(
                self,
            ).liquidity.cumulative_borrow_rate_wads.wads,
            final(self).last_update_slot >= old(self).last_update_slot,
            final(self).liquidity.available_amount == old(self).liquidity.available_amount,
            final(self).liquidity.borrowed_amount_wads == old(self).liquidity.borrowed_amount_wads,
    {
        let slot_delta = current_slot - self.last_update_slot;
        if slot_delta > STALE_SLOT_TOLERANCE {
            return Err(LendingError::StaleReserve);
        }
        match self.liquidity.utilization_rate() {
            Err(e) => Err(e),
            Ok(util) => self.compound_rate(util, slot_delta, current_slot),
        }
    }

    /// Applies `slot_delta` compounding steps of the per-slot rate implied
    /// by `util` and stamps `current_slot`.
    #[verifier::loop_isolation(false)]
    fn compound_rate(&mut self, util: Decimal, slot_delta: u64, current_slot: u64) -> (r: Result<
        (),
        LendingError,
    >)
        requires
            old(self).last_update_slot <= current_slot,
            slot_delta == current_slot - old(self).last_update_slot,
            slot_delta <= STALE_SLOT_TOLERANCE,
            Ok::<Decimal, LendingError>(util) == spec_utilization_rate(old(self).liquidity),
        ensures
            match spec_accrue_interest(*old(self), current_slot) {
                Ok(r2) => r == Ok::<(), LendingError>(()) && *final(self) == r2,
                Err(e) => r == Err::<(), LendingError>(e) && *final(self) == *old(self),
            },
            final(self).liquidity.cumulative_borrow_rate_wads.wads >= old(
                self,
            ).liquidity.cumulative_borrow_rate_wads.wads,
            final(self).last_update_slot >= old(self).last_update_slot,
    {
        let factor = Decimal::from_scaled_val(WAD + util.wads / (SLOTS_PER_YEAR as u128));
        let ghost cum0 = self.liquidity.cumulative_borrow_rate_wads.wads as int;
        let mut cum = self.liquidity.cumulative_borrow_rate_wads;
        let mut k: u64 = 0;
        while k < slot_delta
            invariant
                k <= slot_delta,
                spec_compound(cum0, factor.wads as int, k as nat) == Some(cum.wads as int),
            decreases slot_delta - k,
        {
            let step = cum.try_mul(factor);
            match step {
                Ok(c) => {
                    cum = c;
                },
                Err(e) => {
                    proof {
                        lemma_compound_none_persists(
                            cum0,
                            factor.wads as int,
                            (k + 1) as nat,
                            slot_delta as nat,
                        );
                    }
                    return Err(e);
                },
            }
            k = k + 1;
        }
        proof {
            lemma_compound_monotonic(cum0, factor.wads as int, slot_delta as nat);
        }
        self.liquidity.cumulative_borrow_rate_wads = cum;
        self.last_update_slot = current_slot;
        Ok(())
    }
}

/// Once a compounding step overflows, every longer horizon overflows too.
proof fn lemma_compound_none_persists(cum: int, factor: int, from: nat, to: nat)
    requires
        from <= to,
        spec_compound(cum, factor, from) is None,
    ensures
        spec_compound(cum, factor, to) is None,
    decreases to - from,
{
    if from < to {
        lemma_compound_none_persists(cum, factor, from, (to - 1) as nat);
    }
}

/// Accrual is idempotent at a fixed slot: once a reserve has been accrued
/// to `current_slot`, accruing it again at the same slot succeeds and
/// leaves it unchanged.
pub proof fn lemma_accrue_idempotent(r: Reserve, current_slot: u64)
    requires
        r.last_update_slot <= current_slot,
        spec_accrue_interest(r, current_slot) is Ok,
    ensures
        spec_accrue_interest(
            spec_accrue_interest(r, current_slot).unwrap(),
            current_slot,
        ) == spec_accrue_interest(r, current_slot),
{
    let r2 = spec_accrue_interest(r, current_slot).unwrap();
    assert(r2.last_update_slot == current_slot);
    assert(spec_utilization_rate(r2.liquidity) == spec_utilization_rate(r.liquidity));
}

/// Borrowing and then repaying the same amount restores the liquidity
/// exactly: the repayment is always accepted and both counters return to
/// their pre-borrow values, with no drift in either direction.
pub proof fn lemma_borrow_then_repay_restores(liq: ReserveLiquidity, amount: u64)
    requires
        spec_liquidity_borrow(liq, amount) is Ok,
    ensures
        spec_liquidity_repay(
            spec_liquidity_borrow(liq, amount).unwrap(),
            amount,
            (Decimal { wads: (amount * WAD) as u128 }),
        ) == Ok::<ReserveLiquidity, LendingError>(liq),
{
}

/// Whether a requested loan amount is denominated in collateral receipt
/// tokens or in liquidity tokens of the borrow reserve.
#[derive(Clone, Copy, Debug, PartialEq, Eq, Structural)]
pub enum BorrowAmountType {
    /// The caller fixes the collateral to deposit; the engine sizes the
    /// largest borrow the loan-to-value ratio allows.
    CollateralDepositAmount,
    /// The caller fixes the liquidity to borrow; the engine sizes the
    /// smallest collateral the loan-to-value ratio requires.
    LiquidityBorrowAmount,
}

/// A sized loan: what moves where when it is opened.
#[derive(Clone, Copy, Debug, PartialEq, Eq)]
pub struct Loan {
    /// Liquidity disbursed from the borrow reserve, in whole tokens.
    pub borrow_amount: u64,
    /// Collateral locked in the deposit reserve, net of fees.
    pub collateral_amount: u64,
    /// Collateral charged as origination fee, on top of the deposit.
    pub origination_fee: u64,
    /// Portion of the origination fee owed to the host.
    pub host_fee: u64,
}

/// The origination fee owed on `amount` collateral tokens: the configured
/// fraction, rounded up so the protocol is never short-changed.
pub open spec fn spec_origination_fee(config: ReserveConfig, amount: u64) -> int {
    wad_ceil(amount * config.origination_fee_rate.wads)
}

/// The host's share of an origination fee, rounded down.
pub open spec fn spec_host_fee(config: ReserveConfig, origination_fee: int) -> int {
    wad_floor(origination_fee * config.host_fee_rate.wads)
}

/// What `Reserve::create_loan` does: sizes a loan from the requested
/// amount, the price estimate (collateral tokens per borrow token, scaled)
/// and the reserve's loan-to-value ratio, rounding every boundary in the
/// protocol's favor.
pub open spec fn spec_create_loan(
    r: Reserve,
    token_amount: u64,
    amount_type: BorrowAmountType,
    price_estimate: Decimal,
    borrow_mint: Pubkey,
) -> Result<Loan, LendingError> {
    if token_amount == 0 {
        Err(LendingError::InvalidAmount)
    } else if borrow_mint == r.liquidity.mint_pubkey {
        Err(LendingError::DuplicateReserveMint)
    } else if r.config.loan_to_value_ratio == 0 {
        Err(LendingError::LoanToValueExceeded)
    } else if price_estimate.wads == 0 {
        Err(LendingError::DivideByZero)
    } else {
        let ltv_wads = r.config.loan_to_value_ratio * PERCENT_SCALER;
        match amount_type {
            BorrowAmountType::CollateralDepositAmount => {
                let origination_fee = spec_origination_fee(r.config, token_amount);
                let host_fee = spec_host_fee(r.config, origination_fee);
                let collateral = token_amount - origination_fee;
                let borrow = (collateral * ltv_wads) / (price_estimate.wads as int);
                if borrow > u64::MAX {
                    Err(LendingError::Overflow)
                } else if borrow == 0 {
                    Err(LendingError::LoanToValueExceeded)
                } else {
                    Ok(
                        Loan {
                            borrow_amount: borrow as u64,
                            collateral_amount: collateral as u64,
                            origination_fee: origination_fee as u64,
                            host_fee: host_fee as u64,
                        },
                    )
                }
            },
            BorrowAmountType::LiquidityBorrowAmount => {
                if token_amount * price_estimate.wads > u128::MAX {
                    Err(LendingError::Overflow)
                } else {
                    let collateral = ceil_div(token_amount * price_estimate.wads, ltv_wads);
                    if collateral > u64::MAX {
                        Err(LendingError::Overflow)
                    } else {
                        let origination_fee = spec_origination_fee(
                            r.config,
                            collateral as u64,
                        );
                        Ok(
                            Loan {
                                borrow_amount: token_amount,
                                collateral_amount: collateral as u64,
                                origination_fee: origination_fee as u64,
                                host_fee: spec_host_fee(r.config, origination_fee) as u64,
                            },
                        )
                    }
                }
            },
        }
    }
}

impl ReserveConfig {
    /// Origination and host fees owed on `amount` collateral tokens.  The
    /// origination fee rounds up (ties favor the reserve) and never exceeds
    /// the amount itself; the host's share rounds down.
    pub fn calculate_fees(&self, amount: u64) -> (r: (u64, u64))
        requires
            self.origination_fee_rate.wads <= WAD,
            self.host_fee_rate.wads <= WAD,
        ensures
            r.0 == spec_origination_fee(*self, amount),
            r.1 == spec_host_fee(*self, r.0 as int),
            r.1 <= r.0 <= amount,
    {
        proof {
            lemma_wad_mul_tokens(amount as int, self.origination_fee_rate.wads as int);
            lemma_mul_upper_bound(
                amount as int,
                u64::MAX as int,
                self.origination_fee_rate.wads as int,
                WAD as int,
            );
            assert((u64::MAX as int) * (WAD as int) <= u128::MAX) by (nonlinear_arith);
            lemma_wad_ceil_fraction(amount as int, self.origination_fee_rate.wads as int);
        }
        let scaled_fee = match Decimal::from_tokens(amount).try_mul(self.origination_fee_rate) {
            Ok(f) => f,
            Err(_) => Decimal::zero(),
        };
        let origination_fee = match scaled_fee.try_ceil_u64() {
            Ok(f) => f,
            Err(_) => 0,
        };
        proof {
            lemma_wad_mul_tokens(origination_fee as int, self.host_fee_rate.wads as int);
            lemma_mul_upper_bound(
                origination_fee as int,
                u64::MAX as int,
                self.host_fee_rate.wads as int,
                WAD as int,
            );
            assert((u64::MAX as int) * (WAD as int) <= u128::MAX) by (nonlinear_arith);
            lemma_wad_floor_fraction(origination_fee as int, self.host_fee_rate.wads as int);
        }
        let scaled_host = match Decimal::from_tokens(origination_fee).try_mul(self.host_fee_rate) {
            Ok(f) => f,
            Err(_) => Decimal::zero(),
        };
        let host_fee = match scaled_host.try_floor_u64() {
            Ok(f) => f,
            Err(_) => 0,
        };
        (origination_fee, host_fee)
    }
}

impl Reserve {
    /// Sizes a loan against this deposit reserve.  `price_estimate` is the
    /// advisory exchange rate (collateral tokens per borrow token, scaled)
    /// from the trade simulator; the sizing re-validates the loan-to-value
    /// bound rather than trusting it.  The returned loan never borrows more
    /// than the configured fraction of the deposited collateral's value:
    /// `borrow_amount * price <= collateral_amount * loan_to_value`.
    pub fn create_loan(
        &self,
        token_amount: u64,
        amount_type: BorrowAmountType,
        price_estimate: Decimal,
        borrow_mint: Pubkey,
    ) -> (r: Result<Loan, LendingError>)
        requires
            self.wf(),
        ensures
            r == spec_create_loan(*self, token_amount, amount_type, price_estimate, borrow_mint),
            r matches Ok(loan) ==> (loan.borrow_amount as int) * price_estimate.wads <= (
            loan.collateral_amount as int) * (self.config.loan_to_value_ratio * PERCENT_SCALER),
            r matches Ok(loan) ==> loan.host_fee <= loan.origination_fee,
    {
        if token_amount == 0 {
            return Err(LendingError::InvalidAmount);
        }
        if borrow_mint == self.liquidity.mint_pubkey {
            return Err(LendingError::DuplicateReserveMint);
        }
        if self.config.loan_to_value_ratio == 0 {
            return Err(LendingError::LoanToValueExceeded);
        }
        if price_estimate.wads == 0 {
            return Err(LendingError::DivideByZero);
        }
        let ltv_wads: u128 = (self.config.loan_to_value_ratio as u128) * PERCENT_SCALER;
        match amount_type {
            BorrowAmountType::CollateralDepositAmount => {
                let fees = self.config.calculate_fees(token_amount);
                let collateral = token_amount - fees.0;
                proof {
                    lemma_mul_upper_bound(
                        collateral as int,
                        u64::MAX as int,
                        ltv_wads as int,
                        WAD as int,
                    );
                    assert((u64::MAX as int) * (WAD as int) <= u128::MAX) by (nonlinear_arith);
                }
                let value: u128 = (collateral as u128) * ltv_wads;
                let borrow: u128 = value / price_estimate.wads;
                proof {
                    lemma_fundamental_div_mod(value as int, price_estimate.wads as int);
                    lemma_mul_is_commutative(price_estimate.wads as int, borrow as int);
                }
                if borrow > u64::MAX as u128 {
                    Err(LendingError::Overflow)
                } else if borrow == 0 {
                    Err(LendingError::LoanToValueExceeded)
                } else {
                    Ok(
                        Loan {
                            borrow_amount: borrow as u64,
                            collateral_amount: collateral,
                            origination_fee: fees.0,
                            host_fee: fees.1,
                        },
                    )
                }
            },
            BorrowAmountType::LiquidityBorrowAmount => {
                match (token_amount as u128).checked_mul(price_estimate.wads) {
                    None => Err(LendingError::Overflow),
                    Some(value) => {
                        let q: u128 = value / ltv_wads;
                        let rem: u128 = value % ltv_wads;
                        proof {
                            lemma_fundamental_div_mod(value as int, ltv_wads as int);
                            assert(q + 1 <= u128::MAX) by (nonlinear_arith)
                                requires
                                    (ltv_wads as int) * (q as int) + rem == value,
                                    value <= u128::MAX,
                                    ltv_wads >= 2,
                                    rem >= 0,
                            ;
                        }
                        let collateral128: u128 = if rem == 0 {
                            q
                        } else {
                            q + 1
                        };
                        if collateral128 > u64::MAX as u128 {
                            Err(LendingError::Overflow)
                        } else {
                            let collateral = collateral128 as u64;
                            let fees = self.config.calculate_fees(collateral);
                            proof {
                                lemma_mul_is_commutative(ltv_wads as int, q as int);
                                lemma_mul_is_commutative(ltv_wads as int, collateral128 as int);
                                if rem != 0 {
                                    // (q + 1) * ltv covers the rounded-up step.
                                    vstd::arithmetic::mul::lemma_mul_is_distributive_add(
                                        ltv_wads as int,
                                        q as int,
                                        1,
                                    );
                                }
                                assert(value <= (collateral128 as int) * (ltv_wads as int));
                            }
                            Ok(
                                Loan {
                                    borrow_amount: token_amount,
                                    collateral_amount: collateral,
                                    origination_fee: fees.0,
                                    host_fee: fees.1,
                                },
                            )
                        }
                    },
                }
            },
        }
    }
}

} // verus!
