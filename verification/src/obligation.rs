//! Borrower obligations: one collateralized debt position per borrower.
//!
//! An obligation locks receipt tokens of a collateral reserve against debt
//! in a borrow reserve.  Interest accrues by the ratio of the borrow
//! reserve's cumulative rate to the snapshot taken at the last accrual;
//! repayment releases collateral in proportion to the debt retired,
//! rounding in the protocol's favor.

use vstd::prelude::*;

use vstd::arithmetic::div_mod::{
    lemma_div_by_multiple, lemma_div_is_ordered, lemma_div_is_ordered_by_denominator,
    lemma_div_multiples_vanish, lemma_multiply_divide_lt,
};
use vstd::arithmetic::mul::{
    lemma_mul_inequality, lemma_mul_is_commutative, lemma_mul_strict_inequality,
};

use crate::decimal::{
    lemma_wad_floor_fraction, lemma_wad_mul_tokens, wad_ceil, wad_div, wad_floor, wad_mul, Decimal,
    WAD,
};
use crate::error::LendingError;
use crate::pubkey::Pubkey;

verus! {

/// One borrower's collateralized debt position.
#[derive(Clone, Copy, Debug, PartialEq, Eq)]
pub struct Obligation {
    /// Reserve whose receipt tokens are locked as collateral.
    pub collateral_reserve: Pubkey,
    /// Reserve whose liquidity is borrowed.
    pub borrow_reserve: Pubkey,
    /// Receipt tokens locked, in whole tokens.
    pub deposited_collateral_tokens: u64,
    /// The borrow reserve's cumulative rate at the last accrual.
    pub cumulative_borrow_rate_wads: Decimal,
    /// Principal plus accrued interest owed, scaled.
    pub borrowed_liquidity_wads: Decimal,
    /// Mint of the receipt token sizing partial repayments.
    pub token_mint: Pubkey,
}

/// What a repayment settles to.
#[derive(Clone, Copy, Debug, PartialEq, Eq)]
pub struct RepayResult {
    /// Whole tokens the borrower must pay in, covering the retired debt.
    pub integer_repay_amount: u64,
    /// Scaled debt retired.
    pub decimal_repay_amount: Decimal,
    /// Collateral receipt tokens released to the borrower.
    pub collateral_withdraw_amount: u64,
    /// Obligation receipt tokens to burn.
    pub obligation_token_amount: u64,
}

impl Obligation {
    /// Structural validity: the rate snapshot never sits below one, and
    /// debt is always backed by collateral.
    pub open spec fn wf(self) -> bool {
        &&& self.cumulative_borrow_rate_wads.wads >= WAD
        &&& self.borrowed_liquidity_wads.wads > 0 ==> self.deposited_collateral_tokens > 0
    }

    /// An obligation with no collateral and no debt is closed.
    pub open spec fn is_closed(self) -> bool {
        self.deposited_collateral_tokens == 0 && self.borrowed_liquidity_wads.wads == 0
    }
}

/// What `Obligation::accrue_interest` does: scales the debt by the growth
/// of the cumulative rate since the snapshot and advances the snapshot.  A
/// rate that moved backwards is a corrupted-state fault, never clamped.
pub open spec fn spec_obligation_accrue(o: Obligation, cumulative_borrow_rate: Decimal) -> Result<
    Obligation,
    LendingError,
> {
    if cumulative_borrow_rate.wads < o.cumulative_borrow_rate_wads.wads {
        Err(LendingError::NegativeInterestRate)
    } else {
        let ratio = wad_div(
            cumulative_borrow_rate.wads as int,
            o.cumulative_borrow_rate_wads.wads as int,
        );
        if wad_mul(o.borrowed_liquidity_wads.wads as int, ratio) > u128::MAX {
            Err(LendingError::Overflow)
        } else {
            Ok(
                Obligation {
                    borrowed_liquidity_wads: (
                    Decimal {
                        wads: wad_mul(o.borrowed_liquidity_wads.wads as int, ratio) as u128,
                    }),
                    cumulative_borrow_rate_wads: cumulative_borrow_rate,
                    ..o
                },
            )
        }
    }
}

/// What `Obligation::repay` does: caps the requested amount at the debt
/// outstanding, retires that much, and releases collateral and obligation
/// tokens in the same proportion, rounding both releases down and the
/// amount paid in up.
pub open spec fn spec_obligation_repay(
    o: Obligation,
    liquidity_amount: u64,
    obligation_token_supply: u64,
) -> Result<(Obligation, RepayResult), LendingError> {
    if liquidity_amount == 0 {
        Err(LendingError::InvalidAmount)
    } else if o.deposited_collateral_tokens == 0 || o.borrowed_liquidity_wads.wads == 0 {
        Err(LendingError::ObligationEmpty)
    } else {
        let decimal_repay = if liquidity_amount * WAD >= o.borrowed_liquidity_wads.wads {
            o.borrowed_liquidity_wads.wads as int
        } else {
            liquidity_amount * WAD
        };
        if wad_ceil(decimal_repay) > u64::MAX {
            Err(LendingError::Overflow)
        } else {
            let pct = wad_div(decimal_repay, o.borrowed_liquidity_wads.wads as int);
            let collateral_withdraw = wad_floor(o.deposited_collateral_tokens * pct);
            let token_amount = wad_floor(obligation_token_supply * pct);
            Ok(
                (
                    Obligation {
                        deposited_collateral_tokens: (o.deposited_collateral_tokens
                            - collateral_withdraw) as u64,
                        borrowed_liquidity_wads: (
                        Decimal { wads: (o.borrowed_liquidity_wads.wads - decimal_repay) as u128 }),
                        ..o
                    },
                    RepayResult {
                        integer_repay_amount: wad_ceil(decimal_repay) as u64,
                        decimal_repay_amount: (Decimal { wads: decimal_repay as u128 }),
                        collateral_withdraw_amount: collateral_withdraw as u64,
                        obligation_token_amount: token_amount as u64,
                    },
                ),
            )
        }
    }
}

impl Obligation {
    /// Accrues interest on the debt: requires the borrow reserve's current
    /// cumulative rate, which must not have moved backwards.  The debt is
    /// multiplied by the rate's growth since the last snapshot; it never
    /// shrinks, and nothing changes on failure.
    pub fn accrue_interest(&mut self, cumulative_borrow_rate: Decimal) -> (r: Result<
        (),
        LendingError,
    >)
        requires
            old(self).wf(),
        ensures
            match spec_obligation_accrue(*old(self), cumulative_borrow_rate) {
                Ok(o2) => r == Ok::<(), LendingError>(()) && *final(self) == o2,
                Err(e) => r == Err::<(), LendingError>(e) && *final(self) == *old(self),
            },
            final(self).wf(),
            final(self).borrowed_liquidity_wads.wads >= old(self).borrowed_liquidity_wads.wads,
            final(self).deposited_collateral_tokens == old(self).deposited_collateral_tokens,
    {
        if cumulative_borrow_rate.wads < self.cumulative_borrow_rate_wads.wads {
            return Err(LendingError::NegativeInterestRate);
        }
        proof {
            // The growth ratio exists (the snapshot is at least one) and is
            // itself at least one, so the debt cannot shrink.
            let rate = cumulative_borrow_rate.wads as int;
            let snap = self.cumulative_borrow_rate_wads.wads as int;
            lemma_div_is_ordered_by_denominator(rate * WAD, WAD as int, snap);
            lemma_div_multiples_vanish(rate, WAD as int);
            lemma_mul_is_commutative(rate, WAD as int);
            assert(wad_div(rate, snap) <= rate);
            lemma_mul_inequality(snap, rate, WAD as int);
            lemma_div_is_ordered(snap * WAD, rate * WAD, snap);
            lemma_div_multiples_vanish(WAD as int, snap);
            lemma_mul_is_commutative(snap, WAD as int);
            assert(wad_div(rate, snap) >= WAD);
        }
        let ratio = match cumulative_borrow_rate.try_div(self.cumulative_borrow_rate_wads) {
            Ok(x) => x,
            Err(e) => {
                return Err(e);
            },
        };
        let new_borrowed = match self.borrowed_liquidity_wads.try_mul(ratio) {
            Ok(b) => b,
            Err(e) => {
                return Err(e);
            },
        };
        proof {
            let b = self.borrowed_liquidity_wads.wads as int;
            let f = ratio.wads as int;
            lemma_mul_inequality(WAD as int, f, b);
            lemma_mul_is_commutative(b, f);
            lemma_mul_is_commutative(b, WAD as int);
            lemma_div_is_ordered(b * WAD, b * f, WAD as int);
            lemma_div_by_multiple(b, WAD as int);
            assert(wad_mul(b, f) >= b);
            if b == 0 {
                // No debt stays no debt: the scaled product of zero is zero.
                assert(b * f == 0) by (nonlinear_arith)
                    requires
                        b == 0,
                ;
                lemma_div_by_multiple(0, WAD as int);
                assert(wad_mul(b, f) == 0);
            }
        }
        self.borrowed_liquidity_wads = new_borrowed;
        self.cumulative_borrow_rate_wads = cumulative_borrow_rate;
        Ok(())
    }

    /// Settles a repayment of up to `liquidity_amount` whole tokens.  The
    /// amount is capped at the debt outstanding: meeting or exceeding it is
    /// a full repayment, which releases every deposited collateral token
    /// and closes the obligation.  Collateral and obligation-token releases
    /// round down and the amount paid in rounds up, so the protocol is
    /// never short-changed.  Nothing changes on failure.
    pub fn repay(&mut self, liquidity_amount: u64, obligation_token_supply: u64) -> (r: Result<
        RepayResult,
        LendingError,
    >)
        ensures
            match spec_obligation_repay(*old(self), liquidity_amount, obligation_token_supply) {
                Ok(res) => r == Ok::<RepayResult, LendingError>(res.1) && *final(self) == res.0,
                Err(e) => r == Err::<RepayResult, LendingError>(e) && *final(self) == *old(self),
            },
            (r is Ok && liquidity_amount * WAD >= old(self).borrowed_liquidity_wads.wads) ==> (
            r->Ok_0.collateral_withdraw_amount == old(self).deposited_collateral_tokens && final(self).is_closed()),
            r is Ok ==> final(self).deposited_collateral_tokens <= old(
                self,
            ).deposited_collateral_tokens,
            r is Ok ==> final(self).borrowed_liquidity_wads.wads <= old(
                self,
            ).borrowed_liquidity_wads.wads,
            (r is Ok && final(self).borrowed_liquidity_wads.wads > 0) ==> final(self).deposited_collateral_tokens > 0,
    {
        if liquidity_amount == 0 {
            return Err(LendingError::InvalidAmount);
        }
        if self.deposited_collateral_tokens == 0 || self.borrowed_liquidity_wads.wads == 0 {
            return Err(LendingError::ObligationEmpty);
        }
        let requested = Decimal::from_tokens(liquidity_amount);
        let full = requested.ge(self.borrowed_liquidity_wads);
        let decimal_repay = if full {
            self.borrowed_liquidity_wads
        } else {
            requested
        };
        let integer_repay = match decimal_repay.try_ceil_u64() {
            Ok(v) => v,
            Err(e) => {
                return Err(e);
            },
        };
        proof {
            // The repayment fraction exists and is at most one.
            let d = decimal_repay.wads as int;
            let b = self.borrowed_liquidity_wads.wads as int;
            lemma_mul_inequality(d, b, WAD as int);
            lemma_div_is_ordered(d * WAD, b * WAD, b);
            lemma_div_multiples_vanish(WAD as int, b);
            lemma_mul_is_commutative(b, WAD as int);
            assert(wad_div(d, b) <= WAD);
        }
        let pct = match decimal_repay.try_div(self.borrowed_liquidity_wads) {
            Ok(p) => p,
            Err(_) => {
                return Err(LendingError::Overflow);
            },
        };
        proof {
            lemma_wad_mul_tokens(
                self.deposited_collateral_tokens as int,
                pct.wads as int,
            );
            lemma_wad_mul_tokens(obligation_token_supply as int, pct.wads as int);
            lemma_mul_inequality(pct.wads as int, WAD as int, u64::MAX as int);
            assert((u64::MAX as int) * (WAD as int) <= u128::MAX) by (nonlinear_arith);
            lemma_mul_is_commutative(pct.wads as int, self.deposited_collateral_tokens as int);
            lemma_mul_is_commutative(pct.wads as int, obligation_token_supply as int);
            lemma_mul_inequality(
                self.deposited_collateral_tokens as int,
                u64::MAX as int,
                pct.wads as int,
            );
            lemma_mul_inequality(obligation_token_supply as int, u64::MAX as int, pct.wads as int);
            lemma_mul_is_commutative(u64::MAX as int, pct.wads as int);
            lemma_mul_inequality(u64::MAX as int, u64::MAX as int, WAD as int);
            lemma_wad_floor_fraction(self.deposited_collateral_tokens as int, pct.wads as int);
            lemma_wad_floor_fraction(obligation_token_supply as int, pct.wads as int);
        }
        let collateral_scaled = match Decimal::from_tokens(
            self.deposited_collateral_tokens,
        ).try_mul(pct) {
            Ok(c) => c,
            Err(_) => {
                return Err(LendingError::Overflow);
            },
        };
        let collateral_withdraw = match collateral_scaled.try_floor_u64() {
            Ok(c) => c,
            Err(_) => {
                return Err(LendingError::Overflow);
            },
        };
        let token_scaled = match Decimal::from_tokens(obligation_token_supply).try_mul(pct) {
            Ok(t) => t,
            Err(_) => {
                return Err(LendingError::Overflow);
            },
        };
        let obligation_token_amount = match token_scaled.try_floor_u64() {
            Ok(t) => t,
            Err(_) => {
                return Err(LendingError::Overflow);
            },
        };
        proof {
            let b = self.borrowed_liquidity_wads.wads as int;
            let dep = self.deposited_collateral_tokens as int;
            if liquidity_amount * WAD >= b {
                // Full repayment: the fraction is exactly one, so every
                // deposited token is released.
                lemma_div_multiples_vanish(WAD as int, b);
                lemma_mul_is_commutative(b, WAD as int);
                assert(pct.wads == WAD);
                lemma_div_by_multiple(dep, WAD as int);
                assert(collateral_withdraw == dep);
            } else {
                // Partial repayment: the fraction is strictly below one, so
                // some collateral stays behind backing the remaining debt.
                let d = decimal_repay.wads as int;
                lemma_mul_strict_inequality(d, b, WAD as int);
                lemma_mul_is_commutative(b, WAD as int);
                lemma_multiply_divide_lt(d * WAD, b, WAD as int);
                assert(pct.wads < WAD);
                lemma_mul_strict_inequality(pct.wads as int, WAD as int, dep);
                lemma_mul_is_commutative(pct.wads as int, dep);
                lemma_mul_is_commutative(WAD as int, dep);
                lemma_multiply_divide_lt(dep * pct.wads, WAD as int, dep);
                assert(collateral_withdraw < dep);
            }
        }
        self.deposited_collateral_tokens = self.deposited_collateral_tokens - collateral_withdraw;
        let new_borrowed = Decimal::from_scaled_val(
            self.borrowed_liquidity_wads.wads - decimal_repay.wads,
        );
        self.borrowed_liquidity_wads = new_borrowed;
        Ok(
            RepayResult {
                integer_repay_amount: integer_repay,
                decimal_repay_amount: decimal_repay,
                collateral_withdraw_amount: collateral_withdraw,
                obligation_token_amount,
            },
        )
    }
}

} // verus!
