//! Margin operations: borrow and repay orchestration.
//!
//! Each operation validates every cross-entity invariant, runs accrual and
//! settlement, and returns the updated records together with the exact
//! value movements the host must execute.  Nothing is mutated in place: an
//! operation either returns the full set of new states and instructions or
//! an error with nothing applied, so failures can never leave partial
//! state behind.

use vstd::prelude::*;

use crate::dex_market::{spec_simulate_trade, OrderLevel, TradeSimulator};
use crate::error::LendingError;
use crate::obligation::{
    spec_obligation_accrue, spec_obligation_repay, Obligation, RepayResult,
};
use crate::pubkey::Pubkey;
use crate::reserve::{
    spec_accrue_interest, spec_create_loan, spec_liquidity_borrow, spec_liquidity_repay,
    BorrowAmountType, Loan, Reserve,
};

verus! {

/// The logical authority under which the host executes a value movement.
#[derive(Clone, Copy, Debug, PartialEq, Eq, Structural)]
pub enum Authority {
    /// The borrower's transfer authority.
    UserTransfer,
    /// The lending market's derived authority.
    LendingMarket,
}

/// One token transfer the host must execute.
#[derive(Clone, Copy, Debug, PartialEq, Eq)]
pub struct TransferInstruction {
    /// Account the tokens leave.
    pub source: Pubkey,
    /// Account the tokens reach.
    pub destination: Pubkey,
    /// Whole tokens moved.
    pub amount: u64,
    /// Who signs the movement.
    pub authority: Authority,
}

/// One receipt-token burn the host must execute.
#[derive(Clone, Copy, Debug, PartialEq, Eq)]
pub struct BurnInstruction {
    /// Mint of the burned token.
    pub mint: Pubkey,
    /// Account the tokens are burned from.
    pub source: Pubkey,
    /// Whole tokens burned.
    pub amount: u64,
    /// Who signs the burn.
    pub authority: Authority,
}

/// Inputs of a margin borrow beyond the records themselves: the requested
/// amount and the externally supplied account references, which must match
/// the records exactly (defense against account substitution).
#[derive(Clone, Copy, Debug, PartialEq, Eq)]
pub struct MarginBorrowParams {
    /// Requested amount, in units given by `amount_type`.
    pub token_amount: u64,
    /// Whether `token_amount` is collateral or liquidity.
    pub amount_type: BorrowAmountType,
    /// The host's current slot.
    pub current_slot: u64,
    /// The lending market's quote asset mint.
    pub quote_token_mint: Pubkey,
    /// Key of the lending market both reserves must belong to.
    pub lending_market_key: Pubkey,
    /// Key of the deposit (collateral) reserve record.
    pub deposit_reserve_key: Pubkey,
    /// Key of the borrow reserve record.
    pub borrow_reserve_key: Pubkey,
    /// The borrower's collateral source account.
    pub source_collateral_key: Pubkey,
    /// The borrower's liquidity destination account.
    pub destination_liquidity_key: Pubkey,
    /// Supplied deposit-reserve collateral supply account.
    pub deposit_collateral_supply_key: Pubkey,
    /// Supplied deposit-reserve fees receiver account.
    pub deposit_fees_receiver_key: Pubkey,
    /// Supplied borrow-reserve liquidity supply account.
    pub borrow_liquidity_supply_key: Pubkey,
    /// Supplied price-reference market account.
    pub dex_market_key: Pubkey,
    /// Optional host fee recipient.
    pub host_fee_recipient: Option<Pubkey>,
}

/// Everything a successful margin borrow produces: the updated borrow
/// reserve, the sized loan, and the transfers the host must execute.
#[derive(Clone, Copy, Debug, PartialEq, Eq)]
pub struct MarginBorrowResult {
    /// The borrow reserve after lending out the loan.
    pub borrow_reserve: Reserve,
    /// The sized loan.
    pub loan: Loan,
    /// Collateral moving into the deposit reserve's supply.
    pub collateral_deposit: TransferInstruction,
    /// The host's fee share, when a recipient was supplied and a share is
    /// owed.
    pub host_fee_transfer: Option<TransferInstruction>,
    /// The owner's fee share, when any remains.
    pub owner_fee_transfer: Option<TransferInstruction>,
    /// Borrowed liquidity leaving the borrow reserve's supply.
    pub liquidity_disbursement: TransferInstruction,
}

/// The first cross-entity validation a margin borrow fails on, if any.
pub open spec fn spec_borrow_validation(
    deposit_reserve: Reserve,
    borrow_reserve: Reserve,
    p: MarginBorrowParams,
) -> Option<LendingError> {
    if p.token_amount == 0 {
        Some(LendingError::InvalidAmount)
    } else if deposit_reserve.lending_market != p.lending_market_key {
        Some(LendingError::InvalidAccountInput)
    } else if borrow_reserve.lending_market != deposit_reserve.lending_market {
        Some(LendingError::LendingMarketMismatch)
    } else if deposit_reserve.config.loan_to_value_ratio == 0 {
        Some(LendingError::ReserveCollateralDisabled)
    } else if p.deposit_reserve_key == p.borrow_reserve_key {
        Some(LendingError::DuplicateReserve)
    } else if deposit_reserve.liquidity.mint_pubkey == borrow_reserve.liquidity.mint_pubkey {
        Some(LendingError::DuplicateReserveMint)
    } else if borrow_reserve.liquidity.supply_pubkey != p.borrow_liquidity_supply_key {
        Some(LendingError::InvalidAccountInput)
    } else if deposit_reserve.collateral.supply_pubkey != p.deposit_collateral_supply_key {
        Some(LendingError::InvalidAccountInput)
    } else if deposit_reserve.collateral.supply_pubkey == p.source_collateral_key {
        Some(LendingError::InvalidAccountInput)
    } else if deposit_reserve.collateral.fees_receiver != p.deposit_fees_receiver_key {
        Some(LendingError::InvalidAccountInput)
    } else if borrow_reserve.liquidity.supply_pubkey == p.destination_liquidity_key {
        Some(LendingError::InvalidAccountInput)
    } else if borrow_reserve.dex_market is None && deposit_reserve.dex_market is None {
        Some(LendingError::InvalidAccountInput)
    } else if borrow_reserve.dex_market matches Some(d) && d != p.dex_market_key {
        Some(LendingError::InvalidAccountInput)
    } else if deposit_reserve.dex_market matches Some(d) && d != p.dex_market_key {
        Some(LendingError::InvalidAccountInput)
    } else if borrow_reserve.last_update_slot != p.current_slot {
        Some(LendingError::StaleReserve)
    } else if deposit_reserve.last_update_slot != p.current_slot {
        Some(LendingError::StaleReserve)
    } else {
        None
    }
}

/// What `process_margin_borrow` does: validate, estimate the price, size
/// the loan, lend the liquidity out, and emit the value movements.
pub open spec fn spec_margin_borrow(
    deposit_reserve: Reserve,
    borrow_reserve: Reserve,
    book: Seq<OrderLevel>,
    p: MarginBorrowParams,
) -> Result<MarginBorrowResult, LendingError> {
    match spec_borrow_validation(deposit_reserve, borrow_reserve, p) {
        Some(e) => Err(e),
        None => {
            if borrow_reserve.liquidity.mint_pubkey != p.quote_token_mint
                && deposit_reserve.liquidity.mint_pubkey != p.quote_token_mint {
                Err(LendingError::TradeSimulationError)
            } else {
                match spec_simulate_trade(book, p.token_amount) {
                    Err(e) => Err(e),
                    Ok(estimate) => match spec_create_loan(
                        deposit_reserve,
                        p.token_amount,
                        p.amount_type,
                        estimate.worst_case_rate,
                        borrow_reserve.liquidity.mint_pubkey,
                    ) {
                        Err(e) => Err(e),
                        Ok(loan) => match spec_liquidity_borrow(
                            borrow_reserve.liquidity,
                            loan.borrow_amount,
                        ) {
                            Err(e) => Err(e),
                            Ok(new_liquidity) => Ok(
                                spec_borrow_outcome(
                                    Reserve { liquidity: new_liquidity, ..borrow_reserve },
                                    loan,
                                    p,
                                ),
                            ),
                        },
                    },
                }
            }
        },
    }
}

/// The outcome record of a successful borrow: the fee split and the four
/// value movements.
pub open spec fn spec_borrow_outcome(
    updated_borrow_reserve: Reserve,
    loan: Loan,
    p: MarginBorrowParams,
) -> MarginBorrowResult {
    let host_share = if p.host_fee_recipient is Some && loan.host_fee > 0 {
        loan.host_fee as int
    } else {
        0
    };
    let owner_fee = loan.origination_fee - host_share;
    MarginBorrowResult {
        borrow_reserve: updated_borrow_reserve,
        loan,
        collateral_deposit: TransferInstruction {
            source: p.source_collateral_key,
            destination: p.deposit_collateral_supply_key,
            amount: loan.collateral_amount,
            authority: Authority::UserTransfer,
        },
        host_fee_transfer: if p.host_fee_recipient is Some && loan.host_fee > 0 {
            Some(
                TransferInstruction {
                    source: p.source_collateral_key,
                    destination: p.host_fee_recipient.unwrap(),
                    amount: loan.host_fee,
                    authority: Authority::UserTransfer,
                },
            )
        } else {
            None
        },
        owner_fee_transfer: if owner_fee > 0 {
            Some(
                TransferInstruction {
                    source: p.source_collateral_key,
                    destination: p.deposit_fees_receiver_key,
                    amount: owner_fee as u64,
                    authority: Authority::UserTransfer,
                },
            )
        } else {
            None
        },
        liquidity_disbursement: TransferInstruction {
            source: p.borrow_liquidity_supply_key,
            destination: p.destination_liquidity_key,
            amount: loan.borrow_amount,
            authority: Authority::LendingMarket,
        },
    }
}

/// Sizes and books a margin borrow.  Validates the reserve pair and every
/// supplied account, requires both reserves accrued at the current slot,
/// estimates the price through the trade simulator, sizes the loan within
/// the deposit reserve's loan-to-value ratio, and lends the liquidity out.
/// Returns the updated borrow reserve and the exact transfers to execute;
/// on any failure nothing is changed and the specific error is surfaced.
/// A zero `token_amount` always fails `InvalidAmount`.
pub fn process_margin_borrow(
    deposit_reserve: &Reserve,
    borrow_reserve: &Reserve,
    book: &Vec<OrderLevel>,
    params: &MarginBorrowParams,
) -> (r: Result<MarginBorrowResult, LendingError>)
    requires
        deposit_reserve.wf(),
    ensures
        r == spec_margin_borrow(*deposit_reserve, *borrow_reserve, book@, *params),
        params.token_amount == 0 ==> r == Err::<MarginBorrowResult, LendingError>(
            LendingError::InvalidAmount,
        ),
{
    if params.token_amount == 0 {
        return Err(LendingError::InvalidAmount);
    }
    if deposit_reserve.lending_market != params.lending_market_key {
        return Err(LendingError::InvalidAccountInput);
    }
    if borrow_reserve.lending_market != deposit_reserve.lending_market {
        return Err(LendingError::LendingMarketMismatch);
    }
    if deposit_reserve.config.loan_to_value_ratio == 0 {
        return Err(LendingError::ReserveCollateralDisabled);
    }
    if params.deposit_reserve_key == params.borrow_reserve_key {
        return Err(LendingError::DuplicateReserve);
    }
    if deposit_reserve.liquidity.mint_pubkey == borrow_reserve.liquidity.mint_pubkey {
        return Err(LendingError::DuplicateReserveMint);
    }
    if borrow_reserve.liquidity.supply_pubkey != params.borrow_liquidity_supply_key {
        return Err(LendingError::InvalidAccountInput);
    }
    if deposit_reserve.collateral.supply_pubkey != params.deposit_collateral_supply_key {
        return Err(LendingError::InvalidAccountInput);
    }
    if deposit_reserve.collateral.supply_pubkey == params.source_collateral_key {
        return Err(LendingError::InvalidAccountInput);
    }
    if deposit_reserve.collateral.fees_receiver != params.deposit_fees_receiver_key {
        return Err(LendingError::InvalidAccountInput);
    }
    if borrow_reserve.liquidity.supply_pubkey == params.destination_liquidity_key {
        return Err(LendingError::InvalidAccountInput);
    }
    if borrow_reserve.dex_market.is_none() && deposit_reserve.dex_market.is_none() {
        return Err(LendingError::InvalidAccountInput);
    }
    if let Some(d) = borrow_reserve.dex_market {
        if d != params.dex_market_key {
            return Err(LendingError::InvalidAccountInput);
        }
    }
    if let Some(d) = deposit_reserve.dex_market {
        if d != params.dex_market_key {
            return Err(LendingError::InvalidAccountInput);
        }
    }
    if borrow_reserve.last_update_slot != params.current_slot {
        return Err(LendingError::StaleReserve);
    }
    if deposit_reserve.last_update_slot != params.current_slot {
        return Err(LendingError::StaleReserve);
    }
    let simulator = match TradeSimulator::new(
        params.quote_token_mint,
        borrow_reserve.liquidity.mint_pubkey,
        deposit_reserve.liquidity.mint_pubkey,
    ) {
        Ok(s) => s,
        Err(e) => {
            return Err(e);
        },
    };
    let estimate = match simulator.simulate_trade(book, params.token_amount) {
        Ok(est) => est,
        Err(e) => {
            return Err(e);
        },
    };
    let loan = match deposit_reserve.create_loan(
        params.token_amount,
        params.amount_type,
        estimate.worst_case_rate,
        borrow_reserve.liquidity.mint_pubkey,
    ) {
        Ok(l) => l,
        Err(e) => {
            return Err(e);
        },
    };
    let mut updated_borrow_reserve = *borrow_reserve;
    match updated_borrow_reserve.liquidity.borrow(loan.borrow_amount) {
        Ok(u) => u,
        Err(e) => {
            return Err(e);
        },
    }
    let host_fee_transfer = match params.host_fee_recipient {
        Some(recipient) if loan.host_fee > 0 => Some(
            TransferInstruction {
                source: params.source_collateral_key,
                destination: recipient,
                amount: loan.host_fee,
                authority: Authority::UserTransfer,
            },
        ),
        _ => None,
    };
    let owner_fee = if host_fee_transfer.is_some() {
        loan.origination_fee - loan.host_fee
    } else {
        loan.origination_fee
    };
    let owner_fee_transfer = if owner_fee > 0 {
        Some(
            TransferInstruction {
                source: params.source_collateral_key,
                destination: params.deposit_fees_receiver_key,
                amount: owner_fee,
                authority: Authority::UserTransfer,
            },
        )
    } else {
        None
    };
    Ok(
        MarginBorrowResult {
            borrow_reserve: updated_borrow_reserve,
            loan,
            collateral_deposit: TransferInstruction {
                source: params.source_collateral_key,
                destination: params.deposit_collateral_supply_key,
                amount: loan.collateral_amount,
                authority: Authority::UserTransfer,
            },
            host_fee_transfer,
            owner_fee_transfer,
            liquidity_disbursement: TransferInstruction {
                source: params.borrow_liquidity_supply_key,
                destination: params.destination_liquidity_key,
                amount: loan.borrow_amount,
                authority: Authority::LendingMarket,
            },
        },
    )
}

/// Inputs of a margin repay beyond the records themselves.
#[derive(Clone, Copy, Debug, PartialEq, Eq)]
pub struct MarginRepayParams {
    /// Liquidity tokens offered to repay; capped at the debt outstanding.
    pub liquidity_amount: u64,
    /// Current supply of the obligation's receipt token.
    pub obligation_token_supply: u64,
    /// The host's current slot.
    pub current_slot: u64,
    /// Key of the lending market both reserves must belong to.
    pub lending_market_key: Pubkey,
    /// Key of the reserve being repaid (the obligation's borrow reserve).
    pub repay_reserve_key: Pubkey,
    /// Key of the reserve collateral is withdrawn from.
    pub withdraw_reserve_key: Pubkey,
    /// The borrower's liquidity source account.
    pub source_liquidity_key: Pubkey,
    /// The borrower's collateral destination account.
    pub destination_collateral_key: Pubkey,
    /// Supplied repay-reserve liquidity supply account.
    pub repay_liquidity_supply_key: Pubkey,
    /// Supplied withdraw-reserve collateral supply account.
    pub withdraw_collateral_supply_key: Pubkey,
    /// Supplied obligation receipt-token mint account.
    pub obligation_token_mint_key: Pubkey,
    /// Account the burned obligation tokens are taken from.
    pub obligation_token_input_key: Pubkey,
}

/// Everything a successful margin repay produces: the updated records, the
/// settlement, and the movements the host must execute.
#[derive(Clone, Copy, Debug, PartialEq, Eq)]
pub struct MarginRepayResult {
    /// The repaid reserve after accrual and settlement.
    pub repay_reserve: Reserve,
    /// The obligation after accrual and settlement.
    pub obligation: Obligation,
    /// The settlement amounts.
    pub repayment: RepayResult,
    /// Obligation receipt tokens to burn.
    pub obligation_token_burn: BurnInstruction,
    /// Repaid liquidity moving into the repay reserve's supply.
    pub liquidity_deposit: TransferInstruction,
    /// Released collateral moving out to the borrower.
    pub collateral_withdraw: TransferInstruction,
}

/// The first cross-entity validation a margin repay fails on, if any.
pub open spec fn spec_repay_validation(
    repay_reserve: Reserve,
    withdraw_reserve: Reserve,
    obligation: Obligation,
    p: MarginRepayParams,
) -> Option<LendingError> {
    if p.liquidity_amount == 0 {
        Some(LendingError::InvalidAmount)
    } else if obligation.borrow_reserve != p.repay_reserve_key {
        Some(LendingError::InvalidAccountInput)
    } else if obligation.collateral_reserve != p.withdraw_reserve_key {
        Some(LendingError::InvalidAccountInput)
    } else if obligation.deposited_collateral_tokens == 0 {
        Some(LendingError::ObligationEmpty)
    } else if obligation.token_mint != p.obligation_token_mint_key {
        Some(LendingError::InvalidAccountInput)
    } else if repay_reserve.lending_market != p.lending_market_key {
        Some(LendingError::InvalidAccountInput)
    } else if withdraw_reserve.lending_market != repay_reserve.lending_market {
        Some(LendingError::LendingMarketMismatch)
    } else if p.repay_reserve_key == p.withdraw_reserve_key {
        Some(LendingError::DuplicateReserve)
    } else if repay_reserve.liquidity.mint_pubkey == withdraw_reserve.liquidity.mint_pubkey {
        Some(LendingError::DuplicateReserveMint)
    } else if repay_reserve.liquidity.supply_pubkey != p.repay_liquidity_supply_key {
        Some(LendingError::InvalidAccountInput)
    } else if withdraw_reserve.collateral.supply_pubkey != p.withdraw_collateral_supply_key {
        Some(LendingError::InvalidAccountInput)
    } else if repay_reserve.liquidity.supply_pubkey == p.source_liquidity_key {
        Some(LendingError::InvalidAccountInput)
    } else if withdraw_reserve.collateral.supply_pubkey == p.destination_collateral_key {
        Some(LendingError::InvalidAccountInput)
    } else if p.current_slot < repay_reserve.last_update_slot {
        Some(LendingError::StaleReserve)
    } else {
        None
    }
}

/// What `process_margin_repay` does: validate, accrue the repay reserve
/// and the obligation, settle the repayment, book it on the reserve, and
/// emit the value movements.
pub open spec fn spec_margin_repay(
    repay_reserve: Reserve,
    withdraw_reserve: Reserve,
    obligation: Obligation,
    p: MarginRepayParams,
) -> Result<MarginRepayResult, LendingError> {
    match spec_repay_validation(repay_reserve, withdraw_reserve, obligation, p) {
        Some(e) => Err(e),
        None => match spec_accrue_interest(repay_reserve, p.current_slot) {
            Err(e) => Err(e),
            Ok(accrued_reserve) => match spec_obligation_accrue(
                obligation,
                accrued_reserve.liquidity.cumulative_borrow_rate_wads,
            ) {
                Err(e) => Err(e),
                Ok(accrued_obligation) => match spec_obligation_repay(
                    accrued_obligation,
                    p.liquidity_amount,
                    p.obligation_token_supply,
                ) {
                    Err(e) => Err(e),
                    Ok(settled) => match spec_liquidity_repay(
                        accrued_reserve.liquidity,
                        settled.1.integer_repay_amount,
                        settled.1.decimal_repay_amount,
                    ) {
                        Err(e) => Err(e),
                        Ok(new_liquidity) => Ok(
                            MarginRepayResult {
                                repay_reserve: Reserve { liquidity: new_liquidity, ..accrued_reserve },
                                obligation: settled.0,
                                repayment: settled.1,
                                obligation_token_burn: BurnInstruction {
                                    mint: p.obligation_token_mint_key,
                                    source: p.obligation_token_input_key,
                                    amount: settled.1.obligation_token_amount,
                                    authority: Authority::UserTransfer,
                                },
                                liquidity_deposit: TransferInstruction {
                                    source: p.source_liquidity_key,
                                    destination: p.repay_liquidity_supply_key,
                                    amount: settled.1.integer_repay_amount,
                                    authority: Authority::UserTransfer,
                                },
                                collateral_withdraw: TransferInstruction {
                                    source: p.withdraw_collateral_supply_key,
                                    destination: p.destination_collateral_key,
                                    amount: settled.1.collateral_withdraw_amount,
                                    authority: Authority::LendingMarket,
                                },
                            },
                        ),
                    },
                },
            },
        },
    }
}

/// Settles a margin repayment.  Validates the reserve pair, the obligation
/// cross-references and every supplied account, accrues interest on the
/// repay reserve and then on the obligation, caps the repayment at the
/// debt outstanding, books it on the reserve, and returns the updated
/// records with the exact burn and transfers to execute.  On any failure
/// nothing is changed and the specific error is surfaced.  A zero
/// `liquidity_amount` always fails `InvalidAmount`.
pub fn process_margin_repay(
    repay_reserve: &Reserve,
    withdraw_reserve: &Reserve,
    obligation: &Obligation,
    params: &MarginRepayParams,
) -> (r: Result<MarginRepayResult, LendingError>)
    requires
        obligation.wf(),
    ensures
        r == spec_margin_repay(*repay_reserve, *withdraw_reserve, *obligation, *params),
        params.liquidity_amount == 0 ==> r == Err::<MarginRepayResult, LendingError>(
            LendingError::InvalidAmount,
        ),
{
    if params.liquidity_amount == 0 {
        return Err(LendingError::InvalidAmount);
    }
    if obligation.borrow_reserve != params.repay_reserve_key {
        return Err(LendingError::InvalidAccountInput);
    }
    if obligation.collateral_reserve != params.withdraw_reserve_key {
        return Err(LendingError::InvalidAccountInput);
    }
    if obligation.deposited_collateral_tokens == 0 {
        return Err(LendingError::ObligationEmpty);
    }
    if obligation.token_mint != params.obligation_token_mint_key {
        return Err(LendingError::InvalidAccountInput);
    }
    if repay_reserve.lending_market != params.lending_market_key {
        return Err(LendingError::InvalidAccountInput);
    }
    if withdraw_reserve.lending_market != repay_reserve.lending_market {
        return Err(LendingError::LendingMarketMismatch);
    }
    if params.repay_reserve_key == params.withdraw_reserve_key {
        return Err(LendingError::DuplicateReserve);
    }
    if repay_reserve.liquidity.mint_pubkey == withdraw_reserve.liquidity.mint_pubkey {
        return Err(LendingError::DuplicateReserveMint);
    }
    if repay_reserve.liquidity.supply_pubkey != params.repay_liquidity_supply_key {
        return Err(LendingError::InvalidAccountInput);
    }
    if withdraw_reserve.collateral.supply_pubkey != params.withdraw_collateral_supply_key {
        return Err(LendingError::InvalidAccountInput);
    }
    if repay_reserve.liquidity.supply_pubkey == params.source_liquidity_key {
        return Err(LendingError::InvalidAccountInput);
    }
    if withdraw_reserve.collateral.supply_pubkey == params.destination_collateral_key {
        return Err(LendingError::InvalidAccountInput);
    }
    if params.current_slot < repay_reserve.last_update_slot {
        return Err(LendingError::StaleReserve);
    }
    let mut updated_repay_reserve = *repay_reserve;
    match updated_repay_reserve.accrue_interest(params.current_slot) {
        Ok(u) => u,
        Err(e) => {
            return Err(e);
        },
    }
    let mut updated_obligation = *obligation;
    match updated_obligation.accrue_interest(
        updated_repay_reserve.liquidity.cumulative_borrow_rate_wads,
    ) {
        Ok(u) => u,
        Err(e) => {
            return Err(e);
        },
    }
    let repayment = match updated_obligation.repay(
        params.liquidity_amount,
        params.obligation_token_supply,
    ) {
        Ok(rr) => rr,
        Err(e) => {
            return Err(e);
        },
    };
    match updated_repay_reserve.liquidity.repay(
        repayment.integer_repay_amount,
        repayment.decimal_repay_amount,
    ) {
        Ok(u) => u,
        Err(e) => {
            return Err(e);
        },
    }
    Ok(
        MarginRepayResult {
            repay_reserve: updated_repay_reserve,
            obligation: updated_obligation,
            repayment,
            obligation_token_burn: BurnInstruction {
                mint: params.obligation_token_mint_key,
                source: params.obligation_token_input_key,
                amount: repayment.obligation_token_amount,
                authority: Authority::UserTransfer,
            },
            liquidity_deposit: TransferInstruction {
                source: params.source_liquidity_key,
                destination: params.repay_liquidity_supply_key,
                amount: repayment.integer_repay_amount,
                authority: Authority::UserTransfer,
            },
            collateral_withdraw: TransferInstruction {
                source: params.withdraw_collateral_supply_key,
                destination: params.destination_collateral_key,
                amount: repayment.collateral_withdraw_amount,
                authority: Authority::LendingMarket,
            },
        },
    )
}

} // verus!
