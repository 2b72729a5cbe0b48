use margin_lending::decimal::{Decimal, PERCENT_SCALER, WAD};
use margin_lending::error::LendingError;
use margin_lending::pubkey::Pubkey;
use margin_lending::reserve::{
    BorrowAmountType, Reserve, ReserveCollateral, ReserveConfig, ReserveLiquidity,
    STALE_SLOT_TOLERANCE,
};

fn test_reserve(available: u64, ltv: u8) -> Reserve {
    Reserve {
        lending_market: Pubkey::new(1),
        liquidity: ReserveLiquidity {
            mint_pubkey: Pubkey::new(10),
            supply_pubkey: Pubkey::new(11),
            available_amount: available,
            borrowed_amount_wads: Decimal::zero(),
            cumulative_borrow_rate_wads: Decimal::one(),
        },
        collateral: ReserveCollateral {
            mint_pubkey: Pubkey::new(20),
            supply_pubkey: Pubkey::new(21),
            fees_receiver: Pubkey::new(22),
        },
        config: ReserveConfig {
            loan_to_value_ratio: ltv,
            origination_fee_rate: Decimal::from_percent(1),
            host_fee_rate: Decimal::from_percent(20),
        },
        dex_market: Some(Pubkey::new(30)),
        last_update_slot: 100,
    }
}

#[test]
fn borrow_moves_liquidity_to_debt() {
    let mut reserve = test_reserve(10_000, 50);
    reserve.liquidity.borrow(4_000).unwrap();
    assert_eq!(reserve.liquidity.available_amount, 6_000);
    assert_eq!(reserve.liquidity.borrowed_amount_wads.wads, 4_000 * WAD);
}

#[test]
fn borrow_beyond_available_fails_unchanged() {
    let mut reserve = test_reserve(100, 50);
    let before = reserve;
    assert_eq!(
        reserve.liquidity.borrow(101),
        Err(LendingError::InsufficientLiquidity)
    );
    assert_eq!(reserve, before);
}

#[test]
fn borrow_then_repay_restores_exactly() {
    // Borrowing and repaying the same amount leaves no drift at all.
    let mut reserve = test_reserve(10_000, 50);
    let before = reserve;
    reserve.liquidity.borrow(777).unwrap();
    reserve
        .liquidity
        .repay(777, Decimal::from_tokens(777))
        .unwrap();
    assert_eq!(reserve, before);
}

#[test]
fn repay_underflow_fails_unchanged() {
    let mut reserve = test_reserve(10_000, 50);
    let before = reserve;
    assert_eq!(
        reserve.liquidity.repay(1, Decimal::from_tokens(1)),
        Err(LendingError::Overflow)
    );
    assert_eq!(reserve, before);
}

#[test]
fn utilization_rate_is_the_borrowed_share() {
    let mut reserve = test_reserve(9_500, 50);
    reserve.liquidity.borrowed_amount_wads = Decimal::from_tokens(500);
    // 500 of 10_000 is five percent.
    assert_eq!(
        reserve.liquidity.utilization_rate().unwrap().wads,
        5 * PERCENT_SCALER
    );
    let empty = test_reserve(0, 50);
    assert_eq!(empty.liquidity.utilization_rate().unwrap().wads, 0);
}

#[test]
fn accrue_with_no_debt_keeps_the_rate() {
    let mut reserve = test_reserve(10_000, 50);
    reserve.accrue_interest(110).unwrap();
    assert_eq!(reserve.liquidity.cumulative_borrow_rate_wads.wads, WAD);
    assert_eq!(reserve.last_update_slot, 110);
}

#[test]
fn accrue_compounds_and_never_decreases() {
    let mut reserve = test_reserve(5_000, 50);
    reserve.liquidity.borrowed_amount_wads = Decimal::from_tokens(5_000);
    let before = reserve.liquidity.cumulative_borrow_rate_wads.wads;
    reserve.accrue_interest(150).unwrap();
    assert!(reserve.liquidity.cumulative_borrow_rate_wads.wads >= before);
    assert_eq!(reserve.last_update_slot, 150);
    // The liquidity amounts are untouched by accrual.
    assert_eq!(reserve.liquidity.available_amount, 5_000);
    assert_eq!(reserve.liquidity.borrowed_amount_wads.wads, 5_000 * WAD);
}

#[test]
fn accrue_twice_at_one_slot_is_idempotent() {
    let mut reserve = test_reserve(5_000, 50);
    reserve.liquidity.borrowed_amount_wads = Decimal::from_tokens(2_500);
    reserve.accrue_interest(160).unwrap();
    let after_first = reserve;
    reserve.accrue_interest(160).unwrap();
    assert_eq!(reserve, after_first);
}

#[test]
fn accrue_beyond_tolerance_is_stale() {
    let mut reserve = test_reserve(10_000, 50);
    let before = reserve;
    let too_late = 100 + STALE_SLOT_TOLERANCE + 1;
    assert_eq!(
        reserve.accrue_interest(too_late),
        Err(LendingError::StaleReserve)
    );
    assert_eq!(reserve, before);
}

#[test]
fn fees_round_against_the_borrower() {
    let reserve = test_reserve(10_000, 50);
    // One percent of 1_000 is 10; the host takes twenty percent of that.
    let (origination, host) = reserve.config.calculate_fees(1_000);
    assert_eq!(origination, 10);
    assert_eq!(host, 2);
    // One percent of 50 is 0.5: the origination fee rounds up, the host
    // share of 0.2 rounds down.
    let (origination, host) = reserve.config.calculate_fees(50);
    assert_eq!(origination, 1);
    assert_eq!(host, 0);
}

#[test]
fn create_loan_sizes_within_loan_to_value() {
    let reserve = test_reserve(10_000, 50);
    let price = Decimal::one();
    let loan = reserve
        .create_loan(
            1_000,
            BorrowAmountType::CollateralDepositAmount,
            price,
            Pubkey::new(40),
        )
        .unwrap();
    // 1_000 collateral less the 10-token fee, at fifty percent and 1:1.
    assert_eq!(loan.origination_fee, 10);
    assert_eq!(loan.host_fee, 2);
    assert_eq!(loan.collateral_amount, 990);
    assert_eq!(loan.borrow_amount, 495);
    assert!(loan.borrow_amount <= 500);
    // The sized loan respects the ratio bound exactly.
    assert!(
        (loan.borrow_amount as u128) * price.wads
            <= (loan.collateral_amount as u128) * (50 * PERCENT_SCALER)
    );
}

#[test]
fn create_loan_for_fixed_liquidity_rounds_collateral_up() {
    let reserve = test_reserve(10_000, 50);
    let price = Decimal::one();
    let loan = reserve
        .create_loan(
            495,
            BorrowAmountType::LiquidityBorrowAmount,
            price,
            Pubkey::new(40),
        )
        .unwrap();
    assert_eq!(loan.borrow_amount, 495);
    // 495 valued 1:1 at fifty percent needs 990 collateral.
    assert_eq!(loan.collateral_amount, 990);
    // Fees come on top of the required collateral.
    assert_eq!(loan.origination_fee, 10);
    assert_eq!(loan.host_fee, 2);
}

#[test]
fn create_loan_rejects_bad_requests() {
    let reserve = test_reserve(10_000, 50);
    let price = Decimal::one();
    assert_eq!(
        reserve.create_loan(
            0,
            BorrowAmountType::CollateralDepositAmount,
            price,
            Pubkey::new(40)
        ),
        Err(LendingError::InvalidAmount)
    );
    // The borrow asset cannot be the deposit reserve's own asset.
    assert_eq!(
        reserve.create_loan(
            1_000,
            BorrowAmountType::CollateralDepositAmount,
            price,
            Pubkey::new(10)
        ),
        Err(LendingError::DuplicateReserveMint)
    );
    let disabled = test_reserve(10_000, 0);
    assert_eq!(
        disabled.create_loan(
            1_000,
            BorrowAmountType::CollateralDepositAmount,
            price,
            Pubkey::new(40)
        ),
        Err(LendingError::LoanToValueExceeded)
    );
    assert_eq!(
        reserve.create_loan(
            1_000,
            BorrowAmountType::CollateralDepositAmount,
            Decimal::zero(),
            Pubkey::new(40)
        ),
        Err(LendingError::DivideByZero)
    );
    // One collateral token cannot carry any loan at fifty percent: the fee
    // leaves nothing behind.
    assert_eq!(
        reserve.create_loan(
            1,
            BorrowAmountType::CollateralDepositAmount,
            price,
            Pubkey::new(40)
        ),
        Err(LendingError::LoanToValueExceeded)
    );
}
