use margin_lending::decimal::{Decimal, WAD};
use margin_lending::dex_market::{OrderLevel, TradeSimulator};
use margin_lending::error::LendingError;
use margin_lending::margin::{
    process_margin_borrow, process_margin_repay, Authority, MarginBorrowParams, MarginRepayParams,
};
use margin_lending::obligation::Obligation;
use margin_lending::pubkey::Pubkey;
use margin_lending::reserve::{
    BorrowAmountType, Reserve, ReserveCollateral, ReserveConfig, ReserveLiquidity,
};

fn deposit_reserve() -> Reserve {
    Reserve {
        lending_market: Pubkey::new(1),
        liquidity: ReserveLiquidity {
            mint_pubkey: Pubkey::new(10),
            supply_pubkey: Pubkey::new(11),
            available_amount: 10_000,
            borrowed_amount_wads: Decimal::zero(),
            cumulative_borrow_rate_wads: Decimal::one(),
        },
        collateral: ReserveCollateral {
            mint_pubkey: Pubkey::new(20),
            supply_pubkey: Pubkey::new(21),
            fees_receiver: Pubkey::new(22),
        },
        config: ReserveConfig {
            loan_to_value_ratio: 50,
            origination_fee_rate: Decimal::from_percent(1),
            host_fee_rate: Decimal::from_percent(20),
        },
        dex_market: Some(Pubkey::new(30)),
        last_update_slot: 100,
    }
}

fn borrow_reserve() -> Reserve {
    Reserve {
        lending_market: Pubkey::new(1),
        liquidity: ReserveLiquidity {
            mint_pubkey: Pubkey::new(40),
            supply_pubkey: Pubkey::new(41),
            available_amount: 10_000,
            borrowed_amount_wads: Decimal::zero(),
            cumulative_borrow_rate_wads: Decimal::one(),
        },
        collateral: ReserveCollateral {
            mint_pubkey: Pubkey::new(50),
            supply_pubkey: Pubkey::new(51),
            fees_receiver: Pubkey::new(52),
        },
        config: ReserveConfig {
            loan_to_value_ratio: 50,
            origination_fee_rate: Decimal::zero(),
            host_fee_rate: Decimal::zero(),
        },
        dex_market: None,
        last_update_slot: 100,
    }
}

fn borrow_params() -> MarginBorrowParams {
    MarginBorrowParams {
        token_amount: 1_000,
        amount_type: BorrowAmountType::CollateralDepositAmount,
        current_slot: 100,
        quote_token_mint: Pubkey::new(40),
        lending_market_key: Pubkey::new(1),
        deposit_reserve_key: Pubkey::new(60),
        borrow_reserve_key: Pubkey::new(61),
        source_collateral_key: Pubkey::new(70),
        destination_liquidity_key: Pubkey::new(71),
        deposit_collateral_supply_key: Pubkey::new(21),
        deposit_fees_receiver_key: Pubkey::new(22),
        borrow_liquidity_supply_key: Pubkey::new(41),
        dex_market_key: Pubkey::new(30),
        host_fee_recipient: Some(Pubkey::new(80)),
    }
}

fn flat_book() -> Vec<OrderLevel> {
    vec![OrderLevel { rate: Decimal::one(), quantity: 2_000 }]
}

#[test]
fn simulate_trade_averages_over_the_filled_levels() {
    let sim =
        TradeSimulator::new(Pubkey::new(40), Pubkey::new(40), Pubkey::new(10)).unwrap();
    let book = vec![
        OrderLevel { rate: Decimal::one(), quantity: 500 },
        OrderLevel { rate: Decimal::from_tokens(2), quantity: 500 },
    ];
    let estimate = sim.simulate_trade(&book, 1_000).unwrap();
    // 500 at 1.0 and 500 at 2.0 average to 1.5.
    assert_eq!(estimate.execution_rate.wads, WAD + WAD / 2);
    assert_eq!(estimate.worst_case_rate.wads, 2 * WAD);
}

#[test]
fn simulate_trade_fails_without_depth_or_route() {
    assert_eq!(
        TradeSimulator::new(Pubkey::new(99), Pubkey::new(40), Pubkey::new(10)).unwrap_err(),
        LendingError::TradeSimulationError
    );
    let sim =
        TradeSimulator::new(Pubkey::new(40), Pubkey::new(40), Pubkey::new(10)).unwrap();
    let shallow = vec![OrderLevel { rate: Decimal::one(), quantity: 10 }];
    assert_eq!(
        sim.simulate_trade(&shallow, 1_000),
        Err(LendingError::TradeSimulationError)
    );
    assert_eq!(
        sim.simulate_trade(&shallow, 0),
        Err(LendingError::InvalidAmount)
    );
}

#[test]
fn margin_borrow_sizes_books_and_instructs() {
    let deposit = deposit_reserve();
    let borrow = borrow_reserve();
    let result =
        process_margin_borrow(&deposit, &borrow, &flat_book(), &borrow_params()).unwrap();
    // 1_000 collateral at one percent fee, fifty percent ratio, 1:1 price.
    assert_eq!(result.loan.origination_fee, 10);
    assert_eq!(result.loan.host_fee, 2);
    assert_eq!(result.loan.collateral_amount, 990);
    assert_eq!(result.loan.borrow_amount, 495);
    assert!(result.loan.borrow_amount <= 500);
    // The borrow reserve lent the liquidity out.
    assert_eq!(result.borrow_reserve.liquidity.available_amount, 9_505);
    assert_eq!(
        result.borrow_reserve.liquidity.borrowed_amount_wads.wads,
        495 * WAD
    );
    // The four value movements.
    assert_eq!(result.collateral_deposit.source, Pubkey::new(70));
    assert_eq!(result.collateral_deposit.destination, Pubkey::new(21));
    assert_eq!(result.collateral_deposit.amount, 990);
    assert_eq!(result.collateral_deposit.authority, Authority::UserTransfer);
    let host = result.host_fee_transfer.unwrap();
    assert_eq!(host.destination, Pubkey::new(80));
    assert_eq!(host.amount, 2);
    let owner = result.owner_fee_transfer.unwrap();
    assert_eq!(owner.destination, Pubkey::new(22));
    assert_eq!(owner.amount, 8);
    assert_eq!(result.liquidity_disbursement.source, Pubkey::new(41));
    assert_eq!(result.liquidity_disbursement.destination, Pubkey::new(71));
    assert_eq!(result.liquidity_disbursement.amount, 495);
    assert_eq!(
        result.liquidity_disbursement.authority,
        Authority::LendingMarket
    );
}

#[test]
fn margin_borrow_without_host_sends_the_whole_fee_to_the_owner() {
    let deposit = deposit_reserve();
    let borrow = borrow_reserve();
    let mut params = borrow_params();
    params.host_fee_recipient = None;
    let result = process_margin_borrow(&deposit, &borrow, &flat_book(), &params).unwrap();
    assert!(result.host_fee_transfer.is_none());
    assert_eq!(result.owner_fee_transfer.unwrap().amount, 10);
}

#[test]
fn margin_borrow_zero_amount_fails_with_no_mutation() {
    let deposit = deposit_reserve();
    let borrow = borrow_reserve();
    let mut params = borrow_params();
    params.token_amount = 0;
    assert_eq!(
        process_margin_borrow(&deposit, &borrow, &flat_book(), &params),
        Err(LendingError::InvalidAmount)
    );
    // Both records are exactly as built.
    assert_eq!(deposit, deposit_reserve());
    assert_eq!(borrow, borrow_reserve());
}

#[test]
fn margin_borrow_validates_the_account_set() {
    let deposit = deposit_reserve();
    let borrow = borrow_reserve();
    let book = flat_book();

    let mut p = borrow_params();
    p.lending_market_key = Pubkey::new(2);
    assert_eq!(
        process_margin_borrow(&deposit, &borrow, &book, &p),
        Err(LendingError::InvalidAccountInput)
    );

    let mut other_market = borrow;
    other_market.lending_market = Pubkey::new(2);
    assert_eq!(
        process_margin_borrow(&deposit, &other_market, &book, &borrow_params()),
        Err(LendingError::LendingMarketMismatch)
    );

    let mut p = borrow_params();
    p.borrow_reserve_key = p.deposit_reserve_key;
    assert_eq!(
        process_margin_borrow(&deposit, &borrow, &book, &p),
        Err(LendingError::DuplicateReserve)
    );

    let mut same_mint = borrow;
    same_mint.liquidity.mint_pubkey = Pubkey::new(10);
    assert_eq!(
        process_margin_borrow(&deposit, &same_mint, &book, &borrow_params()),
        Err(LendingError::DuplicateReserveMint)
    );

    let mut p = borrow_params();
    p.dex_market_key = Pubkey::new(31);
    assert_eq!(
        process_margin_borrow(&deposit, &borrow, &book, &p),
        Err(LendingError::InvalidAccountInput)
    );

    let mut disabled = deposit;
    disabled.config.loan_to_value_ratio = 0;
    assert_eq!(
        process_margin_borrow(&disabled, &borrow, &book, &borrow_params()),
        Err(LendingError::ReserveCollateralDisabled)
    );

    let mut p = borrow_params();
    p.current_slot = 101;
    assert_eq!(
        process_margin_borrow(&deposit, &borrow, &book, &p),
        Err(LendingError::StaleReserve)
    );

    let mut p = borrow_params();
    p.quote_token_mint = Pubkey::new(99);
    assert_eq!(
        process_margin_borrow(&deposit, &borrow, &book, &p),
        Err(LendingError::TradeSimulationError)
    );
}

fn repay_obligation() -> Obligation {
    Obligation {
        collateral_reserve: Pubkey::new(60),
        borrow_reserve: Pubkey::new(61),
        deposited_collateral_tokens: 1_000,
        cumulative_borrow_rate_wads: Decimal::one(),
        borrowed_liquidity_wads: Decimal::from_tokens(500),
        token_mint: Pubkey::new(90),
    }
}

fn repay_params() -> MarginRepayParams {
    MarginRepayParams {
        liquidity_amount: 500,
        obligation_token_supply: 100,
        current_slot: 100,
        lending_market_key: Pubkey::new(1),
        repay_reserve_key: Pubkey::new(61),
        withdraw_reserve_key: Pubkey::new(60),
        source_liquidity_key: Pubkey::new(72),
        destination_collateral_key: Pubkey::new(73),
        repay_liquidity_supply_key: Pubkey::new(41),
        withdraw_collateral_supply_key: Pubkey::new(21),
        obligation_token_mint_key: Pubkey::new(90),
        obligation_token_input_key: Pubkey::new(91),
    }
}

fn indebted_borrow_reserve() -> Reserve {
    let mut reserve = borrow_reserve();
    reserve.liquidity.available_amount = 9_505;
    reserve.liquidity.borrowed_amount_wads = Decimal::from_tokens(500);
    reserve
}

#[test]
fn margin_repay_settles_in_full_and_closes() {
    let repay_res = indebted_borrow_reserve();
    let withdraw_res = deposit_reserve();
    let obligation = repay_obligation();
    let result =
        process_margin_repay(&repay_res, &withdraw_res, &obligation, &repay_params()).unwrap();
    // Repaying 500 against a 500-token debt releases all 1_000 collateral.
    assert_eq!(result.repayment.integer_repay_amount, 500);
    assert_eq!(result.repayment.decimal_repay_amount.wads, 500 * WAD);
    assert_eq!(result.repayment.collateral_withdraw_amount, 1_000);
    assert_eq!(result.repayment.obligation_token_amount, 100);
    // The obligation is closed.
    assert_eq!(result.obligation.deposited_collateral_tokens, 0);
    assert_eq!(result.obligation.borrowed_liquidity_wads.wads, 0);
    // The reserve got the liquidity back.
    assert_eq!(result.repay_reserve.liquidity.available_amount, 10_005);
    assert_eq!(result.repay_reserve.liquidity.borrowed_amount_wads.wads, 0);
    // The movements.
    assert_eq!(result.obligation_token_burn.mint, Pubkey::new(90));
    assert_eq!(result.obligation_token_burn.source, Pubkey::new(91));
    assert_eq!(result.obligation_token_burn.amount, 100);
    assert_eq!(result.liquidity_deposit.source, Pubkey::new(72));
    assert_eq!(result.liquidity_deposit.destination, Pubkey::new(41));
    assert_eq!(result.liquidity_deposit.amount, 500);
    assert_eq!(result.collateral_withdraw.source, Pubkey::new(21));
    assert_eq!(result.collateral_withdraw.destination, Pubkey::new(73));
    assert_eq!(result.collateral_withdraw.amount, 1_000);
    assert_eq!(result.collateral_withdraw.authority, Authority::LendingMarket);
}

#[test]
fn margin_repay_partial_leaves_the_position_open() {
    let repay_res = indebted_borrow_reserve();
    let withdraw_res = deposit_reserve();
    let obligation = repay_obligation();
    let mut params = repay_params();
    params.liquidity_amount = 250;
    let result =
        process_margin_repay(&repay_res, &withdraw_res, &obligation, &params).unwrap();
    assert_eq!(result.repayment.collateral_withdraw_amount, 500);
    assert_eq!(result.obligation.deposited_collateral_tokens, 500);
    assert_eq!(result.obligation.borrowed_liquidity_wads.wads, 250 * WAD);
}

#[test]
fn margin_repay_validates_the_account_set() {
    let repay_res = indebted_borrow_reserve();
    let withdraw_res = deposit_reserve();
    let obligation = repay_obligation();

    let mut p = repay_params();
    p.liquidity_amount = 0;
    assert_eq!(
        process_margin_repay(&repay_res, &withdraw_res, &obligation, &p),
        Err(LendingError::InvalidAmount)
    );

    let mut p = repay_params();
    p.repay_reserve_key = Pubkey::new(62);
    assert_eq!(
        process_margin_repay(&repay_res, &withdraw_res, &obligation, &p),
        Err(LendingError::InvalidAccountInput)
    );

    let mut empty = obligation;
    empty.deposited_collateral_tokens = 0;
    assert_eq!(
        process_margin_repay(&repay_res, &withdraw_res, &empty, &repay_params()),
        Err(LendingError::ObligationEmpty)
    );

    let mut p = repay_params();
    p.repay_reserve_key = Pubkey::new(60);
    p.withdraw_reserve_key = Pubkey::new(60);
    // Both keys point at one reserve; the obligation's cross-references
    // fail first for the repay side.
    let mut crossed = obligation;
    crossed.borrow_reserve = Pubkey::new(60);
    assert_eq!(
        process_margin_repay(&withdraw_res, &withdraw_res, &crossed, &p),
        Err(LendingError::DuplicateReserve)
    );

    let mut p = repay_params();
    p.current_slot = 99;
    assert_eq!(
        process_margin_repay(&repay_res, &withdraw_res, &obligation, &p),
        Err(LendingError::StaleReserve)
    );
}
