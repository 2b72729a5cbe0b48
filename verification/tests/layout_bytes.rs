use margin_lending::decimal::Decimal;
use margin_lending::error::LendingError;
use margin_lending::layout::{OBLIGATION_LEN, RESERVE_LEN};
use margin_lending::obligation::Obligation;
use margin_lending::pubkey::Pubkey;
use margin_lending::reserve::{Reserve, ReserveCollateral, ReserveConfig, ReserveLiquidity};

fn sample_reserve() -> Reserve {
    Reserve {
        lending_market: Pubkey::new(1),
        liquidity: ReserveLiquidity {
            mint_pubkey: Pubkey::new(10),
            supply_pubkey: Pubkey::new(11),
            available_amount: 0x0102030405060708,
            borrowed_amount_wads: Decimal::from_tokens(500),
            cumulative_borrow_rate_wads: Decimal::one(),
        },
        collateral: ReserveCollateral {
            mint_pubkey: Pubkey::new(20),
            supply_pubkey: Pubkey::new(21),
            fees_receiver: Pubkey::new(22),
        },
        config: ReserveConfig {
            loan_to_value_ratio: 50,
            origination_fee_rate: Decimal::from_percent(1),
            host_fee_rate: Decimal::from_percent(20),
        },
        dex_market: Some(Pubkey::new(30)),
        last_update_slot: 100,
    }
}

fn sample_obligation() -> Obligation {
    Obligation {
        collateral_reserve: Pubkey::new(60),
        borrow_reserve: Pubkey::new(61),
        deposited_collateral_tokens: 1_000,
        cumulative_borrow_rate_wads: Decimal::one(),
        borrowed_liquidity_wads: Decimal::from_tokens(500),
        token_mint: Pubkey::new(90),
    }
}

#[test]
fn reserve_round_trips_through_its_layout() {
    let reserve = sample_reserve();
    let bytes = reserve.pack();
    assert_eq!(bytes.len(), RESERVE_LEN);
    assert_eq!(Reserve::unpack(&bytes), Ok(reserve));
}

#[test]
fn reserve_without_price_reference_round_trips() {
    let mut reserve = sample_reserve();
    reserve.dex_market = None;
    let bytes = reserve.pack();
    assert_eq!(bytes[121], 0);
    assert_eq!(Reserve::unpack(&bytes), Ok(reserve));
}

#[test]
fn reserve_layout_is_little_endian_at_fixed_offsets() {
    let bytes = sample_reserve().pack();
    // The available amount sits at offset 24, least significant byte first.
    assert_eq!(
        &bytes[24..32],
        &[0x08, 0x07, 0x06, 0x05, 0x04, 0x03, 0x02, 0x01]
    );
    // The loan-to-value percent is the single byte at offset 88.
    assert_eq!(bytes[88], 50);
    // The price-reference tag and key sit at offsets 121 and 122.
    assert_eq!(bytes[121], 1);
    assert_eq!(&bytes[122..130], &[30, 0, 0, 0, 0, 0, 0, 0]);
}

#[test]
fn reserve_unpack_rejects_malformed_bytes() {
    let mut bytes = sample_reserve().pack();
    assert_eq!(
        Reserve::unpack(&bytes[1..]),
        Err(LendingError::InvalidAccountInput)
    );
    bytes[121] = 2;
    assert_eq!(
        Reserve::unpack(&bytes),
        Err(LendingError::InvalidAccountInput)
    );
}

#[test]
fn obligation_round_trips_through_its_layout() {
    let obligation = sample_obligation();
    let bytes = obligation.pack();
    assert_eq!(bytes.len(), OBLIGATION_LEN);
    assert_eq!(Obligation::unpack(&bytes), Ok(obligation));
    assert_eq!(
        Obligation::unpack(&bytes[..OBLIGATION_LEN - 1]),
        Err(LendingError::InvalidAccountInput)
    );
}
