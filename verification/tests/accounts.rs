use margin_lending::margin_account::{
    borrow, index_of_token_pair, initialize, repay, trade_amm, whitelist_auth, withdraw,
    ErrorCode, State, Status, TokenPair, MAX_TOKEN_PAIRS,
};
use margin_lending::pubkey::Pubkey;

fn pair(a: u64, b: u64) -> TokenPair {
    TokenPair { first_token: Pubkey::new(a), second_token: Pubkey::new(b) }
}

fn auth() -> Pubkey {
    Pubkey::new(7)
}

fn empty_state() -> State {
    let mut state = State::new(auth());
    state.clear_pairs(auth()).unwrap();
    state
}

#[test]
fn new_state_is_presized_with_zero_pairs() {
    let state = State::new(auth());
    assert_eq!(state.authority, auth());
    assert_eq!(state.token_pairs.len(), MAX_TOKEN_PAIRS);
    assert!(state.token_pairs.iter().all(|p| *p == pair(0, 0)));
}

#[test]
fn whitelist_rejects_other_callers() {
    let mut state = State::new(auth());
    let stranger = Pubkey::new(8);
    assert_eq!(whitelist_auth(&state, auth()), Ok(()));
    assert_eq!(
        whitelist_auth(&state, stranger),
        Err(ErrorCode::StateUnauthorized)
    );
    assert_eq!(
        state.clear_pairs(stranger),
        Err(ErrorCode::StateUnauthorized)
    );
    assert_eq!(
        state.add_token_pair(stranger, Pubkey::new(1), Pubkey::new(2)),
        Err(ErrorCode::StateUnauthorized)
    );
    assert_eq!(
        state.remove_token_pair(stranger, pair(1, 2)),
        Err(ErrorCode::StateUnauthorized)
    );
    assert_eq!(
        state.set_authority(stranger, stranger),
        Err(ErrorCode::StateUnauthorized)
    );
}

#[test]
fn add_token_pair_fails_when_full_or_duplicated() {
    // A fresh state is already at capacity with the sizing pairs.
    let mut full = State::new(auth());
    assert_eq!(
        full.add_token_pair(auth(), Pubkey::new(1), Pubkey::new(2)),
        Err(ErrorCode::MaxTokenPairs)
    );
    let mut state = empty_state();
    state.add_token_pair(auth(), Pubkey::new(1), Pubkey::new(2)).unwrap();
    assert_eq!(state.token_pairs.len(), 1);
    // The same pair in reversed order counts as a duplicate.
    assert_eq!(
        state.add_token_pair(auth(), Pubkey::new(2), Pubkey::new(1)),
        Err(ErrorCode::TokenPairAlreadyExists)
    );
}

#[test]
fn remove_token_pair_matches_either_order() {
    let mut state = empty_state();
    state.add_token_pair(auth(), Pubkey::new(1), Pubkey::new(2)).unwrap();
    state.add_token_pair(auth(), Pubkey::new(3), Pubkey::new(4)).unwrap();
    assert_eq!(
        state.remove_token_pair(auth(), pair(9, 9)),
        Err(ErrorCode::InvalidTokenPair)
    );
    state.remove_token_pair(auth(), pair(2, 1)).unwrap();
    assert_eq!(state.token_pairs.len(), 1);
    assert_eq!(state.token_pairs[0], pair(3, 4));
}

#[test]
fn set_authority_hands_the_whitelist_over() {
    let mut state = empty_state();
    let new_auth = Pubkey::new(9);
    state.set_authority(auth(), new_auth).unwrap();
    assert_eq!(state.authority, new_auth);
    assert_eq!(
        state.add_token_pair(auth(), Pubkey::new(1), Pubkey::new(2)),
        Err(ErrorCode::StateUnauthorized)
    );
    state.add_token_pair(new_auth, Pubkey::new(1), Pubkey::new(2)).unwrap();
}

#[test]
fn index_of_token_pair_finds_the_first_match() {
    let pairs = [pair(1, 2), pair(3, 4), pair(4, 3)];
    assert_eq!(index_of_token_pair(&pairs, &pair(1, 2)), Some(0));
    assert_eq!(index_of_token_pair(&pairs, &pair(2, 1)), Some(0));
    // Both orders of (3, 4) hit the earlier entry.
    assert_eq!(index_of_token_pair(&pairs, &pair(4, 3)), Some(1));
    assert_eq!(index_of_token_pair(&pairs, &pair(5, 6)), None);
    assert_eq!(index_of_token_pair(&[], &pair(1, 2)), None);
}

#[test]
fn initialize_opens_an_empty_account() {
    let account = initialize(Pubkey::new(5), 42);
    assert_eq!(account.trader, Pubkey::new(5));
    assert_eq!(account.nonce, 42);
    assert!(account.position.is_none());
}

#[test]
fn borrow_opens_one_locked_position() {
    let mut account = initialize(Pubkey::new(5), 42);
    assert_eq!(
        borrow(&mut account, 0, 100, Pubkey::new(6)),
        Err(ErrorCode::InvalidAmount)
    );
    assert_eq!(
        borrow(&mut account, 100, 0, Pubkey::new(6)),
        Err(ErrorCode::InvalidAmount)
    );
    borrow(&mut account, 100, 300, Pubkey::new(6)).unwrap();
    let position = account.position.unwrap();
    assert_eq!(position.loan_amount, 100);
    assert_eq!(position.loaned_vault, Pubkey::new(6));
    assert_eq!(position.status, Status::Locked);
    assert!(position.collateral_vault.is_none());
    // A second loan on the same account is refused.
    assert_eq!(
        borrow(&mut account, 50, 50, Pubkey::new(6)),
        Err(ErrorCode::AccountInUse)
    );
}

#[test]
fn repay_unlocks_only_at_zero() {
    let mut account = initialize(Pubkey::new(5), 42);
    assert_eq!(repay(&mut account, 10), Err(ErrorCode::InvalidProgramAddress));
    borrow(&mut account, 100, 300, Pubkey::new(6)).unwrap();
    assert_eq!(repay(&mut account, 0), Err(ErrorCode::InvalidAmount));
    repay(&mut account, 60).unwrap();
    let position = account.position.unwrap();
    assert_eq!(position.loan_amount, 40);
    assert_eq!(position.status, Status::Locked);
    repay(&mut account, 40).unwrap();
    let position = account.position.unwrap();
    assert_eq!(position.loan_amount, 0);
    assert_eq!(position.status, Status::Available);
}

#[test]
fn trade_amm_records_the_proceeds_vault_once() {
    let mut account = initialize(Pubkey::new(5), 42);
    assert_eq!(
        trade_amm(&mut account, Pubkey::new(8)),
        Err(ErrorCode::InvalidProgramAddress)
    );
    borrow(&mut account, 100, 300, Pubkey::new(6)).unwrap();
    trade_amm(&mut account, Pubkey::new(8)).unwrap();
    assert_eq!(account.position.unwrap().collateral_vault, Some(Pubkey::new(8)));
    // A later trade does not displace the recorded vault.
    trade_amm(&mut account, Pubkey::new(9)).unwrap();
    assert_eq!(account.position.unwrap().collateral_vault, Some(Pubkey::new(8)));
}

#[test]
fn withdraw_needs_an_unlocked_position() {
    let mut account = initialize(Pubkey::new(5), 42);
    assert_eq!(withdraw(&account, 0), Err(ErrorCode::InvalidAmount));
    assert_eq!(withdraw(&account, 10), Err(ErrorCode::WithdrawDisabled));
    borrow(&mut account, 100, 300, Pubkey::new(6)).unwrap();
    assert_eq!(withdraw(&account, 10), Err(ErrorCode::WithdrawDisabled));
    repay(&mut account, 100).unwrap();
    assert_eq!(withdraw(&account, 10), Ok(()));
}
