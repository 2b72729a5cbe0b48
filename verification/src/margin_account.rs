//! Margin accounts: per-trader position tracking and the token-pair
//! whitelist.
//!
//! These records sit in front of the lending engine: a margin account
//! remembers the one open position of its trader, and the program state
//! whitelists which token pairs may be traded.  The host performs the
//! actual token movements; everything here is the bookkeeping and the
//! rules deciding them.

use vstd::prelude::*;

use crate::pubkey::Pubkey;

verus! {

/// Most token pairs the whitelist can hold.
pub const MAX_TOKEN_PAIRS: usize = 10;

/// Every failure the margin-account layer can report.
#[derive(Clone, Copy, Debug, PartialEq, Eq, Structural)]
pub enum ErrorCode {
    /// The account has no open position where one is required.
    InvalidProgramAddress,
    /// The margin vault is not owned as expected.
    InvalidVaultOwner,
    /// An amount was zero where a positive amount is required.
    InvalidAmount,
    /// A loan is already open for this account.
    AccountInUse,
    /// The position is locked or absent; funds cannot be withdrawn.
    WithdrawDisabled,
    /// The caller is not the whitelist authority.
    StateUnauthorized,
    /// The whitelist already holds the maximum number of pairs.
    MaxTokenPairs,
    /// The pair to remove is not in the whitelist.
    InvalidTokenPair,
    /// The pair to add is already whitelisted.
    TokenPairAlreadyExists,
}

/// A pair of token mints allowed for margin trading; unordered.
#[derive(Clone, Copy, Debug, PartialEq, Eq, Structural)]
pub struct TokenPair {
    /// One mint of the pair.
    pub first_token: Pubkey,
    /// The other mint of the pair.
    pub second_token: Pubkey,
}

/// The zero pair used to pre-size the whitelist.
pub open spec fn default_token_pair() -> TokenPair {
    TokenPair { first_token: Pubkey { id: 0 }, second_token: Pubkey { id: 0 } }
}

impl Default for TokenPair {
    /// The zero pair.
    fn default() -> (r: TokenPair)
        ensures
            r == default_token_pair(),
    {
        TokenPair { first_token: Pubkey { id: 0 }, second_token: Pubkey { id: 0 } }
    }
}

/// Whether a position's funds may be withdrawn.
#[derive(Clone, Copy, Debug, PartialEq, Eq, Structural)]
pub enum Status {
    /// A position is open: funds cannot be withdrawn outside of repay.
    Locked,
    /// The loan is repaid: the trader may withdraw.
    Available,
}

/// One open margin position.
#[derive(Clone, Copy, Debug, PartialEq, Eq)]
pub struct Position {
    /// Size of the loan still outstanding.
    pub loan_amount: u64,
    /// Vault holding the loaned tokens around the trade.
    pub loaned_vault: Pubkey,
    /// Vault holding the trade's proceeds, once a trade ran.
    pub collateral_vault: Option<Pubkey>,
    /// Whether funds may be withdrawn.
    pub status: Status,
}

/// Per-trader account: at most one open position.
#[derive(Clone, Copy, Debug, PartialEq, Eq)]
pub struct MarginAccount {
    /// The owner of this margin account.
    pub trader: Pubkey,
    /// The open position, if any.
    pub position: Option<Position>,
    /// Nonce for the host's derived addressing.
    pub nonce: u8,
}

/// Program state: the whitelist and its authority.
#[derive(Debug, PartialEq, Eq)]
pub struct State {
    /// The key allowed to change the whitelist.
    pub authority: Pubkey,
    /// Token pairs allowed for margin trading.
    pub token_pairs: Vec<TokenPair>,
}

/// Whether two pairs name the same two tokens, in either order.
pub open spec fn pairs_match(a: TokenPair, b: TokenPair) -> bool {
    (a.first_token == b.first_token && a.second_token == b.second_token) || (a.first_token
        == b.second_token && a.second_token == b.first_token)
}

/// Index of the first pair matching `check`, if any.
pub open spec fn spec_index_of_token_pair(pairs: Seq<TokenPair>, check: TokenPair) -> Option<int>
    decreases pairs.len(),
{
    if pairs.len() == 0 {
        None
    } else if pairs_match(pairs[0], check) {
        Some(0)
    } else {
        match spec_index_of_token_pair(pairs.skip(1), check) {
            Some(i) => Some(i + 1),
            None => None,
        }
    }
}

/// Skipping a prefix that holds no match shifts the found index, nothing
/// more.
proof fn lemma_index_of_skip(pairs: Seq<TokenPair>, check: TokenPair, i: int)
    requires
        0 <= i <= pairs.len(),
        forall|j: int| 0 <= j < i ==> !pairs_match(pairs[j], check),
    ensures
        spec_index_of_token_pair(pairs, check) == match spec_index_of_token_pair(
            pairs.skip(i),
            check,
        ) {
            Some(k) => Some(k + i),
            None => None::<int>,
        },
    decreases i,
{
    if i == 0 {
        assert(pairs.skip(0) =~= pairs);
    } else {
        assert(!pairs_match(pairs[0], check));
        lemma_index_of_skip(pairs.skip(1), check, i - 1);
        assert(pairs.skip(1).skip(i - 1) =~= pairs.skip(i));
    }
}

/// Finds the whitelist entry matching `check` in either token order, and
/// returns the first such index.
pub fn index_of_token_pair(pairs: &[TokenPair], check: &TokenPair) -> (r: Option<usize>)
    ensures
        match spec_index_of_token_pair(pairs@, *check) {
            Some(i) => r == Some(i as usize) && 0 <= i < pairs@.len(),
            None => r == None::<usize>,
        },
{
    let mut i: usize = 0;
    while i < pairs.len()
        invariant
            i <= pairs@.len(),
            forall|j: int| 0 <= j < i ==> !pairs_match(pairs@[j], *check),
        decreases pairs@.len() - i,
    {
        let candidate = pairs[i];
        if (candidate.first_token == check.first_token && candidate.second_token
            == check.second_token) || (candidate.first_token == check.second_token
            && candidate.second_token == check.first_token) {
            proof {
                lemma_index_of_skip(pairs@, *check, i as int);
                assert(pairs@.skip(i as int)[0] == pairs@[i as int]);
            }
            return Some(i);
        }
        i = i + 1;
    }
    proof {
        lemma_index_of_skip(pairs@, *check, pairs@.len() as int);
        assert(pairs@.skip(pairs@.len() as int) =~= Seq::<TokenPair>::empty());
    }
    None
}

/// Only the recorded authority may change the whitelist.
pub fn whitelist_auth(state: &State, authority: Pubkey) -> (r: Result<(), ErrorCode>)
    ensures
        authority == state.authority ==> r == Ok::<(), ErrorCode>(()),
        authority != state.authority ==> r == Err::<(), ErrorCode>(ErrorCode::StateUnauthorized),
{
    if authority != state.authority {
        return Err(ErrorCode::StateUnauthorized);
    }
    Ok(())
}

impl State {
    /// A fresh program state under `authority`, pre-sized with the maximum
    /// number of (zero) token pairs.
    pub fn new(authority: Pubkey) -> (r: State)
        ensures
            r.authority == authority,
            r.token_pairs@.len() == MAX_TOKEN_PAIRS,
            forall|j: int|
                0 <= j < MAX_TOKEN_PAIRS ==> r.token_pairs@[j] == default_token_pair(),
    {
        let mut token_pairs: Vec<TokenPair> = Vec::new();
        let mut i: usize = 0;
        while i < MAX_TOKEN_PAIRS
            invariant
                i <= MAX_TOKEN_PAIRS,
                token_pairs@.len() == i,
                forall|j: int| 0 <= j < i ==> token_pairs@[j] == default_token_pair(),
            decreases MAX_TOKEN_PAIRS - i,
        {
            token_pairs.push(TokenPair::default());
            i = i + 1;
        }
        State { authority, token_pairs }
    }

    /// Empties the whitelist.  Meant as a temporary reset; only the
    /// authority may call it.
    pub fn clear_pairs(&mut self, authority: Pubkey) -> (r: Result<(), ErrorCode>)
        ensures
            authority != old(self).authority ==> r == Err::<(), ErrorCode>(
                ErrorCode::StateUnauthorized,
            ) && *final(self) == *old(self),
            authority == old(self).authority ==> r == Ok::<(), ErrorCode>(()) && final(self).authority == old(self).authority && final(self).token_pairs@.len() == 0,
    {
        if authority != self.authority {
            return Err(ErrorCode::StateUnauthorized);
        }
        self.token_pairs = Vec::new();
        Ok(())
    }

    /// Adds a pair to the whitelist.  Fails when the caller is not the
    /// authority, the whitelist is full, or the pair (in either order) is
    /// already present; nothing changes on failure.
    pub fn add_token_pair(&mut self, authority: Pubkey, first_token: Pubkey, second_token: Pubkey) -> (r:
        Result<(), ErrorCode>)
        ensures
            authority != old(self).authority ==> r == Err::<(), ErrorCode>(
                ErrorCode::StateUnauthorized,
            ) && *final(self) == *old(self),
            authority == old(self).authority && old(self).token_pairs@.len() == MAX_TOKEN_PAIRS
                ==> r == Err::<(), ErrorCode>(ErrorCode::MaxTokenPairs) && *final(self) == *old(
                self,
            ),
            authority == old(self).authority && old(self).token_pairs@.len() != MAX_TOKEN_PAIRS
                && spec_index_of_token_pair(
                old(self).token_pairs@,
                TokenPair { first_token, second_token },
            ) is Some ==> r == Err::<(), ErrorCode>(ErrorCode::TokenPairAlreadyExists) && *final(self) == *old(self),
            authority == old(self).authority && old(self).token_pairs@.len() != MAX_TOKEN_PAIRS
                && spec_index_of_token_pair(
                old(self).token_pairs@,
                TokenPair { first_token, second_token },
            ) is None ==> r == Ok::<(), ErrorCode>(()) && final(self).authority == old(
                self,
            ).authority && final(self).token_pairs@ == old(self).token_pairs@.push(
                TokenPair { first_token, second_token },
            ),
    {
        if authority != self.authority {
            return Err(ErrorCode::StateUnauthorized);
        }
        let entry = TokenPair { first_token, second_token };
        if self.token_pairs.len() == MAX_TOKEN_PAIRS {
            return Err(ErrorCode::MaxTokenPairs);
        }
        if index_of_token_pair(self.token_pairs.as_slice(), &entry).is_some() {
            return Err(ErrorCode::TokenPairAlreadyExists);
        }
        self.token_pairs.push(entry);
        Ok(())
    }

    /// Removes the first whitelist entry matching `entry` in either token
    /// order; fails when the caller is not the authority or no entry
    /// matches, with nothing changed.
    pub fn remove_token_pair(&mut self, authority: Pubkey, entry: TokenPair) -> (r: Result<
        (),
        ErrorCode,
    >)
        ensures
            authority != old(self).authority ==> r == Err::<(), ErrorCode>(
                ErrorCode::StateUnauthorized,
            ) && *final(self) == *old(self),
            authority == old(self).authority ==> match spec_index_of_token_pair(
                old(self).token_pairs@,
                entry,
            ) {
                Some(i) => r == Ok::<(), ErrorCode>(()) && final(self).authority == old(
                    self,
                ).authority && final(self).token_pairs@ == old(self).token_pairs@.remove(i),
                None => r == Err::<(), ErrorCode>(ErrorCode::InvalidTokenPair) && *final(self)
                    == *old(self),
            },
    {
        if authority != self.authority {
            return Err(ErrorCode::StateUnauthorized);
        }
        match index_of_token_pair(self.token_pairs.as_slice(), &entry) {
            Some(idx) => {
                self.token_pairs.remove(idx);
                Ok(())
            },
            None => Err(ErrorCode::InvalidTokenPair),
        }
    }

    /// Hands the whitelist to a new authority; only the current authority
    /// may do so.
    pub fn set_authority(&mut self, authority: Pubkey, new_authority: Pubkey) -> (r: Result<
        (),
        ErrorCode,
    >)
        ensures
            authority != old(self).authority ==> r == Err::<(), ErrorCode>(
                ErrorCode::StateUnauthorized,
            ) && *final(self) == *old(self),
            authority == old(self).authority ==> r == Ok::<(), ErrorCode>(()) && final(self).authority == new_authority && final(self).token_pairs@ == old(self).token_pairs@,
    {
        if authority != self.authority {
            return Err(ErrorCode::StateUnauthorized);
        }
        self.authority = new_authority;
        Ok(())
    }
}

/// A fresh margin account for `trader`, with no position.
pub fn initialize(trader: Pubkey, nonce: u8) -> (r: MarginAccount)
    ensures
        r.trader == trader,
        r.nonce == nonce,
        r.position is None,
{
    MarginAccount { trader, position: None, nonce }
}

/// Opens a position: records the loan taken out and locks the account.
/// Fails when either amount is zero or a position is already open; the
/// host executes the actual borrow against the lending engine.
pub fn borrow(
    account: &mut MarginAccount,
    loan_amount: u64,
    collateral_amount: u64,
    loaned_vault: Pubkey,
) -> (r: Result<(), ErrorCode>)
    ensures
        loan_amount == 0 || collateral_amount == 0 ==> r == Err::<(), ErrorCode>(
            ErrorCode::InvalidAmount,
        ) && *final(account) == *old(account),
        loan_amount != 0 && collateral_amount != 0 && old(account).position is Some ==> r == Err::<
            (),
            ErrorCode,
        >(ErrorCode::AccountInUse) && *final(account) == *old(account),
        loan_amount != 0 && collateral_amount != 0 && old(account).position is None ==> r == Ok::<
            (),
            ErrorCode,
        >(()) && *final(account) == (MarginAccount {
            position: Some(
                Position {
                    loan_amount,
                    loaned_vault,
                    collateral_vault: None,
                    status: Status::Locked,
                },
            ),
            ..*old(account)
        }),
{
    if loan_amount == 0 || collateral_amount == 0 {
        return Err(ErrorCode::InvalidAmount);
    }
    if account.position.is_some() {
        return Err(ErrorCode::AccountInUse);
    }
    account.position = Some(
        Position { loan_amount, loaned_vault, collateral_vault: None, status: Status::Locked },
    );
    Ok(())
}

/// Books a repayment against the open position: the outstanding loan
/// shrinks by `amount`, and the account unlocks once it reaches zero.  The
/// host must not book more than the loan outstanding.
pub fn repay(account: &mut MarginAccount, amount: u64) -> (r: Result<(), ErrorCode>)
    requires
        old(account).position matches Some(p) ==> amount <= p.loan_amount,
    ensures
        amount == 0 ==> r == Err::<(), ErrorCode>(ErrorCode::InvalidAmount) && *final(account)
            == *old(account),
        amount != 0 && old(account).position is None ==> r == Err::<(), ErrorCode>(
            ErrorCode::InvalidProgramAddress,
        ) && *final(account) == *old(account),
        amount != 0 ==> (old(account).position matches Some(p) ==> r == Ok::<(), ErrorCode>(())
            && *final(account) == (MarginAccount {
            position: Some(
                Position {
                    loan_amount: (p.loan_amount - amount) as u64,
                    status: if p.loan_amount == amount {
                        Status::Available
                    } else {
                        p.status
                    },
                    ..p
                },
            ),
            ..*old(account)
        })),
{
    if amount == 0 {
        return Err(ErrorCode::InvalidAmount);
    }
    match account.position {
        None => Err(ErrorCode::InvalidProgramAddress),
        Some(p) => {
            let remaining = p.loan_amount - amount;
            account.position = Some(
                Position {
                    loan_amount: remaining,
                    status: if remaining == 0 {
                        Status::Available
                    } else {
                        p.status
                    },
                    ..p
                },
            );
            Ok(())
        },
    }
}

/// Marks the account after a trade ran on the market: the vault receiving
/// the proceeds is recorded once.  Fails when no position is open; the
/// host executes the swap itself.
pub fn trade_amm(account: &mut MarginAccount, destination_vault: Pubkey) -> (r: Result<
    (),
    ErrorCode,
>)
    ensures
        old(account).position is None ==> r == Err::<(), ErrorCode>(
            ErrorCode::InvalidProgramAddress,
        ) && *final(account) == *old(account),
        old(account).position matches Some(p) ==> r == Ok::<(), ErrorCode>(()) && *final(account)
            == (MarginAccount {
            position: Some(
                Position {
                    collateral_vault: if p.collateral_vault is None {
                        Some(destination_vault)
                    } else {
                        p.collateral_vault
                    },
                    ..p
                },
            ),
            ..*old(account)
        }),
{
    match account.position {
        None => Err(ErrorCode::InvalidProgramAddress),
        Some(p) => {
            if p.collateral_vault.is_none() {
                account.position = Some(Position { collateral_vault: Some(destination_vault), ..p });
            } else {
                account.position = Some(p);
            }
            Ok(())
        },
    }
}

/// Decides whether the trader may withdraw `amount` from the account's
/// vault: only once a position exists and its loan is fully repaid.  The
/// host executes the transfer.
pub fn withdraw(account: &MarginAccount, amount: u64) -> (r: Result<(), ErrorCode>)
    ensures
        amount == 0 ==> r == Err::<(), ErrorCode>(ErrorCode::InvalidAmount),
        amount != 0 && account.position is None ==> r == Err::<(), ErrorCode>(
            ErrorCode::WithdrawDisabled,
        ),
        amount != 0 ==> (account.position matches Some(p) ==> r == (if p.status == Status::Locked {
            Err::<(), ErrorCode>(ErrorCode::WithdrawDisabled)
        } else {
            Ok::<(), ErrorCode>(())
        })),
{
    if amount == 0 {
        return Err(ErrorCode::InvalidAmount);
    }
    match account.position {
        None => Err(ErrorCode::WithdrawDisabled),
        Some(p) => {
            if p.status == Status::Locked {
                Err(ErrorCode::WithdrawDisabled)
            } else {
                Ok(())
            }
        },
    }
}

} // verus!
