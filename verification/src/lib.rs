//! Accounting core of a collateralized lending / margin market.
//!
//! The crate tracks pooled liquidity reserves and borrower obligations and
//! proves the interest, loan-to-value and settlement arithmetic that governs
//! borrowing, repaying and releasing collateral.  All value movements are
//! computed here and returned as instructions; executing them (token
//! transfers, mints and burns) is the host's job.

pub mod decimal;
pub mod dex_market;
pub mod error;
pub mod layout;
pub mod margin;
pub mod margin_account;
pub mod obligation;
pub mod pubkey;
pub mod reserve;
