//! Fixed binary layout of the persisted records.
//!
//! Reserve and Obligation records are serialized with a stable field order
//! and stable widths, little-endian, so external indexers can parse them
//! directly.  Packing a record and unpacking the bytes returns the record
//! unchanged, and that round trip is proved below.

use vstd::prelude::*;

use crate::decimal::Decimal;
use crate::error::LendingError;
use crate::obligation::Obligation;
use crate::pubkey::Pubkey;
use crate::reserve::{Reserve, ReserveCollateral, ReserveConfig, ReserveLiquidity};

verus! {

/// Packed size of a reserve record, in bytes.
pub const RESERVE_LEN: usize = 138;

/// Packed size of an obligation record, in bytes.
pub const OBLIGATION_LEN: usize = 64;

/// The eight little-endian bytes of a 64-bit value.
#[verifier::opaque]
pub open spec fn u64_le(v: u64) -> Seq<u8> {
    seq![
        (v as nat % 256) as u8,
        ((v as nat / 0x100) % 256) as u8,
        ((v as nat / 0x10000) % 256) as u8,
        ((v as nat / 0x1000000) % 256) as u8,
        ((v as nat / 0x100000000) % 256) as u8,
        ((v as nat / 0x10000000000) % 256) as u8,
        ((v as nat / 0x1000000000000) % 256) as u8,
        ((v as nat / 0x100000000000000) % 256) as u8,
    ]
}

/// The 64-bit value of eight little-endian bytes at `o`.
pub open spec fn u64_from(s: Seq<u8>, o: int) -> int {
    s[o] + s[o + 1] * 0x100 + s[o + 2] * 0x10000 + s[o + 3] * 0x1000000 + s[o + 4] * 0x100000000
        + s[o + 5] * 0x10000000000 + s[o + 6] * 0x1000000000000 + s[o + 7] * 0x100000000000000
}

/// The sixteen little-endian bytes of a 128-bit value: the low eight, then
/// the high eight.
#[verifier::opaque]
pub open spec fn u128_le(v: u128) -> Seq<u8> {
    u64_le((v as nat % 0x10000000000000000) as u64) + u64_le(
        (v as nat / 0x10000000000000000) as u64,
    )
}

/// The 128-bit value of sixteen little-endian bytes at `o`.
pub open spec fn u128_from(s: Seq<u8>, o: int) -> int {
    u64_from(s, o) + u64_from(s, o + 8) * 0x10000000000000000
}

/// A 64-bit value always packs to eight bytes.
pub broadcast proof fn lemma_u64_le_len(v: u64)
    ensures
        (#[trigger] u64_le(v)).len() == 8,
{
    reveal(u64_le);
}

/// A 128-bit value always packs to sixteen bytes.
pub broadcast proof fn lemma_u128_le_len(v: u128)
    ensures
        (#[trigger] u128_le(v)).len() == 16,
{
    reveal(u128_le);
    lemma_u64_le_len((v as nat % 0x10000000000000000) as u64);
    lemma_u64_le_len((v as nat / 0x10000000000000000) as u64);
}

/// Appends the eight little-endian bytes of `v`.
fn write_u64(out: &mut Vec<u8>, v: u64)
    ensures
        final(out)@ == old(out)@ + u64_le(v),
{
    proof {
        assert((v & 0xff) == v % 0x100 && ((v >> 8) & 0xff) == (v / 0x100) % 0x100 && ((v >> 16)
            & 0xff) == (v / 0x10000) % 0x100 && ((v >> 24) & 0xff) == (v / 0x1000000) % 0x100 && ((
        v >> 32) & 0xff) == (v / 0x100000000) % 0x100 && ((v >> 40) & 0xff) == (v / 0x10000000000)
            % 0x100 && ((v >> 48) & 0xff) == (v / 0x1000000000000) % 0x100 && ((v >> 56) & 0xff)
            == (v / 0x100000000000000) % 0x100) by (bit_vector);
    }
    out.push((v & 0xff) as u8);
    out.push(((v >> 8) & 0xff) as u8);
    out.push(((v >> 16) & 0xff) as u8);
    out.push(((v >> 24) & 0xff) as u8);
    out.push(((v >> 32) & 0xff) as u8);
    out.push(((v >> 40) & 0xff) as u8);
    out.push(((v >> 48) & 0xff) as u8);
    out.push(((v >> 56) & 0xff) as u8);
    proof {
        reveal(u64_le);
        assert(out@ =~= old(out)@ + u64_le(v));
    }
}

/// Appends the sixteen little-endian bytes of `v`.
fn write_u128(out: &mut Vec<u8>, v: u128)
    ensures
        final(out)@ == old(out)@ + u128_le(v),
{
    proof {
        assert((v & 0xffffffffffffffff) == v % 0x10000000000000000 && (v >> 64) == v
            / 0x10000000000000000) by (bit_vector);
    }
    write_u64(out, (v & 0xffffffffffffffff) as u64);
    write_u64(out, (v >> 64) as u64);
    proof {
        broadcast use lemma_u64_le_len;

        reveal(u128_le);
        assert(out@ =~= old(out)@ + u128_le(v));
    }
}

/// Reads the 64-bit value of the eight bytes at `offset`.
fn read_u64(bytes: &[u8], offset: usize) -> (r: u64)
    requires
        offset + 8 <= bytes@.len(),
    ensures
        r == u64_from(bytes@, offset as int),
{
    (bytes[offset] as u64) + (bytes[offset + 1] as u64) * 0x100 + (bytes[offset + 2] as u64)
        * 0x10000 + (bytes[offset + 3] as u64) * 0x1000000 + (bytes[offset + 4] as u64)
        * 0x100000000 + (bytes[offset + 5] as u64) * 0x10000000000 + (bytes[offset + 6] as u64)
        * 0x1000000000000 + (bytes[offset + 7] as u64) * 0x100000000000000
}

/// Reads the 128-bit value of the sixteen bytes at `offset`.
fn read_u128(bytes: &[u8], offset: usize) -> (r: u128)
    requires
        offset + 16 <= bytes@.len(),
    ensures
        r == u128_from(bytes@, offset as int),
{
    let n: usize = bytes.len();
    proof {
        // The slice length bounds the offsets, so the additions fit.
        assert(offset + 16 <= n);
    }
    let low = read_u64(bytes, offset);
    let high = read_u64(bytes, offset + 8);
    (low as u128) + (high as u128) * 0x10000000000000000
}

/// The first 64 packed bytes of a reserve: market and liquidity side.
pub open spec fn spec_pack_reserve_head(r: Reserve) -> Seq<u8> {
    u64_le(r.lending_market.id) + u64_le(r.liquidity.mint_pubkey.id) + u64_le(
        r.liquidity.supply_pubkey.id,
    ) + u64_le(r.liquidity.available_amount) + u128_le(r.liquidity.borrowed_amount_wads.wads)
        + u128_le(r.liquidity.cumulative_borrow_rate_wads.wads)
}

/// The remaining 74 packed bytes of a reserve: collateral side,
/// configuration, price reference and accrual slot.
pub open spec fn spec_pack_reserve_tail(r: Reserve) -> Seq<u8> {
    u64_le(r.collateral.mint_pubkey.id) + u64_le(r.collateral.supply_pubkey.id) + u64_le(
        r.collateral.fees_receiver.id,
    ) + seq![r.config.loan_to_value_ratio] + u128_le(r.config.origination_fee_rate.wads)
        + u128_le(r.config.host_fee_rate.wads) + (match r.dex_market {
        Some(k) => seq![1u8] + u64_le(k.id),
        None => seq![0u8] + u64_le(0),
    }) + u64_le(r.last_update_slot)
}

/// The packed form of a reserve record: field order and widths are stable.
pub open spec fn spec_pack_reserve(r: Reserve) -> Seq<u8> {
    spec_pack_reserve_head(r) + spec_pack_reserve_tail(r)
}

/// The reserve record a packed form decodes to: rejects a wrong length or
/// an unknown price-reference tag.
pub open spec fn spec_unpack_reserve(s: Seq<u8>) -> Result<Reserve, LendingError> {
    if s.len() != RESERVE_LEN {
        Err(LendingError::InvalidAccountInput)
    } else if s[121] != 0 && s[121] != 1 {
        Err(LendingError::InvalidAccountInput)
    } else {
        Ok(
            Reserve {
                lending_market: (Pubkey { id: u64_from(s, 0) as u64 }),
                liquidity: ReserveLiquidity {
                    mint_pubkey: (Pubkey { id: u64_from(s, 8) as u64 }),
                    supply_pubkey: (Pubkey { id: u64_from(s, 16) as u64 }),
                    available_amount: u64_from(s, 24) as u64,
                    borrowed_amount_wads: (Decimal { wads: u128_from(s, 32) as u128 }),
                    cumulative_borrow_rate_wads: (Decimal { wads: u128_from(s, 48) as u128 }),
                },
                collateral: ReserveCollateral {
                    mint_pubkey: (Pubkey { id: u64_from(s, 64) as u64 }),
                    supply_pubkey: (Pubkey { id: u64_from(s, 72) as u64 }),
                    fees_receiver: (Pubkey { id: u64_from(s, 80) as u64 }),
                },
                config: ReserveConfig {
                    loan_to_value_ratio: s[88],
                    origination_fee_rate: (Decimal { wads: u128_from(s, 89) as u128 }),
                    host_fee_rate: (Decimal { wads: u128_from(s, 105) as u128 }),
                },
                dex_market: if s[121] == 1 {
                    Some(Pubkey { id: u64_from(s, 122) as u64 })
                } else {
                    None
                },
                last_update_slot: u64_from(s, 130) as u64,
            },
        )
    }
}

/// The packed form of an obligation record.
pub open spec fn spec_pack_obligation(o: Obligation) -> Seq<u8> {
    u64_le(o.collateral_reserve.id) + u64_le(o.borrow_reserve.id) + u64_le(
        o.deposited_collateral_tokens,
    ) + u128_le(o.cumulative_borrow_rate_wads.wads) + u128_le(o.borrowed_liquidity_wads.wads)
        + u64_le(o.token_mint.id)
}

/// The obligation record a packed form decodes to.
pub open spec fn spec_unpack_obligation(s: Seq<u8>) -> Result<Obligation, LendingError> {
    if s.len() != OBLIGATION_LEN {
        Err(LendingError::InvalidAccountInput)
    } else {
        Ok(
            Obligation {
                collateral_reserve: (Pubkey { id: u64_from(s, 0) as u64 }),
                borrow_reserve: (Pubkey { id: u64_from(s, 8) as u64 }),
                deposited_collateral_tokens: u64_from(s, 16) as u64,
                cumulative_borrow_rate_wads: (Decimal { wads: u128_from(s, 24) as u128 }),
                borrowed_liquidity_wads: (Decimal { wads: u128_from(s, 40) as u128 }),
                token_mint: (Pubkey { id: u64_from(s, 56) as u64 }),
            },
        )
    }
}


/// Appends the packed market and liquidity side of a reserve.
#[verifier::rlimit(100)]
fn pack_reserve_head(out: &mut Vec<u8>, r: &Reserve)
    ensures
        final(out)@ == old(out)@ + spec_pack_reserve_head(*r),
{
    write_u64(out, r.lending_market.id);
    write_u64(out, r.liquidity.mint_pubkey.id);
    write_u64(out, r.liquidity.supply_pubkey.id);
    write_u64(out, r.liquidity.available_amount);
    write_u128(out, r.liquidity.borrowed_amount_wads.wads);
    write_u128(out, r.liquidity.cumulative_borrow_rate_wads.wads);
    proof {
        broadcast use lemma_u64_le_len, lemma_u128_le_len;

        assert(out@ =~= old(out)@ + spec_pack_reserve_head(*r));
    }
}

/// Appends the packed collateral side, configuration, price reference and
/// accrual slot of a reserve.
#[verifier::rlimit(100)]
fn pack_reserve_tail(out: &mut Vec<u8>, r: &Reserve)
    ensures
        final(out)@ == old(out)@ + spec_pack_reserve_tail(*r),
{
    write_u64(out, r.collateral.mint_pubkey.id);
    write_u64(out, r.collateral.supply_pubkey.id);
    write_u64(out, r.collateral.fees_receiver.id);
    out.push(r.config.loan_to_value_ratio);
    write_u128(out, r.config.origination_fee_rate.wads);
    write_u128(out, r.config.host_fee_rate.wads);
    match r.dex_market {
        Some(k) => {
            out.push(1);
            write_u64(out, k.id);
        },
        None => {
            out.push(0);
            write_u64(out, 0);
        },
    }
    write_u64(out, r.last_update_slot);
    proof {
        broadcast use lemma_u64_le_len, lemma_u128_le_len;

        assert(out@ =~= old(out)@ + spec_pack_reserve_tail(*r));
    }
}

impl Reserve {
    /// Serializes this reserve into its fixed binary layout.
    pub fn pack(&self) -> (out: Vec<u8>)
        ensures
            out@ == spec_pack_reserve(*self),
            out@.len() == RESERVE_LEN,
    {
        let mut out: Vec<u8> = Vec::new();
        pack_reserve_head(&mut out, self);
        pack_reserve_tail(&mut out, self);
        proof {
            broadcast use lemma_u64_le_len, lemma_u128_le_len;

            Seq::<u8>::add_empty_left(Seq::<u8>::empty(), spec_pack_reserve_head(*self));
            assert(spec_pack_reserve_head(*self).len() == 64);
            assert(spec_pack_reserve_tail(*self).len() == 74);
        }
        out
    }

    /// Reads a reserve back from its fixed binary layout; rejects a wrong
    /// length or an unknown price-reference tag.
    pub fn unpack(bytes: &[u8]) -> (r: Result<Reserve, LendingError>)
        ensures
            r == spec_unpack_reserve(bytes@),
    {
        if bytes.len() != RESERVE_LEN {
            return Err(LendingError::InvalidAccountInput);
        }
        let tag = bytes[121];
        if tag != 0 && tag != 1 {
            return Err(LendingError::InvalidAccountInput);
        }
        Ok(
            Reserve {
                lending_market: Pubkey::new(read_u64(bytes, 0)),
                liquidity: ReserveLiquidity {
                    mint_pubkey: Pubkey::new(read_u64(bytes, 8)),
                    supply_pubkey: Pubkey::new(read_u64(bytes, 16)),
                    available_amount: read_u64(bytes, 24),
                    borrowed_amount_wads: Decimal::from_scaled_val(read_u128(bytes, 32)),
                    cumulative_borrow_rate_wads: Decimal::from_scaled_val(read_u128(bytes, 48)),
                },
                collateral: ReserveCollateral {
                    mint_pubkey: Pubkey::new(read_u64(bytes, 64)),
                    supply_pubkey: Pubkey::new(read_u64(bytes, 72)),
                    fees_receiver: Pubkey::new(read_u64(bytes, 80)),
                },
                config: ReserveConfig {
                    loan_to_value_ratio: bytes[88],
                    origination_fee_rate: Decimal::from_scaled_val(read_u128(bytes, 89)),
                    host_fee_rate: Decimal::from_scaled_val(read_u128(bytes, 105)),
                },
                dex_market: if tag == 1 {
                    Some(Pubkey::new(read_u64(bytes, 122)))
                } else {
                    None
                },
                last_update_slot: read_u64(bytes, 130),
            },
        )
    }
}

impl Obligation {
    /// Serializes this obligation into its fixed binary layout.
    #[verifier::rlimit(100)]
    pub fn pack(&self) -> (out: Vec<u8>)
        ensures
            out@ == spec_pack_obligation(*self),
            out@.len() == OBLIGATION_LEN,
    {
        let mut out: Vec<u8> = Vec::new();
        write_u64(&mut out, self.collateral_reserve.id);
        write_u64(&mut out, self.borrow_reserve.id);
        write_u64(&mut out, self.deposited_collateral_tokens);
        write_u128(&mut out, self.cumulative_borrow_rate_wads.wads);
        write_u128(&mut out, self.borrowed_liquidity_wads.wads);
        write_u64(&mut out, self.token_mint.id);
        proof {
            broadcast use lemma_u64_le_len, lemma_u128_le_len;

            assert(out@ =~= spec_pack_obligation(*self));
        }
        out
    }

    /// Reads an obligation back from its fixed binary layout.
    pub fn unpack(bytes: &[u8]) -> (r: Result<Obligation, LendingError>)
        ensures
            r == spec_unpack_obligation(bytes@),
    {
        if bytes.len() != OBLIGATION_LEN {
            return Err(LendingError::InvalidAccountInput);
        }
        Ok(
            Obligation {
                collateral_reserve: Pubkey::new(read_u64(bytes, 0)),
                borrow_reserve: Pubkey::new(read_u64(bytes, 8)),
                deposited_collateral_tokens: read_u64(bytes, 16),
                cumulative_borrow_rate_wads: Decimal::from_scaled_val(read_u128(bytes, 24)),
                borrowed_liquidity_wads: Decimal::from_scaled_val(read_u128(bytes, 40)),
                token_mint: Pubkey::new(read_u64(bytes, 56)),
            },
        )
    }
}

/// The market and account identifiers read back from a packed reserve.
#[verifier::rlimit(100)]
proof fn lemma_reserve_fields_ids(r: Reserve)
    ensures
        u64_from(spec_pack_reserve(r), 0) == r.lending_market.id,
        u64_from(spec_pack_reserve(r), 8) == r.liquidity.mint_pubkey.id,
        u64_from(spec_pack_reserve(r), 16) == r.liquidity.supply_pubkey.id,
        u64_from(spec_pack_reserve(r), 24) == r.liquidity.available_amount,
{
    broadcast use lemma_u64_le_len, lemma_u128_le_len;

    let p = spec_pack_reserve(r);
    assert(spec_pack_reserve_head(r).len() == 64);
    lemma_u64_round_trip(r.lending_market.id);
    assert(u64_from(p, 0) == u64_from(u64_le(r.lending_market.id), 0));
    lemma_u64_round_trip(r.liquidity.mint_pubkey.id);
    assert(u64_from(p, 8) == u64_from(u64_le(r.liquidity.mint_pubkey.id), 0));
    lemma_u64_round_trip(r.liquidity.supply_pubkey.id);
    assert(u64_from(p, 16) == u64_from(u64_le(r.liquidity.supply_pubkey.id), 0));
    lemma_u64_round_trip(r.liquidity.available_amount);
    assert(u64_from(p, 24) == u64_from(u64_le(r.liquidity.available_amount), 0));
}

/// The liquidity decimals read back from a packed reserve.
#[verifier::rlimit(100)]
proof fn lemma_reserve_fields_decimals(r: Reserve)
    ensures
        u128_from(spec_pack_reserve(r), 32) == r.liquidity.borrowed_amount_wads.wads,
        u128_from(spec_pack_reserve(r), 48) == r.liquidity.cumulative_borrow_rate_wads.wads,
{
    broadcast use lemma_u64_le_len, lemma_u128_le_len;

    let p = spec_pack_reserve(r);
    assert(spec_pack_reserve_head(r).len() == 64);
    lemma_u128_round_trip(r.liquidity.borrowed_amount_wads.wads);
    assert(u128_from(p, 32) == u128_from(u128_le(r.liquidity.borrowed_amount_wads.wads), 0));
    lemma_u128_round_trip(r.liquidity.cumulative_borrow_rate_wads.wads);
    assert(u128_from(p, 48) == u128_from(
        u128_le(r.liquidity.cumulative_borrow_rate_wads.wads),
        0,
    ));
}

/// The collateral identifiers and the ratio byte read back from a packed
/// reserve.
#[verifier::rlimit(100)]
proof fn lemma_reserve_fields_collateral(r: Reserve)
    ensures
        u64_from(spec_pack_reserve(r), 64) == r.collateral.mint_pubkey.id,
        u64_from(spec_pack_reserve(r), 72) == r.collateral.supply_pubkey.id,
        u64_from(spec_pack_reserve(r), 80) == r.collateral.fees_receiver.id,
        spec_pack_reserve(r)[88] == r.config.loan_to_value_ratio,
{
    broadcast use lemma_u64_le_len, lemma_u128_le_len;

    let p = spec_pack_reserve(r);
    assert(spec_pack_reserve_head(r).len() == 64);
    assert(spec_pack_reserve_tail(r).len() == 74);
    lemma_u64_round_trip(r.collateral.mint_pubkey.id);
    assert(u64_from(p, 64) == u64_from(u64_le(r.collateral.mint_pubkey.id), 0));
    lemma_u64_round_trip(r.collateral.supply_pubkey.id);
    assert(u64_from(p, 72) == u64_from(u64_le(r.collateral.supply_pubkey.id), 0));
    lemma_u64_round_trip(r.collateral.fees_receiver.id);
    assert(u64_from(p, 80) == u64_from(u64_le(r.collateral.fees_receiver.id), 0));
}

/// The fee rates read back from a packed reserve.
#[verifier::rlimit(100)]
proof fn lemma_reserve_fields_rates(r: Reserve)
    ensures
        u128_from(spec_pack_reserve(r), 89) == r.config.origination_fee_rate.wads,
        u128_from(spec_pack_reserve(r), 105) == r.config.host_fee_rate.wads,
{
    broadcast use lemma_u64_le_len, lemma_u128_le_len;

    let p = spec_pack_reserve(r);
    assert(spec_pack_reserve_head(r).len() == 64);
    assert(spec_pack_reserve_tail(r).len() == 74);
    lemma_u128_round_trip(r.config.origination_fee_rate.wads);
    assert(u128_from(p, 89) == u128_from(u128_le(r.config.origination_fee_rate.wads), 0));
    lemma_u128_round_trip(r.config.host_fee_rate.wads);
    assert(u128_from(p, 105) == u128_from(u128_le(r.config.host_fee_rate.wads), 0));
}

/// The price reference and the accrual slot read back from a packed
/// reserve.
#[verifier::rlimit(100)]
proof fn lemma_reserve_fields_dex_slot(r: Reserve)
    ensures
        r.dex_market matches Some(k) ==> spec_pack_reserve(r)[121] == 1 && u64_from(
            spec_pack_reserve(r),
            122,
        ) == k.id,
        r.dex_market is None ==> spec_pack_reserve(r)[121] == 0,
        u64_from(spec_pack_reserve(r), 130) == r.last_update_slot,
{
    broadcast use lemma_u64_le_len, lemma_u128_le_len;

    let p = spec_pack_reserve(r);
    assert(spec_pack_reserve_head(r).len() == 64);
    assert(spec_pack_reserve_tail(r).len() == 74);
    if r.dex_market is Some {
        lemma_u64_round_trip(r.dex_market.unwrap().id);
        assert(u64_from(p, 122) == u64_from(u64_le(r.dex_market.unwrap().id), 0));
    }
    lemma_u64_round_trip(r.last_update_slot);
    assert(u64_from(p, 130) == u64_from(u64_le(r.last_update_slot), 0));
}

/// Packing a reserve and unpacking the bytes returns the reserve
/// unchanged.
#[verifier::rlimit(100)]
pub proof fn lemma_reserve_layout_round_trip(r: Reserve)
    ensures
        spec_unpack_reserve(spec_pack_reserve(r)) == Ok::<Reserve, LendingError>(r),
{
    broadcast use lemma_u64_le_len, lemma_u128_le_len;

    let p = spec_pack_reserve(r);
    assert(spec_pack_reserve_head(r).len() == 64);
    assert(spec_pack_reserve_tail(r).len() == 74);
    assert(p.len() == RESERVE_LEN);
    lemma_reserve_fields_ids(r);
    lemma_reserve_fields_decimals(r);
    lemma_reserve_fields_collateral(r);
    lemma_reserve_fields_rates(r);
    lemma_reserve_fields_dex_slot(r);
}

/// Packing an obligation and unpacking the bytes returns the obligation
/// unchanged.
#[verifier::rlimit(100)]
pub proof fn lemma_obligation_layout_round_trip(o: Obligation)
    ensures
        spec_unpack_obligation(spec_pack_obligation(o)) == Ok::<Obligation, LendingError>(o),
{
    broadcast use lemma_u64_le_len, lemma_u128_le_len;

    let p = spec_pack_obligation(o);
    assert(p.len() == OBLIGATION_LEN);
    lemma_u64_round_trip(o.collateral_reserve.id);
    assert(u64_from(p, 0) == u64_from(u64_le(o.collateral_reserve.id), 0));
    lemma_u64_round_trip(o.borrow_reserve.id);
    assert(u64_from(p, 8) == u64_from(u64_le(o.borrow_reserve.id), 0));
    lemma_u64_round_trip(o.deposited_collateral_tokens);
    assert(u64_from(p, 16) == u64_from(u64_le(o.deposited_collateral_tokens), 0));
    lemma_u128_round_trip(o.cumulative_borrow_rate_wads.wads);
    assert(u128_from(p, 24) == u128_from(u128_le(o.cumulative_borrow_rate_wads.wads), 0));
    lemma_u128_round_trip(o.borrowed_liquidity_wads.wads);
    assert(u128_from(p, 40) == u128_from(u128_le(o.borrowed_liquidity_wads.wads), 0));
    lemma_u64_round_trip(o.token_mint.id);
    assert(u64_from(p, 56) == u64_from(u64_le(o.token_mint.id), 0));
}

/// Eight little-endian bytes decode back to the value they encode.
pub proof fn lemma_u64_round_trip(v: u64)
    ensures
        u64_from(u64_le(v), 0) == v,
{
    reveal(u64_le);
    assert(v % 0x100 + ((v / 0x100) % 0x100) * 0x100 + ((v / 0x10000) % 0x100) * 0x10000 + ((v
        / 0x1000000) % 0x100) * 0x1000000 + ((v / 0x100000000) % 0x100) * 0x100000000 + ((v
        / 0x10000000000) % 0x100) * 0x10000000000 + ((v / 0x1000000000000) % 0x100)
        * 0x1000000000000 + ((v / 0x100000000000000) % 0x100) * 0x100000000000000 == v)
        by (bit_vector);
}

/// Sixteen little-endian bytes decode back to the value they encode.
pub proof fn lemma_u128_round_trip(v: u128)
    ensures
        u128_from(u128_le(v), 0) == v,
{
    broadcast use lemma_u64_le_len;

    reveal(u128_le);
    let low = (v as nat % 0x10000000000000000) as u64;
    let high = (v as nat / 0x10000000000000000) as u64;
    lemma_u64_round_trip(low);
    lemma_u64_round_trip(high);
    assert(u64_le(low) + u64_le(high) =~= u128_le(v));
    assert(u64_from(u128_le(v), 0) == u64_from(u64_le(low), 0));
    assert(u64_from(u128_le(v), 8) == u64_from(u64_le(high), 0));
    assert(v as nat == low + high * 0x10000000000000000) by {
        vstd::arithmetic::div_mod::lemma_fundamental_div_mod(
            v as int,
            0x10000000000000000,
        );
    }
}

} // verus!
