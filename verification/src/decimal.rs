//! Fixed-point ("Wad") decimal arithmetic.
//!
//! A [`Decimal`] is an unsigned fixed-point number scaled by `WAD = 10^18`.
//! All interest-rate and ratio math of the engine is performed in this type.
//! Every operation either returns the mathematically exact scaled result
//! (truncated toward zero where a fraction remains) or fails with
//! `Overflow` / `DivideByZero`; nothing wraps and nothing is clamped.

use vstd::prelude::*;

use vstd::arithmetic::div_mod::{
    lemma_basic_div, lemma_div_denominator, lemma_div_is_ordered, lemma_div_multiples_vanish,
    lemma_fundamental_div_mod, lemma_fundamental_div_mod_converse, lemma_hoist_over_denominator,
    lemma_mul_hoist_inequality, lemma_multiply_divide_lt,
};
use vstd::arithmetic::mul::{
    lemma_mul_inequality, lemma_mul_is_associative, lemma_mul_is_commutative,
    lemma_mul_upper_bound,
};
use vstd::arithmetic::power2::{
    lemma2_to64, lemma2_to64_rest, lemma_pow2_adds, lemma_pow2_pos,
    lemma_pow2_strictly_increases, pow2,
};
use vstd::bits::lemma_u64_shr_is_div;

use crate::error::LendingError;

verus! {

/// Scale of the fixed-point representation: 18 decimal digits.
pub const WAD: u128 = 1_000_000_000_000_000_000;

/// One more than `u64::MAX`; the radix used to split wide intermediates.
const TWO64: u128 = 0x1_0000_0000_0000_0000;

/// One percent in scaled units: `WAD / 100`.
pub const PERCENT_SCALER: u128 = 10_000_000_000_000_000;

/// Scaled product of two scaled values: `a * b / WAD`, truncated.
pub open spec fn wad_mul(a: int, b: int) -> int {
    (a * b) / (WAD as int)
}

/// Scaled quotient of two scaled values: `a * WAD / b`, truncated.
pub open spec fn wad_div(a: int, b: int) -> int {
    (a * (WAD as int)) / b
}

/// Number of whole tokens in a scaled value, truncated toward zero.
pub open spec fn wad_floor(a: int) -> int {
    a / (WAD as int)
}

/// Number of whole tokens covering a scaled value: truncation, plus one
/// when a fraction remains.
pub open spec fn wad_ceil(a: int) -> int {
    if a % (WAD as int) == 0 {
        a / (WAD as int)
    } else {
        a / (WAD as int) + 1
    }
}

/// Multiplying a whole-token amount by a scaled rate is exact: no
/// truncation occurs because the scale cancels.
pub proof fn lemma_wad_mul_tokens(a: int, r: int)
    requires
        0 <= a,
        0 <= r,
    ensures
        wad_mul(a * WAD, r) == a * r,
{
    assert((a * WAD) * r == (WAD as int) * (a * r)) by (nonlinear_arith);
    lemma_div_multiples_vanish(a * r, WAD as int);
}

/// A fraction (a rate of at most one) of a whole amount, truncated, never
/// exceeds the amount.
pub proof fn lemma_wad_floor_fraction(a: int, r: int)
    requires
        0 <= a,
        0 <= r <= WAD,
    ensures
        wad_floor(a * r) <= a,
{
    lemma_mul_inequality(r, WAD as int, a);
    lemma_mul_is_commutative(r, a);
    lemma_mul_is_commutative(WAD as int, a);
    lemma_div_is_ordered(a * r, a * (WAD as int), WAD as int);
    lemma_mul_is_commutative(a, WAD as int);
    lemma_div_multiples_vanish(a, WAD as int);
}

/// A fraction (a rate of at most one) of a whole amount, rounded up, never
/// exceeds the amount.
pub proof fn lemma_wad_ceil_fraction(a: int, r: int)
    requires
        0 <= a,
        0 <= r <= WAD,
    ensures
        wad_ceil(a * r) <= a,
{
    lemma_wad_floor_fraction(a, r);
    if a * r % (WAD as int) != 0 {
        assert((WAD as int) * a % (WAD as int) == 0) by {
            vstd::arithmetic::div_mod::lemma_mod_multiples_basic(a, WAD as int);
        }
        lemma_mul_is_commutative(a, r);
        lemma_mul_is_commutative(a, WAD as int);
        assert(r * a <= WAD * a) by {
            lemma_mul_inequality(r, WAD as int, a);
        }
        assert(a * r < (WAD as int) * a);
        lemma_multiply_divide_lt(a * r, WAD as int, a);
    }
}

/// Quotient of `a` by `b` rounded toward positive infinity.
pub open spec fn ceil_div(a: int, b: int) -> int {
    if a % b == 0 {
        a / b
    } else {
        a / b + 1
    }
}

/// An unsigned fixed-point number with 18 decimal digits of precision.
#[derive(Clone, Copy, Debug, PartialEq, Eq, Structural)]
pub struct Decimal {
    /// The value scaled by `WAD`.
    pub wads: u128,
}

/// Quotient and remainder of the wide value `hi * 2^64 + lo` divided by `d`.
/// The divisor must exceed `hi`, so the quotient fits in 64 bits.  This is
/// binary long division: one quotient bit per iteration, with the remainder
/// kept below `d` so that no intermediate exceeds `u128`.
fn div_wide(hi: u128, lo: u64, d: u128) -> (res: (u64, u128))
    requires
        hi < d,
    ensures
        (res.0 as int) * d + res.1 == hi * TWO64 + lo,
        res.1 < d,
{
    let mut q: u64 = 0;
    let mut rem: u128 = hi;
    let mut i: usize = 0;
    proof {
        lemma2_to64();
        lemma_basic_div(lo as int, pow2(64) as int);
    }
    while i < 64
        invariant
            i <= 64,
            0 < d,
            rem < d,
            hi < d,
            q < pow2(i as nat),
            (q as int) * d + rem == hi * pow2(i as nat) + (lo as nat) / pow2((64 - i) as nat),
        decreases 64 - i,
    {
        let shift: u64 = (63 - i) as u64;
        let bit: u64 = (lo >> shift) & 1;
        proof {
            lemma2_to64();
            lemma2_to64_rest();
            lemma_u64_shr_is_div(lo, shift);
            assert(((lo >> shift) & 1) == (lo >> shift) % 2) by (bit_vector);
            let u = (lo as nat) / pow2((63 - i) as nat);
            // Peeling one bit: lo / 2^(63-i) == 2 * (lo / 2^(64-i)) + bit.
            lemma_pow2_pos((63 - i) as nat);
            lemma_pow2_adds((63 - i) as nat, 1);
            lemma_div_denominator(lo as int, pow2((63 - i) as nat) as int, 2);
            lemma_fundamental_div_mod(u as int, 2);
            assert(u == 2 * ((lo as nat) / pow2((64 - i) as nat)) + bit);
            // The doubled quotient still fits below 2^64.
            if i < 63 {
                lemma_pow2_strictly_increases(i as nat, 63);
            }
        }
        let ghost q0 = q;
        let ghost rem0 = rem;
        let bit128: u128 = bit as u128;
        let t: u128 = d - rem;
        if rem >= t - bit128 {
            rem = rem - (t - bit128);
            q = q * 2 + 1;
        } else {
            rem = rem + rem + bit128;
            q = q * 2;
        }
        proof {
            // Doubling the accumulated quotient and remainder doubles the
            // represented value, less one divisor where a bit was retired.
            assert((q as int) * d + rem == 2 * ((q0 as int) * d + rem0) + bit)
                by (nonlinear_arith)
                requires
                    (q == 2 * q0 + 1 && rem + d == 2 * rem0 + bit) || (q == 2 * q0 && rem == 2
                        * rem0 + bit),
            ;
            // The wide value doubles when one more bit is shifted in.
            lemma_pow2_adds(i as nat, 1);
            lemma2_to64();
            lemma_mul_is_associative(hi as int, pow2(i as nat) as int, 2);
            assert((q as int) * d + rem == hi * pow2((i + 1) as nat) + (lo as nat) / pow2(
                (63 - i) as nat,
            ));
        }
        i = i + 1;
    }
    proof {
        lemma2_to64();
        vstd::arithmetic::div_mod::lemma_div_basics(lo as int);
    }
    (q, rem)
}

impl Decimal {
    /// The value zero.
    pub fn zero() -> (r: Decimal)
        ensures
            r.wads == 0,
    {
        Decimal { wads: 0 }
    }

    /// The value one.
    pub fn one() -> (r: Decimal)
        ensures
            r.wads == WAD,
    {
        Decimal { wads: WAD }
    }

    /// The scaled representation of a whole token amount.
    pub fn from_tokens(amount: u64) -> (r: Decimal)
        ensures
            r.wads == amount * WAD,
    {
        Decimal { wads: (amount as u128) * WAD }
    }

    /// A decimal built directly from its scaled representation.
    pub fn from_scaled_val(wads: u128) -> (r: Decimal)
        ensures
            r.wads == wads,
    {
        Decimal { wads }
    }

    /// The scaled representation of a percentage in `0..=255`.
    pub fn from_percent(percent: u8) -> (r: Decimal)
        ensures
            r.wads == percent * PERCENT_SCALER,
    {
        Decimal { wads: (percent as u128) * PERCENT_SCALER }
    }

    /// Checked addition.
    pub fn try_add(self, other: Decimal) -> (r: Result<Decimal, LendingError>)
        ensures
            self.wads + other.wads <= u128::MAX ==> r == Ok::<Decimal, LendingError>(
                (Decimal { wads: (self.wads + other.wads) as u128 }),
            ),
            self.wads + other.wads > u128::MAX ==> r == Err::<Decimal, LendingError>(
                LendingError::Overflow,
            ),
    {
        match self.wads.checked_add(other.wads) {
            Some(wads) => Ok(Decimal { wads }),
            None => Err(LendingError::Overflow),
        }
    }

    /// Checked subtraction; fails when the result would be negative.
    pub fn try_sub(self, other: Decimal) -> (r: Result<Decimal, LendingError>)
        ensures
            other.wads <= self.wads ==> r == Ok::<Decimal, LendingError>(
                (Decimal { wads: (self.wads - other.wads) as u128 }),
            ),
            other.wads > self.wads ==> r == Err::<Decimal, LendingError>(LendingError::Overflow),
    {
        match self.wads.checked_sub(other.wads) {
            Some(wads) => Ok(Decimal { wads }),
            None => Err(LendingError::Overflow),
        }
    }

    /// Checked multiplication: the scaled product `self * other / WAD`,
    /// truncated toward zero.  Fails only when the true scaled product
    /// exceeds the representable range.
    pub fn try_mul(self, other: Decimal) -> (r: Result<Decimal, LendingError>)
        ensures
            wad_mul(self.wads as int, other.wads as int) <= u128::MAX ==> r == Ok::<
                Decimal,
                LendingError,
            >((Decimal { wads: wad_mul(self.wads as int, other.wads as int) as u128 })),
            wad_mul(self.wads as int, other.wads as int) > u128::MAX ==> r == Err::<
                Decimal,
                LendingError,
            >(LendingError::Overflow),
    {
        let a: u128 = self.wads;
        let b: u128 = other.wads;
        let qa: u128 = a / WAD;
        let ra: u128 = a % WAD;
        let qb: u128 = b / TWO64;
        let rb: u128 = b % TWO64;
        proof {
            lemma_fundamental_div_mod(a as int, WAD as int);
            lemma_fundamental_div_mod(b as int, TWO64 as int);
            assert((u128::MAX as int) < (TWO64 as int) * (TWO64 as int)) by (nonlinear_arith);
            lemma_multiply_divide_lt(b as int, TWO64 as int, TWO64 as int);
            assert((WAD - 1) * (TWO64 - 1) <= u128::MAX) by (nonlinear_arith);
            lemma_mul_upper_bound(ra as int, (WAD - 1) as int, qb as int, (TWO64 - 1) as int);
            lemma_mul_upper_bound(ra as int, (WAD - 1) as int, rb as int, (TWO64 - 1) as int);
        }
        let x: u128 = ra * qb;
        let y: u128 = ra * rb;
        let q1: u128 = x / WAD;
        let r1: u128 = x % WAD;
        proof {
            lemma_fundamental_div_mod(x as int, WAD as int);
            assert((WAD - 1) * (TWO64 as int) + (WAD - 1) * ((TWO64 - 1) as int) <= u128::MAX)
                by (nonlinear_arith);
            lemma_mul_inequality(r1 as int, (WAD - 1) as int, TWO64 as int);
        }
        let z: u128 = r1 * TWO64 + y;
        let q2: u128 = z / WAD;
        proof {
            lemma_fundamental_div_mod(z as int, WAD as int);
            // ra * b splits into the two partial products.
            assert(ra * b == x * TWO64 + y) by (nonlinear_arith)
                requires
                    b == qb * TWO64 + rb,
                    x == ra * qb,
                    y == ra * rb,
            ;
            // Hoisting the exact multiple of WAD out of the division.
            assert(ra * b == (q1 * TWO64) * WAD + z) by (nonlinear_arith)
                requires
                    x == q1 * WAD + r1,
                    ra * b == x * TWO64 + y,
                    z == r1 * TWO64 + y,
            ;
            lemma_hoist_over_denominator(z as int, (q1 * TWO64) as int, WAD as nat);
            assert((ra * b) / (WAD as int) == q1 * TWO64 + q2);
            // The low partial result never exceeds b.
            lemma_mul_inequality(ra as int, WAD as int, b as int);
            lemma_div_is_ordered((ra * b) as int, (WAD * b) as int, WAD as int);
            lemma_mul_is_commutative(WAD as int, b as int);
            lemma_div_multiples_vanish(b as int, WAD as int);
            assert((ra * b) / (WAD as int) <= b);
            // The high partial product is a lower bound of the result.
            lemma_mul_hoist_inequality(b as int, a as int, WAD as int);
            lemma_mul_is_commutative(b as int, qa as int);
            lemma_mul_is_commutative(b as int, a as int);
            // The full product splits the same way.
            assert(a * b == (qa * b) * WAD + ra * b) by (nonlinear_arith)
                requires
                    a == qa * WAD + ra,
            ;
            lemma_hoist_over_denominator((ra * b) as int, (qa * b) as int, WAD as nat);
            assert((a * b) / (WAD as int) == qa * b + (ra * b) / (WAD as int));
        }
        let term2: u128 = q1 * TWO64 + q2;
        match qa.checked_mul(b) {
            Some(t1) => match t1.checked_add(term2) {
                Some(total) => Ok(Decimal { wads: total }),
                None => Err(LendingError::Overflow),
            },
            None => Err(LendingError::Overflow),
        }
    }

    /// Checked division: the scaled quotient `self * WAD / other`, truncated
    /// toward zero.  Fails with `DivideByZero` on a zero divisor and with
    /// `Overflow` when the true scaled quotient exceeds the representable
    /// range.
    pub fn try_div(self, other: Decimal) -> (r: Result<Decimal, LendingError>)
        ensures
            other.wads == 0 ==> r == Err::<Decimal, LendingError>(LendingError::DivideByZero),
            other.wads != 0 && wad_div(self.wads as int, other.wads as int) <= u128::MAX ==> r
                == Ok::<Decimal, LendingError>(
                (Decimal { wads: wad_div(self.wads as int, other.wads as int) as u128 }),
            ),
            other.wads != 0 && wad_div(self.wads as int, other.wads as int) > u128::MAX ==> r
                == Err::<Decimal, LendingError>(LendingError::Overflow),
    {
        let a: u128 = self.wads;
        let b: u128 = other.wads;
        if b == 0 {
            return Err(LendingError::DivideByZero);
        }
        let ah: u128 = a / TWO64;
        let al: u128 = a % TWO64;
        proof {
            lemma_fundamental_div_mod(a as int, TWO64 as int);
            assert((u128::MAX as int) < (TWO64 as int) * (TWO64 as int)) by (nonlinear_arith);
            lemma_multiply_divide_lt(a as int, TWO64 as int, TWO64 as int);
            assert((TWO64 - 1) * (WAD as int) + WAD <= u128::MAX) by (nonlinear_arith);
            lemma_mul_inequality(ah as int, (TWO64 - 1) as int, WAD as int);
            lemma_mul_inequality(al as int, (TWO64 - 1) as int, WAD as int);
        }
        let p1: u128 = ah * WAD;
        let p2: u128 = al * WAD;
        proof {
            lemma_fundamental_div_mod(p2 as int, TWO64 as int);
            assert(p2 / TWO64 < WAD) by {
                assert(p2 < (TWO64 as int) * (WAD as int)) by (nonlinear_arith)
                    requires
                        p2 == al * WAD,
                        al < TWO64,
                ;
                lemma_multiply_divide_lt(p2 as int, TWO64 as int, WAD as int);
            }
        }
        let hi: u128 = p1 + p2 / TWO64;
        let lo: u64 = (p2 % TWO64) as u64;
        proof {
            // a * WAD == hi * 2^64 + lo.
            assert(a * WAD == hi * TWO64 + lo) by (nonlinear_arith)
                requires
                    a == ah * TWO64 + al,
                    p1 == ah * WAD,
                    p2 == al * WAD,
                    p2 == TWO64 * (p2 / TWO64) + p2 % TWO64,
                    hi == p1 + p2 / TWO64,
                    lo == p2 % TWO64,
            ;
            lemma_fundamental_div_mod(hi as int, b as int);
        }
        let q1: u128 = hi / b;
        let r1: u128 = hi % b;
        if q1 >= TWO64 {
            proof {
                // The quotient would need 129 bits or more.
                lemma_div_is_ordered((hi * TWO64) as int, (hi * TWO64 + lo) as int, b as int);
                lemma_mul_hoist_inequality(TWO64 as int, hi as int, b as int);
                lemma_mul_is_commutative(TWO64 as int, q1 as int);
                lemma_mul_is_commutative(TWO64 as int, hi as int);
                lemma_mul_inequality(TWO64 as int, q1 as int, TWO64 as int);
                assert((u128::MAX as int) < (TWO64 as int) * (TWO64 as int)) by (nonlinear_arith);
            }
            return Err(LendingError::Overflow);
        }
        let qr = div_wide(r1, lo, b);
        let q2: u128 = qr.0 as u128;
        proof {
            assert(a * WAD == (q1 * TWO64 + q2) * b + qr.1) by (nonlinear_arith)
                requires
                    a * WAD == hi * TWO64 + lo,
                    hi == b * q1 + r1,
                    (q2 as int) * b + qr.1 == r1 * TWO64 + lo,
            ;
            lemma_fundamental_div_mod_converse(
                (a * WAD) as int,
                b as int,
                (q1 * TWO64 + q2) as int,
                qr.1 as int,
            );
            assert(q1 * TWO64 + q2 <= u128::MAX) by (nonlinear_arith)
                requires
                    q1 < TWO64,
                    q2 < TWO64,
            ;
        }
        Ok(Decimal { wads: q1 * TWO64 + q2 })
    }

    /// Whole-token amount of this value, truncated toward zero.
    pub fn try_floor_u64(self) -> (r: Result<u64, LendingError>)
        ensures
            wad_floor(self.wads as int) <= u64::MAX ==> r == Ok::<u64, LendingError>(
                (wad_floor(self.wads as int) as u64),
            ),
            wad_floor(self.wads as int) > u64::MAX ==> r == Err::<u64, LendingError>(
                LendingError::Overflow,
            ),
    {
        let q: u128 = self.wads / WAD;
        if q > u64::MAX as u128 {
            Err(LendingError::Overflow)
        } else {
            Ok(q as u64)
        }
    }

    /// Whole-token amount covering this value: truncation, plus one when a
    /// fraction remains.
    pub fn try_ceil_u64(self) -> (r: Result<u64, LendingError>)
        ensures
            wad_ceil(self.wads as int) <= u64::MAX ==> r == Ok::<u64, LendingError>(
                (wad_ceil(self.wads as int) as u64),
            ),
            wad_ceil(self.wads as int) > u64::MAX ==> r == Err::<u64, LendingError>(
                LendingError::Overflow,
            ),
    {
        let q: u128 = self.wads / WAD;
        let rem: u128 = self.wads % WAD;
        if rem == 0 {
            if q > u64::MAX as u128 {
                Err(LendingError::Overflow)
            } else {
                Ok(q as u64)
            }
        } else {
            if q >= u64::MAX as u128 {
                Err(LendingError::Overflow)
            } else {
                Ok((q + 1) as u64)
            }
        }
    }

    /// True when this value is strictly less than `other`.
    pub fn lt(self, other: Decimal) -> (r: bool)
        ensures
            r == (self.wads < other.wads),
    {
        self.wads < other.wads
    }

    /// True when this value is `other` or more.
    pub fn ge(self, other: Decimal) -> (r: bool)
        ensures
            r == (self.wads >= other.wads),
    {
        self.wads >= other.wads
    }
}

} // verus!
