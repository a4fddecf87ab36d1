//! Binary32 scalars held as bit patterns.
//!
//! Signs, zeros and comparison are integer logic on the bit pattern and are
//! proved here. Rounding is taken from a software floating-point library;
//! each of its operations is a function of the operand bits and is named in
//! contracts by an uninterpreted function.

use vstd::prelude::*;
use vstd::arithmetic::power2::{lemma2_to64, lemma_pow2_pos, lemma_pow2_unfold, pow2};
use vstd::bits::{lemma_u32_shl_is_mul, lemma_u32_shr_is_div};
use const_soft_float::soft_f32::SoftF32;

verus! {

/// The bit that holds the sign.
pub const SIGN_BIT: u32 = 0x8000_0000;

/// The bit pattern of positive infinity; every larger magnitude is a NaN.
pub const INFINITY_BITS: u32 = 0x7f80_0000;

/// The bit pattern of `0.0`.
pub const ZERO_BITS: u32 = 0;

/// The bit pattern of `0.5`.
pub const HALF_BITS: u32 = 0x3f00_0000;

/// The bit pattern of `1.0`.
pub const ONE_BITS: u32 = 0x3f80_0000;

/// The bit pattern of `-1.0`.
pub const MINUS_ONE_BITS: u32 = 0xbf80_0000;

/// The bit pattern of `2.0`.
pub const TWO_BITS: u32 = 0x4000_0000;

/// The bit pattern of `65536.0`.
pub const HIGH_HALF_BITS: u32 = 0x4780_0000;

/// The weight of the lowest exponent bit: 2^23.
pub const HIDDEN_BIT: u32 = 0x80_0000;

/// The biased exponent of 1.
pub const EXPONENT_BIAS: u32 = 127;

/// The biased exponent of a value whose last significand bit weighs 1.
pub const UNIT_EXPONENT: u32 = 150;

/// The bit pattern without its sign.
pub open spec fn magnitude(bits: u32) -> int {
    if bits >= SIGN_BIT {
        bits - SIGN_BIT
    } else {
        bits as int
    }
}

/// Whether the sign bit is set.
pub open spec fn sign_set(bits: u32) -> bool {
    bits >= SIGN_BIT
}

/// Whether the pattern encodes a NaN.
pub open spec fn nan(bits: u32) -> bool {
    magnitude(bits) > INFINITY_BITS
}

/// An integer that orders the non-NaN patterns as their values are ordered:
/// the magnitude, negated where the sign is set. Both zeros map to 0.
pub open spec fn ordinal(bits: u32) -> int {
    if sign_set(bits) {
        -magnitude(bits)
    } else {
        magnitude(bits)
    }
}

/// The biased exponent field.
pub open spec fn exponent(bits: u32) -> int {
    magnitude(bits) / (HIDDEN_BIT as int)
}

/// The significand of a normal value, hidden bit included.
pub open spec fn significand(bits: u32) -> int {
    HIDDEN_BIT + magnitude(bits) % (HIDDEN_BIT as int)
}

/// The value cut to an integer towards zero and held to the range of `u32`:
/// 0 for a NaN and for every value below 1.
pub open spec fn truncated(bits: u32) -> int {
    if nan(bits) || sign_set(bits) || exponent(bits) < EXPONENT_BIAS {
        0
    } else if exponent(bits) >= UNIT_EXPONENT + 9 {
        u32::MAX as int
    } else if exponent(bits) >= UNIT_EXPONENT {
        significand(bits) * pow2((exponent(bits) - UNIT_EXPONENT) as nat)
    } else {
        significand(bits) / (pow2((UNIT_EXPONENT - exponent(bits)) as nat) as int)
    }
}

/// Whether the value is an integer from 0 to 2^24, its fraction being zero.
pub open spec fn holds_integer(bits: u32) -> bool {
    bits == 0 || (!sign_set(bits) && EXPONENT_BIAS <= exponent(bits) <= UNIT_EXPONENT
        && significand(bits) % (pow2((UNIT_EXPONENT - exponent(bits)) as nat) as int) == 0)
}

/// The pattern with significand `sig` at biased exponent `exp`, after the
/// significand was doubled, and the exponent lowered, until the hidden bit is
/// set.
pub open spec fn normalised(sig: nat, exp: nat) -> int
    decreases exp,
{
    if sig >= HIDDEN_BIT || exp <= EXPONENT_BIAS {
        exp * HIDDEN_BIT + sig - HIDDEN_BIT
    } else {
        normalised(2 * sig, (exp - 1) as nat)
    }
}

/// The pattern that holds the integer `n`, for `n` below 2^24.
pub open spec fn integer_bits(n: nat) -> u32 {
    if n == 0 {
        0
    } else {
        normalised(n, UNIT_EXPONENT as nat) as u32
    }
}

/// Normalising keeps the value: the pattern holds `sig / 2^(150 - exp)`.
pub proof fn lemma_normalised_holds(n: nat, sig: nat, exp: nat)
    requires
        1 <= sig < 0x100_0000,
        EXPONENT_BIAS <= exp <= UNIT_EXPONENT,
        sig == n * pow2((UNIT_EXPONENT - exp) as nat),
        sig >= pow2((UNIT_EXPONENT - exp) as nat),
    ensures
        0 < normalised(sig, exp) < SIGN_BIT,
        holds_integer(normalised(sig, exp) as u32),
        truncated(normalised(sig, exp) as u32) == n,
    decreases exp,
{
    let k = (UNIT_EXPONENT - exp) as nat;
    lemma2_to64();
    lemma_pow2_pos(k);
    if sig >= HIDDEN_BIT {
        let bits = (exp * HIDDEN_BIT + sig - HIDDEN_BIT) as u32;
        assert(magnitude(bits) == bits);
        assert(exponent(bits) == exp);
        assert(significand(bits) == sig);
        let d = pow2(k) as int;
        assert((n * d) % d == 0 && (n * d) / d == n) by (nonlinear_arith)
            requires
                d > 0,
        ;
        if exp == UNIT_EXPONENT {
            assert(sig * pow2(0) == n) by (nonlinear_arith)
                requires
                    sig == n * pow2(0),
                    pow2(0) == 1,
            ;
        }
    } else {
        lemma_pow2_unfold(k + 1);
        assert(n * (2 * pow2(k)) == 2 * (n * pow2(k))) by (nonlinear_arith);
        assert(exp > EXPONENT_BIAS);
        lemma_normalised_holds(n, 2 * sig, (exp - 1) as nat);
    }
}

/// The pattern of an integer below 2^24 holds that integer exactly.
pub proof fn lemma_integer_bits(n: nat)
    requires
        n < 0x100_0000,
    ensures
        lit(integer_bits(n)).is_integer(n as int),
{
    if n > 0 {
        lemma2_to64();
        assert(n * pow2(0) == n) by (nonlinear_arith)
            requires
                pow2(0) == 1,
        ;
        lemma_normalised_holds(n, n, UNIT_EXPONENT as nat);
    }
}

/// The pattern with its sign flipped.
pub open spec fn negated(bits: u32) -> u32 {
    if bits >= SIGN_BIT {
        (bits - SIGN_BIT) as u32
    } else {
        (bits + SIGN_BIT) as u32
    }
}

/// The pattern with the magnitude of `bits` and the given sign.
pub open spec fn with_sign(bits: u32, negative: bool) -> u32 {
    if negative {
        (magnitude(bits) + SIGN_BIT) as u32
    } else {
        magnitude(bits) as u32
    }
}

/// Whether `x` is `y` with the opposite sign, as values: both are NaNs, or
/// neither is and one is the other negated. Two zeros are opposite.
pub open spec fn opposite(x: u32, y: u32) -> bool {
    nan(x) == nan(y) && (!nan(x) ==> ordinal(x) == -ordinal(y))
}

/// The sum of two binary32 values as the library rounds it, by their bit
/// patterns.
pub uninterp spec fn float_sum(a: u32, b: u32) -> u32;

/// The sum of two patterns of which neither is a zero: the rounded sum, taken
/// with a first operand whose sign is clear and negated back where the
/// operands were negated for it; where the operands cancel, positive zero.
pub open spec fn nonzero_sum(a: u32, b: u32) -> u32 {
    let rounded = if sign_set(a) {
        negated(float_sum(negated(a), negated(b)))
    } else {
        float_sum(a, b)
    };
    if magnitude(rounded) == 0 {
        0
    } else {
        rounded
    }
}

/// The sum of two patterns. A zero added to a value leaves the value; two
/// zeros give the negative zero only where both are negative.
pub open spec fn sum_bits(a: u32, b: u32) -> u32 {
    if magnitude(a) == 0 && magnitude(b) == 0 {
        if sign_set(a) && sign_set(b) {
            SIGN_BIT
        } else {
            0
        }
    } else if magnitude(a) == 0 {
        b
    } else if magnitude(b) == 0 {
        a
    } else {
        nonzero_sum(a, b)
    }
}

/// The product of two patterns: the rounded product of the magnitudes, with
/// the sign set where the signs of the operands differ.
pub open spec fn product_bits(a: u32, b: u32) -> u32 {
    with_sign(
        float_product(magnitude(a) as u32, magnitude(b) as u32),
        sign_set(a) != sign_set(b),
    )
}

/// Negating one factor negates the product.
pub proof fn lemma_product_negated(a: u32, b: u32)
    ensures
        product_bits(a, negated(b)) == negated(product_bits(a, b)),
        product_bits(negated(a), b) == negated(product_bits(a, b)),
        opposite(negated(product_bits(a, b)), product_bits(a, b)),
{
}

/// The sum of the opposites is the opposite of the sum.
pub proof fn lemma_sum_opposite(a: u32, b: u32, c: u32, d: u32)
    requires
        !nan(a),
        !nan(b),
        opposite(c, a),
        opposite(d, b),
    ensures
        opposite(sum_bits(c, d), sum_bits(a, b)),
{
    if magnitude(a) != 0 {
        assert(c == negated(a));
    }
    if magnitude(b) != 0 {
        assert(d == negated(b));
    }
    if magnitude(a) != 0 && magnitude(b) != 0 {
        assert(negated(negated(a)) == a);
        assert(negated(negated(b)) == b);
    }
}

/// The product of two binary32 values as the library rounds it, by their bit
/// patterns.
pub uninterp spec fn float_product(a: u32, b: u32) -> u32;

/// The quotient of two binary32 values as the library rounds it, by their
/// bit patterns.
pub uninterp spec fn float_quotient(a: u32, b: u32) -> u32;

/// The square root of a binary32 value as the library rounds it, by its bit
/// pattern.
pub uninterp spec fn float_root(a: u32) -> u32;

/// Calls `SoftF32::add`. The result is a function of the two bit patterns;
/// nothing more is claimed of it.
#[verifier::external_body]
fn soft_add(a: u32, b: u32) -> (r: u32)
    ensures
        r == float_sum(a, b),
{
    SoftF32::from_bits(a).add(SoftF32::from_bits(b)).to_bits()
}

/// Calls `SoftF32::mul`. The result is a function of the two bit patterns;
/// nothing more is claimed of it. (Of a product below the smallest normal
/// value the library's rounding may miss the nearest value by one step.)
#[verifier::external_body]
fn soft_mul(a: u32, b: u32) -> (r: u32)
    ensures
        r == float_product(a, b),
{
    SoftF32::from_bits(a).mul(SoftF32::from_bits(b)).to_bits()
}

/// Calls `SoftF32::div`. The result is a function of the two bit patterns;
/// nothing more is claimed of it. Division by zero yields an infinity or a
/// NaN and does not fail.
#[verifier::external_body]
fn soft_div(a: u32, b: u32) -> (r: u32)
    ensures
        r == float_quotient(a, b),
{
    SoftF32::from_bits(a).div(SoftF32::from_bits(b)).to_bits()
}

/// Calls `SoftF32::sqrt`. The result is a function of the bit pattern;
/// nothing more is claimed of it. A negative operand yields a NaN.
#[verifier::external_body]
fn soft_sqrt(a: u32) -> (r: u32)
    ensures
        r == float_root(a),
{
    SoftF32::from_bits(a).sqrt().to_bits()
}

/// A binary32 value, held as its bit pattern.
#[derive(Clone, Copy, Debug)]
pub struct Scalar {
    pub bits: u32,
}

/// The scalar with the given bit pattern.
pub open spec fn lit(bits: u32) -> Scalar {
    Scalar { bits }
}

impl Scalar {
    pub open spec fn is_nan_spec(self) -> bool {
        nan(self.bits)
    }

    /// `self < rhs` as values: false when either is a NaN.
    pub open spec fn lt_spec(self, rhs: Scalar) -> bool {
        !nan(self.bits) && !nan(rhs.bits) && ordinal(self.bits) < ordinal(rhs.bits)
    }

    /// `self <= rhs` as values: false when either is a NaN.
    pub open spec fn le_spec(self, rhs: Scalar) -> bool {
        !nan(self.bits) && !nan(rhs.bits) && ordinal(self.bits) <= ordinal(rhs.bits)
    }

    pub open spec fn neg_spec(self) -> Scalar {
        Scalar { bits: negated(self.bits) }
    }

    pub open spec fn abs_spec(self) -> Scalar {
        Scalar { bits: magnitude(self.bits) as u32 }
    }

    /// The smaller of two values; where one is a NaN, the other.
    pub open spec fn min_spec(self, rhs: Scalar) -> Scalar {
        if nan(rhs.bits) || self.lt_spec(rhs) {
            self
        } else {
            rhs
        }
    }

    pub open spec fn add_spec(self, rhs: Scalar) -> Scalar {
        Scalar { bits: sum_bits(self.bits, rhs.bits) }
    }

    pub open spec fn sub_spec(self, rhs: Scalar) -> Scalar {
        self.add_spec(rhs.neg_spec())
    }

    pub open spec fn mul_spec(self, rhs: Scalar) -> Scalar {
        Scalar { bits: product_bits(self.bits, rhs.bits) }
    }

    pub open spec fn div_spec(self, rhs: Scalar) -> Scalar {
        Scalar { bits: float_quotient(self.bits, rhs.bits) }
    }

    pub open spec fn sqrt_spec(self) -> Scalar {
        Scalar { bits: float_root(self.bits) }
    }

    pub open spec fn squared_spec(self) -> Scalar {
        self.mul_spec(self)
    }

    /// Whether the scalar is the integer `n`, held exactly.
    pub open spec fn is_integer(self, n: int) -> bool {
        holds_integer(self.bits) && truncated(self.bits) == n
    }

    /// The scalar nearest to the integer `n`, ties going to the even
    /// significand: below 2^24 the integer itself, else the rounded sum
    /// `high * 65536 + low` of its two halves, whose terms are exact.
    pub open spec fn from_u32_spec(n: u32) -> Scalar {
        if n < 0x100_0000 {
            lit(integer_bits(n as nat))
        } else {
            lit(integer_bits(n as nat / 0x1_0000)).mul_spec(lit(HIGH_HALF_BITS)).add_spec(
                lit(integer_bits(n as nat % 0x1_0000)),
            )
        }
    }

    pub fn zero() -> (r: Scalar)
        ensures
            r.bits == ZERO_BITS,
    {
        Scalar { bits: ZERO_BITS }
    }

    pub fn half() -> (r: Scalar)
        ensures
            r.bits == HALF_BITS,
    {
        Scalar { bits: HALF_BITS }
    }

    pub fn one() -> (r: Scalar)
        ensures
            r.bits == ONE_BITS,
    {
        Scalar { bits: ONE_BITS }
    }

    pub fn two() -> (r: Scalar)
        ensures
            r.bits == TWO_BITS,
    {
        Scalar { bits: TWO_BITS }
    }

    pub fn infinity() -> (r: Scalar)
        ensures
            r.bits == INFINITY_BITS,
    {
        Scalar { bits: INFINITY_BITS }
    }

    pub fn from_bits(bits: u32) -> (r: Scalar)
        ensures
            r.bits == bits,
    {
        Scalar { bits }
    }

    pub fn to_bits(self) -> (r: u32)
        ensures
            r == self.bits,
    {
        self.bits
    }

    /// The scalar of an integer below 2^24, which is held exactly.
    pub fn from_small(n: u32) -> (r: Scalar)
        requires
            n < 0x100_0000,
        ensures
            r.bits == integer_bits(n as nat),
            r.is_integer(n as int),
    {
        proof {
            lemma_integer_bits(n as nat);
        }
        if n == 0 {
            return Scalar { bits: 0 };
        }
        let mut sig: u32 = n;
        let mut exp: u32 = UNIT_EXPONENT;
        while sig < HIDDEN_BIT && exp > EXPONENT_BIAS
            invariant
                1 <= sig < 0x100_0000,
                EXPONENT_BIAS <= exp <= UNIT_EXPONENT,
                normalised(sig as nat, exp as nat) == normalised(n as nat, UNIT_EXPONENT as nat),
            decreases exp,
        {
            sig = sig * 2;
            exp = exp - 1;
        }
        proof {
            assert(0 < normalised(n as nat, UNIT_EXPONENT as nat) < SIGN_BIT);
        }
        Scalar { bits: exp * HIDDEN_BIT + sig - HIDDEN_BIT }
    }

    /// The scalar nearest to an integer, ties going to the even significand.
    pub fn from_u32(n: u32) -> (r: Scalar)
        ensures
            r == Scalar::from_u32_spec(n),
    {
        if n < 0x100_0000 {
            Scalar::from_small(n)
        } else {
            let high = Scalar::from_small(n / 0x1_0000);
            let low = Scalar::from_small(n % 0x1_0000);
            high.mul(Scalar { bits: HIGH_HALF_BITS }).add(low)
        }
    }

    /// The value cut to an integer towards zero, held to the range of `u32`.
    pub fn to_u32(self) -> (r: u32)
        ensures
            r == truncated(self.bits),
    {
        if self.is_nan() || self.bits >= SIGN_BIT {
            return 0;
        }
        let exp: u32 = self.bits / HIDDEN_BIT;
        let sig: u32 = HIDDEN_BIT + self.bits % HIDDEN_BIT;
        if exp < EXPONENT_BIAS {
            0
        } else if exp >= UNIT_EXPONENT + 9 {
            u32::MAX
        } else if exp >= UNIT_EXPONENT {
            let shift: u32 = exp - UNIT_EXPONENT;
            proof {
                lemma2_to64();
                assert(pow2(shift as nat) <= 256);
                assert(sig * pow2(shift as nat) <= u32::MAX) by (nonlinear_arith)
                    requires
                        sig < 0x100_0000,
                        pow2(shift as nat) <= 256,
                ;
                lemma_u32_shl_is_mul(sig, shift);
            }
            sig << shift
        } else {
            let shift: u32 = UNIT_EXPONENT - exp;
            proof {
                lemma_u32_shr_is_div(sig, shift);
            }
            sig >> shift
        }
    }

    pub fn is_nan(self) -> (r: bool)
        ensures
            r == self.is_nan_spec(),
    {
        let m: u32 = if self.bits >= SIGN_BIT { self.bits - SIGN_BIT } else { self.bits };
        m > INFINITY_BITS
    }

    pub fn neg(self) -> (r: Scalar)
        ensures
            r == self.neg_spec(),
    {
        if self.bits >= SIGN_BIT {
            Scalar { bits: self.bits - SIGN_BIT }
        } else {
            Scalar { bits: self.bits + SIGN_BIT }
        }
    }

    pub fn abs(self) -> (r: Scalar)
        ensures
            r == self.abs_spec(),
    {
        if self.bits >= SIGN_BIT {
            Scalar { bits: self.bits - SIGN_BIT }
        } else {
            self
        }
    }

    pub fn lt(self, rhs: Scalar) -> (r: bool)
        ensures
            r == self.lt_spec(rhs),
    {
        if self.is_nan() || rhs.is_nan() {
            return false;
        }
        let a_neg: bool = self.bits >= SIGN_BIT;
        let b_neg: bool = rhs.bits >= SIGN_BIT;
        let a_mag: u32 = self.abs().bits;
        let b_mag: u32 = rhs.abs().bits;
        if a_neg {
            if b_neg {
                a_mag > b_mag
            } else {
                a_mag > 0 || b_mag > 0
            }
        } else {
            if b_neg {
                false
            } else {
                a_mag < b_mag
            }
        }
    }

    pub fn le(self, rhs: Scalar) -> (r: bool)
        ensures
            r == self.le_spec(rhs),
    {
        if self.is_nan() || rhs.is_nan() {
            return false;
        }
        !rhs.lt(self)
    }

    pub fn gt(self, rhs: Scalar) -> (r: bool)
        ensures
            r == rhs.lt_spec(self),
    {
        rhs.lt(self)
    }

    pub fn ge(self, rhs: Scalar) -> (r: bool)
        ensures
            r == rhs.le_spec(self),
    {
        rhs.le(self)
    }

    pub fn min(self, rhs: Scalar) -> (r: Scalar)
        ensures
            r == self.min_spec(rhs),
    {
        if rhs.is_nan() || self.lt(rhs) {
            self
        } else {
            rhs
        }
    }

    /// Whether the scalar is a zero of either sign.
    pub fn is_zero(self) -> (r: bool)
        ensures
            r == (magnitude(self.bits) == 0),
    {
        self.bits == 0 || self.bits == SIGN_BIT
    }

    pub fn add(self, rhs: Scalar) -> (r: Scalar)
        ensures
            r == self.add_spec(rhs),
    {
        if self.is_zero() && rhs.is_zero() {
            if self.bits >= SIGN_BIT && rhs.bits >= SIGN_BIT {
                Scalar { bits: SIGN_BIT }
            } else {
                Scalar { bits: 0 }
            }
        } else if self.is_zero() {
            rhs
        } else if rhs.is_zero() {
            self
        } else {
            let rounded = if self.bits >= SIGN_BIT {
                Scalar { bits: soft_add(self.neg().bits, rhs.neg().bits) }.neg()
            } else {
                Scalar { bits: soft_add(self.bits, rhs.bits) }
            };
            if rounded.is_zero() {
                Scalar { bits: 0 }
            } else {
                rounded
            }
        }
    }

    pub fn sub(self, rhs: Scalar) -> (r: Scalar)
        ensures
            r == self.sub_spec(rhs),
    {
        self.add(rhs.neg())
    }

    pub fn mul(self, rhs: Scalar) -> (r: Scalar)
        ensures
            r == self.mul_spec(rhs),
    {
        let rounded = Scalar { bits: soft_mul(self.abs().bits, rhs.abs().bits) }.abs();
        if (self.bits >= SIGN_BIT) != (rhs.bits >= SIGN_BIT) {
            rounded.neg()
        } else {
            rounded
        }
    }

    pub fn div(self, rhs: Scalar) -> (r: Scalar)
        ensures
            r == self.div_spec(rhs),
    {
        Scalar { bits: soft_div(self.bits, rhs.bits) }
    }

    pub fn sqrt(self) -> (r: Scalar)
        ensures
            r == self.sqrt_spec(),
    {
        Scalar { bits: soft_sqrt(self.bits) }
    }

    pub fn squared(self) -> (r: Scalar)
        ensures
            r == self.squared_spec(),
    {
        self.mul(self)
    }
}

} // verus!
