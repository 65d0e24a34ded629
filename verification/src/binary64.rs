//! Reading channel intensities out of IEEE 754 double-precision bit patterns.
//!
//! A channel intensity arrives already scaled to the byte range, as the 64 bits
//! of a double-precision number. This module says which number such a pattern
//! denotes, using integers only, and turns it into a byte: clamped to 0..=255
//! and truncated toward zero.

use vstd::prelude::*;
use vstd::arithmetic::div_mod::*;
use vstd::arithmetic::mul::*;
use vstd::arithmetic::power2::*;
use vstd::bits::*;

verus! {

/// The weight of the implicit leading bit of a normal significand, 2^52.
pub const HIDDEN_BIT: u64 = 0x10_0000_0000_0000;

/// The exponent field of infinities and NaNs; every smaller field is a finite number.
pub const EXPONENT_SPECIAL: u64 = 0x7ff;

/// The lowest pattern with the sign bit set, 2^63.
pub const SIGN_BIT: u64 = 0x8000_0000_0000_0000;

/// The sign bit. It is set for negative numbers, for negative zero and for
/// negative infinity.
pub open spec fn is_negative(bits: u64) -> bool {
    bits >= SIGN_BIT
}

/// The 11-bit biased exponent field.
pub open spec fn exponent_field(bits: u64) -> nat {
    ((bits / HIDDEN_BIT) % 0x800) as nat
}

/// The 52-bit fraction field.
pub open spec fn fraction_field(bits: u64) -> nat {
    (bits % HIDDEN_BIT) as nat
}

/// Not a number, whatever the sign bit says.
pub open spec fn is_nan(bits: u64) -> bool {
    exponent_field(bits) == EXPONENT_SPECIAL && fraction_field(bits) != 0
}

/// Positive or negative infinity.
pub open spec fn is_infinite(bits: u64) -> bool {
    exponent_field(bits) == EXPONENT_SPECIAL && fraction_field(bits) == 0
}

/// A zero, a subnormal or a normal number.
pub open spec fn is_finite(bits: u64) -> bool {
    exponent_field(bits) < EXPONENT_SPECIAL
}

/// The magnitude of the number one, in the unit of `magnitude`.
pub open spec fn unit() -> nat {
    pow2(1075)
}

/// The absolute value that a finite pattern denotes, counted in units of
/// 2^-1075, which makes it an integer: a normal number is
/// `(2^52 + fraction) * 2^(exponent - 1075)`, a subnormal one is
/// `fraction * 2^-1074`.
pub open spec fn magnitude(bits: u64) -> nat {
    if exponent_field(bits) == 0 {
        2 * fraction_field(bits)
    } else {
        (HIDDEN_BIT as nat + fraction_field(bits)) * pow2(exponent_field(bits))
    }
}

/// The value that a finite pattern denotes, with its sign, in units of 2^-1075.
pub open spec fn signed_magnitude(bits: u64) -> int {
    if is_negative(bits) {
        -(magnitude(bits) as int)
    } else {
        magnitude(bits) as int
    }
}

/// The byte for a scaled intensity: the number is clamped to the range from 0
/// to 255 and its fractional part is dropped. A NaN gives 0.
pub open spec fn quantized(bits: u64) -> int {
    if is_nan(bits) || is_negative(bits) {
        0
    } else if is_infinite(bits) || magnitude(bits) / unit() >= 255 {
        255
    } else {
        (magnitude(bits) / unit()) as int
    }
}

/// The bit operations that take a pattern apart agree with the arithmetic
/// definitions of its fields.
proof fn lemma_fields(bits: u64)
    ensures
        (bits >> 52) & 0x7ff == exponent_field(bits),
        bits & 0xf_ffff_ffff_ffff == fraction_field(bits),
        (bits >> 63 == 1) == is_negative(bits),
        exponent_field(bits) <= EXPONENT_SPECIAL,
        fraction_field(bits) < HIDDEN_BIT,
{
    assert((bits >> 52) & 0x7ff == (bits / 0x10_0000_0000_0000) % 0x800) by (bit_vector);
    assert(bits & 0xf_ffff_ffff_ffff == bits % 0x10_0000_0000_0000) by (bit_vector);
    assert((bits >> 63 == 1) == (bits >= 0x8000_0000_0000_0000)) by (bit_vector);
}

/// A pattern whose exponent field is below 1023 denotes less than one.
proof fn lemma_below_one(bits: u64)
    requires
        exponent_field(bits) < 1023,
    ensures
        magnitude(bits) < unit(),
{
    let x = exponent_field(bits);
    let f = fraction_field(bits);
    let top = pow2(1022);
    lemma_pow2_pos(1022);
    lemma_pow2_adds(53, 1022);
    lemma2_to64_rest();
    if x == 0 {
        assert(2 * f < 0x20_0000_0000_0000 * top) by (nonlinear_arith)
            requires
                f < 0x10_0000_0000_0000,
                top >= 1,
        ;
    } else {
        if x < 1022 {
            lemma_pow2_strictly_increases(x, 1022);
        }
        let p = pow2(x);
        assert((0x10_0000_0000_0000 + f) * p < 0x20_0000_0000_0000 * top) by (nonlinear_arith)
            requires
                f < 0x10_0000_0000_0000,
                0 <= p <= top,
                top >= 1,
        ;
    }
}

/// A pattern whose exponent field is 1031 or more denotes 256 or more.
proof fn lemma_above_range(bits: u64)
    requires
        1031 <= exponent_field(bits),
    ensures
        magnitude(bits) >= 256 * unit(),
{
    let x = exponent_field(bits);
    let f = fraction_field(bits);
    if 1031 < x {
        lemma_pow2_strictly_increases(1031, x);
    }
    let p = pow2(x);
    let low = pow2(1031);
    assert((0x10_0000_0000_0000 + f) * p >= 0x10_0000_0000_0000 * low) by (nonlinear_arith)
        requires
            0 <= f,
            0 <= low <= p,
    ;
    lemma_pow2_adds(52, 1031);
    lemma_pow2_adds(8, 1075);
    lemma2_to64();
    lemma2_to64_rest();
}

/// Dropping the lowest `k` bits of a significand is dividing the magnitude by
/// the unit, when the exponent field and `k` add up to 1075.
proof fn lemma_shifted_out(significand: nat, e: nat, k: nat)
    requires
        e + k == 1075,
    ensures
        (significand * pow2(e)) / unit() == significand / pow2(k),
{
    lemma_pow2_adds(e, k);
    lemma_pow2_pos(e);
    lemma_pow2_pos(k);
    lemma_div_multiples_vanish_quotient(pow2(e) as int, significand as int, pow2(k) as int);
    lemma_mul_is_commutative(pow2(e) as int, significand as int);
}

/// A magnitude of `n` units or more holds the unit at least `n` times.
proof fn lemma_whole_units(m: nat, n: nat)
    requires
        m >= n * unit(),
    ensures
        m / unit() >= n,
{
    lemma_pow2_pos(1075);
    lemma_div_by_multiple(n as int, unit() as int);
    lemma_div_is_ordered((n * unit()) as int, m as int, unit() as int);
}

/// Turns a scaled intensity, given as the bits of a double-precision number,
/// into a channel byte.
pub fn quantize(bits: u64) -> (v: u8)
    ensures
        v == quantized(bits),
{
    let exponent: u64 = (bits >> 52) & 0x7ff;
    let fraction: u64 = bits & 0xf_ffff_ffff_ffff;
    let negative: bool = bits >> 63 == 1;
    proof {
        lemma_fields(bits);
    }
    if negative {
        0
    } else if exponent < 1023 {
        proof {
            lemma_below_one(bits);
            lemma_basic_div(magnitude(bits) as int, unit() as int);
        }
        0
    } else if exponent >= 1031 {
        if exponent == EXPONENT_SPECIAL && fraction != 0 {
            0
        } else {
            proof {
                if exponent != EXPONENT_SPECIAL {
                    lemma_above_range(bits);
                    lemma_whole_units(magnitude(bits), 256);
                }
            }
            255
        }
    } else {
        let significand: u64 = fraction | HIDDEN_BIT;
        let shift: u64 = 1075 - exponent;
        let whole: u64 = significand >> shift;
        proof {
            assert(significand == fraction + 0x10_0000_0000_0000) by (bit_vector)
                requires
                    significand == fraction | 0x10_0000_0000_0000,
                    fraction < 0x10_0000_0000_0000,
            ;
            assert(whole < 256) by (bit_vector)
                requires
                    whole == significand >> shift,
                    significand < 0x20_0000_0000_0000,
                    45 <= shift <= 52,
            ;
            lemma_u64_shr_is_div(significand, shift);
            lemma_shifted_out(significand as nat, exponent as nat, shift as nat);
        }
        whole as u8
    }
}

/// Nothing is rejected, and what lies outside the byte range is clamped to
/// it: a negative number, negative zero or negative infinity gives 0, and so
/// does a number below one; a number of 255 or more, or positive infinity,
/// gives 255.
pub proof fn lemma_quantized_clamps(bits: u64)
    requires
        !is_nan(bits),
    ensures
        0 <= quantized(bits) <= 255,
        is_negative(bits) ==> quantized(bits) == 0,
        is_finite(bits) && magnitude(bits) < unit() ==> quantized(bits) == 0,
        !is_negative(bits) && (is_infinite(bits) || magnitude(bits) >= 255 * unit())
            ==> quantized(bits) == 255,
{
    lemma_pow2_pos(1075);
    lemma_div_pos_is_pos(magnitude(bits) as int, unit() as int);
    if magnitude(bits) < unit() {
        lemma_basic_div(magnitude(bits) as int, unit() as int);
    }
    if magnitude(bits) >= 255 * unit() {
        lemma_whole_units(magnitude(bits), 255);
    }
}

/// Truncation never rounds up: the byte of a finite, non-negative pattern is
/// no more than the number that the pattern denotes, and, below the clamp at
/// 255, less than one under it.
pub proof fn lemma_quantized_truncates(bits: u64)
    requires
        is_finite(bits),
        !is_negative(bits),
    ensures
        0 <= quantized(bits) <= 255,
        quantized(bits) * unit() <= magnitude(bits),
        quantized(bits) < 255 ==> magnitude(bits) < (quantized(bits) + 1) * unit(),
{
    let m = magnitude(bits) as int;
    let u = unit() as int;
    lemma_pow2_pos(1075);
    lemma_fundamental_div_mod(m, u);
    lemma_mod_bound(m, u);
    lemma_div_pos_is_pos(m, u);
    let q = m / u;
    assert(q * u <= m < (q + 1) * u) by (nonlinear_arith)
        requires
            m == u * q + m % u,
            0 <= m % u < u,
    ;
    if q >= 255 {
        assert(255 * u <= q * u) by (nonlinear_arith)
            requires
                255 <= q,
                0 < u,
        ;
    }
}

/// A pattern that denotes a number less than one away from a byte `c` gives
/// `c` or the byte below it.
pub proof fn lemma_quantized_within_one(bits: u64, c: u8)
    requires
        is_finite(bits),
        (c - 1) * unit() < signed_magnitude(bits) < (c + 1) * unit(),
    ensures
        c - 1 <= quantized(bits) <= c,
{
    let m = magnitude(bits) as int;
    let u = unit() as int;
    let q = quantized(bits);
    lemma_pow2_pos(1075);
    if is_negative(bits) {
        assert(c == 0) by (nonlinear_arith)
            requires
                (c - 1) * u < 0,
                0 < u,
                0 <= c,
        ;
    } else {
        lemma_quantized_truncates(bits);
        assert(q <= c) by (nonlinear_arith)
            requires
                q * u <= m < (c + 1) * u,
                0 < u,
        ;
        if q < 255 {
            assert(c - 1 <= q) by (nonlinear_arith)
                requires
                    (c - 1) * u < m < (q + 1) * u,
                    0 < u,
            ;
        }
    }
}

} // verus!
